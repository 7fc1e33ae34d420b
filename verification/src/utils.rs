//! Where the bytes of a document come from.

use crate::path::{
    file_name_of, is_plain_extension, join, parent_of, path_file_name, path_join, path_parent,
    path_with_extension, with_extension,
};
use vstd::prelude::*;

verus! {

/// The origin of a document: a file named by its path, a stream that is
/// already open, or nothing.
#[derive(Debug)]
pub enum FileWrapper<T> {
    FileSystem(String),
    Stream(T),
    Empty,
}

impl<T> Default for FileWrapper<T> {
    fn default() -> (r: FileWrapper<T>)
        ensures
            r is Empty,
    {
        FileWrapper::Empty
    }
}

/// A description of where a document comes from.
#[derive(Debug)]
pub struct FileSource<T> {
    pub source: FileWrapper<T>,
}

impl<T> Default for FileSource<T> {
    fn default() -> (r: FileSource<T>)
        ensures
            r.source is Empty,
    {
        FileSource { source: FileWrapper::Empty }
    }
}

/// The path of the file that caches the offset index of the document at
/// `path`: in the same directory, the name of the document with its
/// extension replaced by `index.json`. `None` for a path without a final
/// component or without a parent.
pub open spec fn index_path(path: Seq<char>) -> Option<Seq<char>> {
    match path_file_name(path) {
        Some(name) => match path_parent(path) {
            Some(parent) => Some(path_with_extension(path_join(parent, name), "index.json"@)),
            None => None,
        },
        None => None,
    }
}

impl<T> FileSource<T> {
    /// The path of the document, for a source on the file system.
    pub open spec fn path(&self) -> Option<Seq<char>> {
        match self.source {
            FileWrapper::FileSystem(path) => Some(path@),
            _ => None,
        }
    }

    /// A source on the file system.
    pub fn from_path(path: String) -> (r: FileSource<T>)
        ensures
            r.source == FileWrapper::<T>::FileSystem(path),
    {
        FileSource { source: FileWrapper::FileSystem(path) }
    }

    /// A source that is an open stream.
    pub fn from_stream(stream: T) -> (r: FileSource<T>)
        ensures
            r.source == FileWrapper::Stream(stream),
    {
        FileSource { source: FileWrapper::Stream(stream) }
    }

    /// The path of the document; `None` for a stream and for an empty
    /// source.
    pub fn file_name(&self) -> (r: Option<&str>)
        ensures
            match r {
                Some(path) => self.path() == Some(path@),
                None => self.path() is None,
            },
    {
        match &self.source {
            FileWrapper::FileSystem(path) => Some(path.as_str()),
            FileWrapper::Stream(_) => None,
            FileWrapper::Empty => None,
        }
    }

    /// The path of the file that caches the offset index of the document;
    /// `None` for a stream, for an empty source, and for a path without a
    /// final component or a parent.
    pub fn index_file_name(&self) -> (r: Option<String>)
        ensures
            match r {
                Some(name) => self.path() matches Some(path) && index_path(path) == Some(name@),
                None => self.path() matches Some(path) ==> index_path(path) is None,
            },
    {
        match &self.source {
            FileWrapper::Empty => None,
            FileWrapper::Stream(_) => None,
            FileWrapper::FileSystem(path) => {
                match file_name_of(path.as_str()) {
                    Some(name) => match parent_of(path.as_str()) {
                        Some(parent) => {
                            let base = join(parent.as_str(), name.as_str());
                            proof {
                                lemma_index_extension_is_plain();
                            }
                            Some(with_extension(base.as_str(), "index.json"))
                        },
                        None => None,
                    },
                    None => None,
                }
            },
        }
    }

    /// Whether the file that caches the offset index is there, as `present`
    /// tells it: `present` is asked of the index file name and its answer is
    /// the result. A source without such a file name has no index file, and
    /// `present` is not asked.
    pub fn has_index_file<F: Fn(&str) -> bool>(&self, present: F) -> (r: bool)
        requires
            forall|name: &str| call_requires(present, (name,)),
        ensures
            match self.path() {
                Some(path) => match index_path(path) {
                    Some(name) => exists|asked: &str|
                        #![trigger call_ensures(present, (asked,), r)]
                        asked@ == name && call_ensures(present, (asked,), r),
                    None => !r,
                },
                None => !r,
            },
    {
        match self.index_file_name() {
            Some(path) => present(path.as_str()),
            None => false,
        }
    }
}

/// The extension of an index file holds no path separator.
proof fn lemma_index_extension_is_plain()
    ensures
        is_plain_extension("index.json"@),
{
    reveal_strlit("index.json");
    let text = "index.json"@;
    assert(text.len() == 10);
    assert forall|i: int| 0 <= i < text.len() implies text[i] != '/' && text[i] != '\\' by {
        assert(text[0] == 'i' && text[1] == 'n' && text[2] == 'd' && text[3] == 'e' && text[4]
            == 'x' && text[5] == '.' && text[6] == 'j' && text[7] == 's' && text[8] == 'o'
            && text[9] == 'n');
    }
}

impl<T> From<String> for FileSource<T> {
    fn from(path: String) -> (r: FileSource<T>) {
        FileSource::from_path(path)
    }
}

impl<T> vstd::std_specs::convert::FromSpecImpl<String> for FileSource<T> {
    open spec fn obeys_from_spec() -> bool {
        true
    }

    open spec fn from_spec(path: String) -> FileSource<T> {
        FileSource { source: FileWrapper::FileSystem(path) }
    }
}

} // verus!
