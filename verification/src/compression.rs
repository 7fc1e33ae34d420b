//! Detection of gzip-compressed inputs and a seekable view over a gzip stream.
//!
//! Gzip framing offers no random access. [`RestartableGzDecoder`] makes up for
//! it by reading ahead, or by rewinding to the start of the compressed bytes
//! and reading ahead from there.

use crate::path::{
    extension_of, is_plain_extension, path_extension, path_with_extension, with_extension,
};
use crate::seek::SeekFrom;
use vstd::prelude::*;

verus! {

/// Whether `header` begins with the two-byte gzip magic number.
pub open spec fn has_gzip_magic(header: Seq<u8>) -> bool {
    header.len() >= 2 && header[0] == 0x1f && header[1] == 0x8b
}

/// Checks the first bytes of a stream for the gzip magic number `1f 8b`.
pub fn is_gzipped(header: &[u8]) -> (r: bool)
    ensures
        r == has_gzip_magic(header@),
{
    header.len() >= 2 && header[0] == 0x1f && header[1] == 0x8b
}

/// Whether an extension spells `gz`, in any mix of upper and lower case.
pub open spec fn is_gz_extension(extension: Seq<char>) -> bool {
    &&& extension.len() == 2
    &&& (extension[0] == 'g' || extension[0] == 'G')
    &&& (extension[1] == 'z' || extension[1] == 'Z')
}

/// Whether a path carries a gzip extension, given the extension found in it.
pub open spec fn names_gzip(extension: Option<Seq<char>>) -> bool {
    match extension {
        Some(e) => is_gz_extension(e),
        None => false,
    }
}

/// Compares an extension with `gz`, ignoring ASCII case.
pub fn gz_extension_matches(extension: &str) -> (r: bool)
    ensures
        r == is_gz_extension(extension@),
{
    if extension.unicode_len() != 2 {
        return false;
    }
    let first = extension.get_char(0);
    let second = extension.get_char(1);
    (first == 'g' || first == 'G') && (second == 'z' || second == 'Z')
}

/// Tells whether `path` ends in a gzip extension and, if so, also returns the
/// path with that extension removed. Otherwise the path comes back unchanged.
pub fn is_gzipped_extension(path: String) -> (r: (bool, String))
    ensures
        r.0 == names_gzip(path_extension(path@)),
        r.0 ==> r.1@ == path_with_extension(path@, Seq::<char>::empty()),
        !r.0 ==> r.1@ == path@,
{
    match extension_of(path.as_str()) {
        Some(extension) => {
            if gz_extension_matches(extension.as_str()) {
                let empty = String::new();
                proof {
                    assert(is_plain_extension(empty@));
                }
                (true, with_extension(path.as_str(), empty.as_str()))
            } else {
                (false, path)
            }
        },
        None => (false, path),
    }
}

/// The seeks a compressed stream cannot serve.
#[derive(Clone, Copy, Debug, PartialEq, Eq)]
pub enum UnsupportedSeek {
    /// The target was given relative to the end of the stream.
    RelativeToEnd,
    /// The target lies before the start of the stream.
    BeforeStart,
}

/// Why a read or a seek on the decompressed stream failed.
#[derive(Debug)]
pub enum StreamError {
    /// The seek cannot be served by a compressed stream.
    Unsupported(UnsupportedSeek),
    /// The stream ended before the requested bytes were delivered.
    UnexpectedEof,
    /// The position would no longer fit in 64 bits.
    PositionOverflow,
    /// The decompressor reported an error.
    Codec(std::io::Error),
}

/// `std::io::Error`, carried through as a value of which nothing is known.
#[verifier::external_type_specification]
#[verifier::external_body]
pub struct ExIoError(std::io::Error);

/// `std::io::Cursor`, carried through as a value of which nothing is known.
#[verifier::external_type_specification]
#[verifier::external_body]
#[verifier::reject_recursive_types(T)]
pub struct ExCursor<T>(std::io::Cursor<T>);

/// `flate2::bufread::MultiGzDecoder`. What is claimed of a decoder is said
/// through `decoder_source` and `decoder_position`.
#[verifier::external_type_specification]
#[verifier::external_body]
#[verifier::reject_recursive_types(R)]
pub struct ExMultiGzDecoder<R>(flate2::bufread::MultiGzDecoder<R>);

/// The decompressed stream of `compressed`: the longest run of bytes that a
/// gzip decoder over `compressed` delivers from the first byte on before a
/// read fails, whatever the sizes of the buffers it reads into.
pub uninterp spec fn gz_decoded(compressed: Seq<u8>) -> Seq<u8>;

/// Whether a gzip decoder over `compressed` reads to the end of the stream
/// without an error, whatever the sizes of the buffers it reads into.
pub uninterp spec fn gz_intact(compressed: Seq<u8>) -> bool;

/// The compressed bytes a decoder draws from.
pub uninterp spec fn decoder_source(
    decoder: flate2::bufread::MultiGzDecoder<std::io::Cursor<Vec<u8>>>,
) -> Seq<u8>;

/// How many decompressed bytes a decoder has delivered, as long as none of
/// its reads has failed; `None` once one has.
pub uninterp spec fn decoder_position(
    decoder: flate2::bufread::MultiGzDecoder<std::io::Cursor<Vec<u8>>>,
) -> Option<nat>;

/// Calls `flate2::bufread::MultiGzDecoder::new` on a cursor over `source`.
/// Trusted: the decoder draws from exactly these bytes and has delivered
/// nothing yet.
#[verifier::external_body]
fn decoder_new(source: Vec<u8>) -> (decoder: flate2::bufread::MultiGzDecoder<
    std::io::Cursor<Vec<u8>>,
>)
    ensures
        decoder_source(decoder) == source@,
        decoder_position(decoder) == Some(0nat),
{
    flate2::bufread::MultiGzDecoder::new(std::io::Cursor::new(source))
}

/// Calls `flate2::bufread::MultiGzDecoder::into_inner`. Trusted: the bytes that
/// come back are the compressed bytes the decoder was drawing from.
#[verifier::external_body]
fn decoder_into_inner(
    decoder: flate2::bufread::MultiGzDecoder<std::io::Cursor<Vec<u8>>>,
) -> (source: Vec<u8>)
    ensures
        source@ == decoder_source(decoder),
{
    decoder.into_inner().into_inner()
}

/// Calls `std::io::Read::read` of `flate2::bufread::MultiGzDecoder` on the
/// part of `buf` that starts at `from`.
///
/// Trusted: the compressed source and the length of `buf` stay as they were,
/// and so does `buf` before `from`. A successful read on a decoder that never
/// failed delivers the next bytes of the decompressed stream, at most as many
/// as fit, and none only where there is no room or the stream has ended.
/// Over bytes that decode without error no read fails. After a failed read
/// nothing more is claimed of what the decoder delivers.
#[verifier::external_body]
fn decoder_read(
    decoder: &mut flate2::bufread::MultiGzDecoder<std::io::Cursor<Vec<u8>>>,
    buf: &mut Vec<u8>,
    from: usize,
) -> (r: Result<usize, std::io::Error>)
    requires
        from <= old(buf)@.len(),
    ensures
        decoder_source(*final(decoder)) == decoder_source(*old(decoder)),
        final(buf)@.len() == old(buf)@.len(),
        final(buf)@.subrange(0, from as int) == old(buf)@.subrange(0, from as int),
        gz_intact(decoder_source(*old(decoder))) && decoder_position(*old(decoder)) is Some
            ==> r is Ok,
        match r {
            Ok(n) => {
                &&& from + n <= old(buf)@.len()
                &&& match decoder_position(*old(decoder)) {
                    Some(p) => {
                        &&& p + n <= gz_decoded(decoder_source(*old(decoder))).len()
                        &&& n == 0 && from < old(buf)@.len() ==> p == gz_decoded(
                            decoder_source(*old(decoder)),
                        ).len()
                        &&& decoder_position(*final(decoder)) == Some(p + n as nat)
                        &&& final(buf)@.subrange(from as int, from + n) == gz_decoded(
                            decoder_source(*old(decoder)),
                        ).subrange(p as int, p + n)
                    },
                    None => decoder_position(*final(decoder)) is None,
                }
            },
            Err(_) => decoder_position(*final(decoder)) is None,
        },
{
    std::io::Read::read(decoder, &mut buf[from..])
}

/// The bytes of `stream` in the window of `count` bytes that starts at `offset`.
pub open spec fn bytes_at(stream: Seq<u8>, offset: int, count: int) -> Seq<u8> {
    stream.subrange(offset, offset + count)
}

/// A gzip decoder that can seek: forwards by reading ahead, backwards by
/// starting over at the first compressed byte and reading ahead from there.
///
/// Not meant to be fast, only to offer a workable seek.
pub struct RestartableGzDecoder {
    handle: Option<flate2::bufread::MultiGzDecoder<std::io::Cursor<Vec<u8>>>>,
    offset: u64,
}

/// The largest number of bytes discarded by one read while seeking ahead.
pub const DISCARD_CHUNK: usize = 8192;

impl RestartableGzDecoder {
    /// The decoder always holds a codec.
    pub closed spec fn wf(&self) -> bool {
        self.handle is Some
    }

    /// The compressed bytes underneath.
    pub closed spec fn source(&self) -> Seq<u8> {
        decoder_source(self.handle->0)
    }

    /// The decompressed stream this decoder offers.
    pub open spec fn decoded(&self) -> Seq<u8> {
        gz_decoded(self.source())
    }

    /// The current offset into the decompressed stream.
    pub closed spec fn position(&self) -> u64 {
        self.offset
    }

    /// Whether the codec stands exactly at `position()`, within the stream: it
    /// does until a read fails, and again after the next rewind.
    pub closed spec fn in_sync(&self) -> bool {
        &&& decoder_position(self.handle->0) == Some(self.offset as nat)
        &&& self.offset <= gz_decoded(decoder_source(self.handle->0)).len()
    }

    /// Wraps the compressed bytes `handle`, positioned at the start of the
    /// decompressed stream.
    pub fn new(handle: Vec<u8>) -> (r: Self)
        ensures
            r.wf(),
            r.source() == handle@,
            r.position() == 0,
            r.in_sync(),
    {
        RestartableGzDecoder { handle: Some(decoder_new(handle)), offset: 0 }
    }

    /// The current offset into the decompressed stream.
    pub fn stream_position(&self) -> (r: u64)
        ensures
            r == self.position(),
    {
        self.offset
    }

    /// Rewinds the compressed source and replaces the codec with a fresh one.
    fn reset(&mut self) -> (r: u64)
        requires
            old(self).wf(),
        ensures
            r == 0,
            final(self).wf(),
            final(self).source() == old(self).source(),
            final(self).position() == 0,
            final(self).in_sync(),
    {
        let handle = self.handle.take().unwrap();
        let inner = decoder_into_inner(handle);
        self.handle = Some(decoder_new(inner));
        self.offset = 0;
        0
    }

    /// Whether the compressed bytes decode without error.
    pub open spec fn intact(&self) -> bool {
        gz_intact(self.source())
    }

    /// Whether reads are owed: the compressed bytes decode without error
    /// and the codec stands at `position()`.
    pub open spec fn sound(&self) -> bool {
        self.intact() && self.in_sync()
    }

    /// What a read of the codec comes to for a decoder at `offset`: the
    /// number of bytes delivered and the offset behind them; the error of
    /// the codec, passed on as it is; or `PositionOverflow` where the new
    /// offset does not fit.
    pub fn after_read(offset: u64, outcome: Result<usize, std::io::Error>) -> (r: Result<
        (usize, u64),
        StreamError,
    >)
        ensures
            match outcome {
                Ok(n) => if offset + n <= u64::MAX {
                    r == Ok::<(usize, u64), StreamError>((n, (offset + n) as u64))
                } else {
                    r matches Err(StreamError::PositionOverflow)
                },
                Err(e) => r == Err::<(usize, u64), StreamError>(StreamError::Codec(e)),
            },
    {
        match outcome {
            Ok(n) => {
                if n as u64 > u64::MAX - offset {
                    Err(StreamError::PositionOverflow)
                } else {
                    Ok((n, offset + n as u64))
                }
            },
            Err(e) => Err(StreamError::Codec(e)),
        }
    }

    /// How many of `remaining` bytes are still to be read after a read has
    /// delivered `delivered`: a read that delivers nothing has met the end of
    /// the stream before its time.
    pub fn still_to_read(remaining: u64, delivered: usize) -> (r: Result<u64, StreamError>)
        ensures
            match r {
                Ok(left) => delivered > 0 && left == if delivered <= remaining {
                    remaining - delivered
                } else {
                    0
                },
                Err(e) => delivered == 0 && e is UnexpectedEof,
            },
    {
        if delivered == 0 {
            Err(StreamError::UnexpectedEof)
        } else if delivered as u64 > remaining {
            Ok(0)
        } else {
            Ok(remaining - delivered as u64)
        }
    }

    /// Reads into `buf` from index `from` on and advances the offset by the
    /// number of bytes delivered.
    fn read_from(&mut self, buf: &mut Vec<u8>, from: usize) -> (r: Result<usize, StreamError>)
        requires
            old(self).wf(),
            from <= old(buf)@.len(),
        ensures
            final(self).wf(),
            final(self).source() == old(self).source(),
            final(buf)@.len() == old(buf)@.len(),
            final(buf)@.subrange(0, from as int) == old(buf)@.subrange(0, from as int),
            old(self).sound() && old(self).decoded().len() <= u64::MAX ==> r is Ok,
            match r {
                Ok(n) => {
                    &&& from + n <= old(buf)@.len()
                    &&& final(self).position() == old(self).position() + n
                    &&& old(self).in_sync() ==> {
                        &&& final(self).in_sync()
                        &&& old(self).position() + n <= old(self).decoded().len()
                        &&& n == 0 && from < old(buf)@.len() ==> old(self).position() == old(self).decoded().len()
                        &&& final(buf)@.subrange(from as int, from + n) == bytes_at(
                            old(self).decoded(),
                            old(self).position() as int,
                            n as int,
                        )
                    }
                },
                Err(e) => {
                    &&& e is Codec || e is PositionOverflow
                    &&& e is Codec ==> !old(self).sound()
                    &&& e is PositionOverflow ==> old(self).position() + old(buf)@.len() - from
                        > u64::MAX
                    &&& e is PositionOverflow && old(self).in_sync() ==> old(self).decoded().len()
                        > u64::MAX
                    &&& final(self).position() == old(self).position()
                },
            },
    {
        let mut handle = self.handle.take().unwrap();
        let outcome = decoder_read(&mut handle, buf, from);
        self.handle = Some(handle);
        match Self::after_read(self.offset, outcome) {
            Ok((n, offset)) => {
                self.offset = offset;
                Ok(n)
            },
            Err(e) => Err(e),
        }
    }

    /// Reads decompressed bytes into the front of `buf` and returns how many
    /// were delivered; the offset advances by as much. Zero means the end of
    /// the stream, or an empty `buf`. The codec is handed all of `buf`; its
    /// errors are passed on. Over bytes that decode without error, a decoder
    /// in step with its codec always delivers.
    pub fn read(&mut self, buf: &mut Vec<u8>) -> (r: Result<usize, StreamError>)
        requires
            old(self).wf(),
        ensures
            final(self).wf(),
            final(self).source() == old(self).source(),
            final(buf)@.len() == old(buf)@.len(),
            old(self).sound() && old(self).decoded().len() <= u64::MAX ==> r is Ok,
            match r {
                Ok(n) => {
                    &&& n <= old(buf)@.len()
                    &&& final(self).position() == old(self).position() + n
                    &&& old(self).in_sync() ==> {
                        &&& final(self).in_sync()
                        &&& old(self).position() + n <= old(self).decoded().len()
                        &&& n == 0 && old(buf)@.len() > 0 ==> old(self).position() == old(self).decoded().len()
                        &&& final(buf)@.subrange(0, n as int) == bytes_at(
                            old(self).decoded(),
                            old(self).position() as int,
                            n as int,
                        )
                    }
                },
                Err(e) => {
                    &&& e is Codec || e is PositionOverflow
                    &&& e is Codec ==> !old(self).sound()
                    &&& e is PositionOverflow ==> old(self).position() + old(buf)@.len() > u64::MAX
                    &&& e is PositionOverflow && old(self).in_sync() ==> old(self).decoded().len()
                        > u64::MAX
                    &&& final(self).position() == old(self).position()
                },
            },
    {
        self.read_from(buf, 0)
    }

    /// Whether `count` bytes can be read from where the decoder stands: the
    /// bytes decode without error, the codec is in step, and the bytes lie
    /// within the stream and within what an offset can count.
    pub open spec fn can_deliver(&self, count: int) -> bool {
        &&& self.sound()
        &&& self.position() + count <= self.decoded().len()
        &&& self.position() + count <= u64::MAX
    }

    /// Fills all of `buf` with the next decompressed bytes, or fails: with
    /// `UnexpectedEof` when the stream ends first, else with the error of the
    /// read that failed. It succeeds wherever the bytes asked for lie within
    /// a stream that decodes without error.
    pub fn read_exact(&mut self, buf: &mut Vec<u8>) -> (r: Result<(), StreamError>)
        requires
            old(self).wf(),
        ensures
            final(self).wf(),
            final(self).source() == old(self).source(),
            final(buf)@.len() == old(buf)@.len(),
            old(buf)@.len() == 0 ==> r is Ok,
            old(self).can_deliver(old(buf)@.len() as int) ==> r is Ok,
            match r {
                Ok(()) => {
                    &&& final(self).position() == old(self).position() + old(buf)@.len()
                    &&& old(self).in_sync() ==> {
                        &&& final(self).in_sync()
                        &&& final(self).position() <= old(self).decoded().len()
                        &&& final(buf)@ == bytes_at(
                            old(self).decoded(),
                            old(self).position() as int,
                            old(buf)@.len() as int,
                        )
                    }
                },
                Err(e) => {
                    &&& e is UnexpectedEof || e is Codec || e is PositionOverflow
                    &&& e is Codec ==> !old(self).sound()
                    &&& e is PositionOverflow ==> old(self).position() + old(buf)@.len() > u64::MAX
                    &&& e is UnexpectedEof && old(self).in_sync() ==> old(self).position() + old(buf)@.len() > old(self).decoded().len()
                },
            },
    {
        let ghost stream = self.decoded();
        let ghost start = self.position() as int;
        let ghost synced = self.in_sync();
        let mut filled: usize = 0;
        proof {
            if synced {
                assert(buf@.subrange(0, 0) =~= bytes_at(stream, start, 0));
            }
        }
        while filled < buf.len()
            invariant
                self.wf(),
                self.source() == old(self).source(),
                stream == old(self).decoded(),
                start == old(self).position(),
                synced == old(self).in_sync(),
                buf@.len() == old(buf)@.len(),
                filled <= buf@.len(),
                self.position() == start + filled,
                synced ==> self.in_sync(),
                synced ==> start + filled <= stream.len(),
                synced ==> buf@.subrange(0, filled as int) == bytes_at(stream, start, filled as int),
            decreases buf@.len() - filled,
        {
            let ghost before = buf@;
            let remaining: u64 = (buf.len() - filled) as u64;
            match self.read_from(buf, filled) {
                Ok(n) => {
                    match Self::still_to_read(remaining, n) {
                        Ok(_) => {},
                        Err(e) => {
                            return Err(e);
                        },
                    }
                    proof {
                        if synced {
                            let joined = buf@.subrange(0, filled + n);
                            assert(buf@.subrange(0, filled as int) == before.subrange(
                                0,
                                filled as int,
                            ));
                            assert(joined =~= buf@.subrange(0, filled as int) + buf@.subrange(
                                filled as int,
                                filled + n,
                            ));
                            assert(joined =~= bytes_at(stream, start, filled + n));
                        }
                    }
                    filled = filled + n;
                },
                Err(e) => {
                    return Err(e);
                },
            }
        }
        proof {
            assert(buf@.subrange(0, filled as int) =~= buf@);
        }
        Ok(())
    }

    /// Reads `count` bytes ahead and throws them away, handing the codec a
    /// buffer of at most `DISCARD_CHUNK` bytes at a time.
    fn skip(&mut self, count: u64) -> (r: Result<(), StreamError>)
        requires
            old(self).wf(),
        ensures
            final(self).wf(),
            final(self).source() == old(self).source(),
            count == 0 ==> r is Ok,
            old(self).can_deliver(count as int) ==> r is Ok,
            match r {
                Ok(()) => {
                    &&& final(self).position() == old(self).position() + count
                    &&& old(self).in_sync() ==> {
                        &&& final(self).in_sync()
                        &&& final(self).position() <= old(self).decoded().len()
                    }
                },
                Err(e) => {
                    &&& e is UnexpectedEof || e is Codec || e is PositionOverflow
                    &&& e is Codec ==> !old(self).sound()
                    &&& e is PositionOverflow ==> old(self).position() + count > u64::MAX
                    &&& e is UnexpectedEof && old(self).in_sync() ==> old(self).position() + count
                        > old(self).decoded().len()
                },
            },
    {
        if count == 0 {
            return Ok(());
        }
        let mut scratch: Vec<u8> = vec![0u8; DISCARD_CHUNK];
        let mut remaining: u64 = count;
        while remaining > 0
            invariant
                self.wf(),
                self.source() == old(self).source(),
                scratch@.len() == DISCARD_CHUNK,
                remaining <= count,
                self.position() == old(self).position() + (count - remaining),
                old(self).in_sync() ==> self.in_sync(),
                old(self).in_sync() ==> self.position() <= old(self).decoded().len(),
            decreases remaining,
        {
            let want: usize = if remaining < DISCARD_CHUNK as u64 {
                remaining as usize
            } else {
                DISCARD_CHUNK
            };
            match self.read_from(&mut scratch, DISCARD_CHUNK - want) {
                Ok(n) => {
                    match Self::still_to_read(remaining, n) {
                        Ok(left) => {
                            remaining = left;
                        },
                        Err(e) => {
                            return Err(e);
                        },
                    }
                },
                Err(e) => {
                    return Err(e);
                },
            }
        }
        Ok(())
    }

    /// Moves to a new offset in the decompressed stream and returns it.
    ///
    /// A seek to an absolute offset rewinds the compressed source, starts a
    /// fresh codec and reads ahead to the offset. A relative seek forwards
    /// reads ahead from where the stream stands; one backwards is served as
    /// the absolute seek it amounts to, unless it would pass the start; one by
    /// zero reports the offset without touching the stream. A seek relative to
    /// the end is never served. A seek to the first byte always succeeds.
    /// Over bytes that decode without error, a seek to an offset within the
    /// stream succeeds, from whatever state; a seek forwards does so for a
    /// decoder in step with its codec. A seek past the end of the stream
    /// fails with `UnexpectedEof`.
    pub fn seek(&mut self, pos: SeekFrom) -> (r: Result<u64, StreamError>)
        requires
            old(self).wf(),
        ensures
            final(self).wf(),
            final(self).source() == old(self).source(),
            match pos {
                SeekFrom::End(_) => {
                    &&& r matches Err(StreamError::Unsupported(UnsupportedSeek::RelativeToEnd))
                    &&& *final(self) == *old(self)
                },
                SeekFrom::Start(o) => {
                    &&& old(self).intact() && o <= old(self).decoded().len() ==> r is Ok
                    &&& match r {
                        Ok(p) => final(self).landed_at(p) && p == o,
                        Err(e) => {
                            &&& o > 0
                            &&& e is UnexpectedEof || e is Codec
                            &&& e is Codec ==> !old(self).intact()
                            &&& e is UnexpectedEof ==> o > old(self).decoded().len()
                        },
                    }
                },
                SeekFrom::Current(d) => if d == 0 {
                    r matches Ok(p) && p == old(self).position() && *final(self) == *old(self)
                } else if d < 0 && -d > old(self).position() {
                    &&& r matches Err(StreamError::Unsupported(UnsupportedSeek::BeforeStart))
                    &&& *final(self) == *old(self)
                } else if d < 0 {
                    &&& old(self).intact() && old(self).position() + d <= old(self).decoded().len() ==> r is Ok
                    &&& match r {
                        Ok(p) => final(self).landed_at(p) && p == old(self).position() + d,
                        Err(e) => {
                            &&& old(self).position() + d > 0
                            &&& e is UnexpectedEof || e is Codec
                            &&& e is Codec ==> !old(self).intact()
                            &&& e is UnexpectedEof ==> old(self).position() + d > old(self).decoded().len()
                        },
                    }
                } else {
                    &&& old(self).can_deliver(d as int) ==> r is Ok
                    &&& match r {
                        Ok(p) => {
                            &&& p == old(self).position() + d
                            &&& final(self).position() == p
                            &&& old(self).in_sync() ==> final(self).landed_at(p)
                        },
                        Err(e) => {
                            &&& e is UnexpectedEof || e is Codec || e is PositionOverflow
                            &&& e is Codec ==> !old(self).sound()
                            &&& e is PositionOverflow ==> old(self).position() + d > u64::MAX
                            &&& e is UnexpectedEof && old(self).in_sync() ==> old(self).position()
                                + d > old(self).decoded().len()
                        },
                    }
                },
            },
    {
        match pos {
            SeekFrom::Start(o) => {
                self.reset();
                match self.skip(o) {
                    Ok(()) => Ok(o),
                    Err(e) => Err(e),
                }
            },
            SeekFrom::End(_) => Err(StreamError::Unsupported(UnsupportedSeek::RelativeToEnd)),
            SeekFrom::Current(d) => {
                if d == 0 {
                    Ok(self.offset)
                } else if d < 0 {
                    let back: u64 = if d == i64::MIN {
                        (i64::MAX as u64) + 1
                    } else {
                        (-d) as u64
                    };
                    if back > self.offset {
                        Err(StreamError::Unsupported(UnsupportedSeek::BeforeStart))
                    } else {
                        let target: u64 = self.offset - back;
                        self.reset();
                        match self.skip(target) {
                            Ok(()) => Ok(target),
                            Err(e) => Err(e),
                        }
                    }
                } else {
                    match self.skip(d as u64) {
                        Ok(()) => Ok(self.offset),
                        Err(e) => Err(e),
                    }
                }
            },
        }
    }

    /// The decoder stands at `offset`, in step with its codec, and `offset`
    /// lies within the decompressed stream.
    pub open spec fn landed_at(&self, offset: u64) -> bool {
        &&& self.position() == offset
        &&& self.in_sync()
        &&& offset <= self.decoded().len()
    }
}

/// Reading a window after seeking straight to its start gives the same bytes
/// as reading from the first byte and dropping what precedes the window: for
/// offsets `a < b` within the stream, the `b - a` bytes at `a` are the bytes
/// up to `b` without the first `a`.
pub proof fn lemma_seek_then_read_is_skip_then_read(stream: Seq<u8>, a: int, b: int)
    requires
        0 <= a < b <= stream.len(),
    ensures
        bytes_at(stream, a, b - a) == bytes_at(stream, 0, b).skip(a),
        bytes_at(stream, 0, a) + bytes_at(stream, a, b - a) == bytes_at(stream, 0, b),
{
    assert(bytes_at(stream, a, b - a) =~= bytes_at(stream, 0, b).skip(a));
    assert(bytes_at(stream, 0, a) + bytes_at(stream, a, b - a) =~= bytes_at(stream, 0, b));
}

} // verus!
