//! Reading mzML: parser states and errors, the handlers for metadata, spectra
//! and the trailing offset index, and the reader that drives them.

pub mod builder;
pub mod idmap;
pub mod index;
pub mod iteration;
pub mod meta;
pub mod params;
pub mod passes;
pub mod reader;
pub mod spectrum;
pub mod state;
pub mod time_search;
