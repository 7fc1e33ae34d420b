//! Streaming access to mzML mass-spectrometry documents: an event-driven
//! reader that materialises file metadata and spectra, an offset index for
//! random access, and a seekable view over gzip-compressed sources.

pub mod compression;
pub mod path;
pub mod text;
pub mod tokenizer;
pub mod utils;
pub mod views;
pub mod offset_index;
pub mod pump;
pub mod seek;
pub mod xml;
pub mod mzml;
