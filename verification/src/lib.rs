//! A reader and a writer for chunked audio containers of the RIFF/WAVE family,
//! with the byte-level conversions and the sample codec they rest on, and the
//! layout of a glyph atlas.
//!
//! Byte sources and sinks are modelled by the traits [`reader::LgReader`] and
//! [`writer::LgWriter`]; every contract of the codec is stated over the bytes
//! that such a source still holds or that such a sink has taken. Samples are
//! handled as they lie in the stream: floating-point samples as the bits of
//! their encoding, so that no contract rests on floating-point arithmetic.

pub mod atlas_gen;
pub mod audio_codec;
pub mod bytes;
pub mod io;
pub mod reader;
pub mod text;
pub mod writer;
