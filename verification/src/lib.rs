//! Reading and writing ISO Base Media File Format (MP4) containers.
//!
//! The crate models boxes as plain data types, parses them out of byte
//! buffers, serializes them back, and builds complete files incrementally
//! through [`writer::Mp4Writer`]. Every parser and serializer carries a
//! contract relating the bytes to the box value.

pub mod avc;
pub mod bigend;
pub mod boxhead;
pub mod error;
pub mod ftyp;
pub mod hevc;
pub mod moov;
pub mod mp4a;
pub mod opus;
pub mod sidx;
pub mod stbl;
pub mod stsd;
pub mod tx3g;
pub mod track;
pub mod types;
pub mod writer;
pub mod vp09;
