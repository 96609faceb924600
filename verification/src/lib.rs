//! Decoder that turns a WOFF2 byte stream into the equivalent SFNT/TTF byte stream.
//!
//! Every function states its result over byte sequences (`Seq<u8>`) and is
//! proved against that statement.

pub mod buffer_util;
pub mod checksum;
pub mod decode;
pub mod glyf_decoder;
pub mod magic_numbers;
pub mod ttf_header;
pub mod woff2;

