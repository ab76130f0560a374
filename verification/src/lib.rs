//! Reader for the header of `.Gbx` files as written by TrackMania Nations Forever.
//!
//! The data types live in [`gbx`]; the parser in [`gbx::parser`].
pub mod gbx;
pub mod text;
pub mod xml_stream;

pub use gbx::parser::{parse_from_buffer, try_parse_from_buffer};
