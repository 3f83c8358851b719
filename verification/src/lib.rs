//! Reading and writing Telcordia SOR files, the binary format in which optical
//! time-domain reflectometers store their traces.
//!
//! [`parser::parse_file`] turns the bytes of a file into a [`types::SORFile`],
//! [`types::SORFile::to_bytes`] turns a file into bytes again, and
//! [`parser::validate_checksum`] says whether the checksum that a file
//! carries matches its bytes.
pub mod crc16;
pub mod file_roundtrip;
pub mod parser;
pub mod roundtrip;
pub mod types;
pub mod wire;
pub mod writer;

pub use writer::{fixed_length_str, le_integer, null_terminated_str, WireInteger, WriteError};
