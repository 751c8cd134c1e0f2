//! Errors of the ASCII line protocol.
use vstd::prelude::*;

verus! {

/// What can go wrong while reading or decoding an ASCII telemetry line.
#[derive(Debug)]
pub enum AsciiError {
    /// The serial port reported an error other than a read timeout.
    ReadError(String),
    /// The line has fewer than sixteen comma-separated fields.
    NotEnoughFields(usize),
    /// A real-valued field's number is not a valid literal.
    ParseFloat { field: &'static str, value: String },
    /// A byte-valued field's number is neither a byte nor a real literal.
    ParseU8 { field: &'static str, value: String },
    /// A field carries another unit than the one its column requires.
    InvalidUnit { field: &'static str, expected: &'static str, actual: String },
}

} // verus!
