//! Turning the stream of received lines into a stream of records.
use vstd::prelude::*;
use crate::ascii_error::AsciiError;
use crate::ascii_parser::{parse_line, parse_line_result};
use crate::record::CementingRecord;

verus! {

/// What the decoding thread does with one message of the reader.
pub enum StreamStep {
    /// Send this record on.
    Forward(CementingRecord),
    /// The line did not decode; drop it and go on.
    Skip,
    /// The reader failed; stop.
    Stop,
}

/// A line is decoded and its record forwarded; a line that does not
/// decode is dropped; a read error ends the stream.
pub fn stream_step(message: Result<String, AsciiError>) -> (r: StreamStep)
    ensures
        message is Err ==> r is Stop,
        message matches Ok(line) ==> match r {
            StreamStep::Forward(rec) => parse_line_result(
                line@,
                Ok::<CementingRecord, AsciiError>(rec),
            ),
            StreamStep::Skip => exists|e: AsciiError|
                parse_line_result(line@, Err::<CementingRecord, AsciiError>(e)),
            StreamStep::Stop => false,
        },
{
    match message {
        Ok(line) => match parse_line(line.as_str()) {
            Ok(rec) => StreamStep::Forward(rec),
            Err(e) => StreamStep::Skip,
        },
        Err(_) => StreamStep::Stop,
    }
}

} // verus!
