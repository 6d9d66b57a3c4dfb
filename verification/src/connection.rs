//! The read loop of one connection.
//!
//! A client connects to the sensor, asks for one line after the other and
//! passes on what each of them says, until the peer closes the stream. A
//! read that fails does not end the loop: the failure is passed on, and the
//! loop asks again.
//!
//! The loop itself, which has to wait for the stream, belongs to the caller.
//! This module holds what it decides: where to connect, whether to ask for
//! another line, and what to tell the consumer about each answer.

use vstd::prelude::*;
use vstd::string::StringExecFns;

use crate::button::{decode, decoded_line, ButtonPackage, DecodeResult, DecodedLine};
use crate::reader::LineResult;

verus! {

/// The address of the sensor: the loopback interface, at the port given.
pub fn loopback_address(port: &str) -> (address: String)
    ensures
        address@ == "127.0.0.1:"@ + port@,
{
    String::from_str("127.0.0.1:").concat(port)
}

/// Where the read loop stands.
#[derive(Clone, Copy, Debug, PartialEq, Eq, Structural)]
pub enum LoopState {
    /// The last answer was a line, or none has come yet.
    Reading,
    /// The peer closed the stream. The loop is over.
    Closed,
    /// The last read failed. The loop goes on.
    Failed,
}

/// What the consumer is told about one answer of the stream.
#[derive(Debug, PartialEq, Eq)]
pub enum Notice<E> {
    /// A frame came, with this event.
    Button(ButtonPackage),
    /// A line came that is no frame.
    Unmatched(Vec<u8>),
    /// The stream is closed.
    Closed,
    /// A read failed, for this cause.
    ReadError(E),
}

/// Where the loop stands after an answer of the given kind.
///
/// A closed loop stays closed. Otherwise a line leaves the loop reading, the
/// end of the stream closes it, and a failed read marks it as failed, from
/// where it goes on as from reading.
pub open spec fn state_after<E>(state: LoopState, result: LineResult<E>) -> LoopState {
    match state {
        LoopState::Closed => LoopState::Closed,
        _ => match result {
            LineResult::Line(_) => LoopState::Reading,
            LineResult::EndOfStream => LoopState::Closed,
            LineResult::IoError(_) => LoopState::Failed,
        },
    }
}

impl LoopState {
    /// Whether the loop asks for another line: always, unless it is closed.
    pub open spec fn reads_on(self) -> bool {
        self != LoopState::Closed
    }

    /// The state in which a loop begins.
    pub fn start() -> (state: LoopState)
        ensures
            state == LoopState::Reading,
    {
        LoopState::Reading
    }

    /// Whether the loop asks for another line.
    #[verifier::when_used_as_spec(reads_on)]
    pub fn wants_line(self) -> (wanted: bool)
        ensures
            wanted == self.reads_on(),
    {
        match self {
            LoopState::Closed => false,
            _ => true,
        }
    }

    /// Takes the answer to a request for a line, and gives the state that the
    /// loop is in after it and what the consumer is told.
    ///
    /// A line is decoded: a frame is passed on as its event, any other line
    /// as it came. The end of the stream and a failed read are passed on as
    /// such. A closed loop passes nothing on but that it is closed.
    pub fn on_line<E>(self, result: LineResult<E>) -> (next: (LoopState, Notice<E>))
        ensures
            next.0 == state_after(self, result),
            match self {
                LoopState::Closed => next.1 matches Notice::Closed,
                _ => match result {
                    LineResult::Line(line) => match decoded_line(line@) {
                        DecodedLine::Matched(package) => next.1 == Notice::<E>::Button(package),
                        DecodedLine::Unmatched(bytes) => next.1 matches Notice::Unmatched(raw)
                            && raw@ == bytes,
                    },
                    LineResult::EndOfStream => next.1 matches Notice::Closed,
                    LineResult::IoError(cause) => next.1 == Notice::<E>::ReadError(cause),
                },
            },
    {
        match self {
            LoopState::Closed => (LoopState::Closed, Notice::Closed),
            _ => match result {
                LineResult::Line(line) => match decode(line.as_slice()) {
                    DecodeResult::Matched(package) => (LoopState::Reading, Notice::Button(package)),
                    DecodeResult::Unmatched(raw) => (LoopState::Reading, Notice::Unmatched(raw)),
                },
                LineResult::EndOfStream => (LoopState::Closed, Notice::Closed),
                LineResult::IoError(cause) => (LoopState::Failed, Notice::ReadError(cause)),
            },
        }
    }
}

/// The end of the stream ends the loop, and nothing else does.
///
/// From any state that still reads, the end of the stream leads to `Closed`,
/// where the loop asks for no further line and from where no answer leads
/// away. A line or a failed read leads to a state that reads on.
pub proof fn lemma_loop_ends_with_stream<E>(state: LoopState, result: LineResult<E>)
    ensures
        !LoopState::Closed.reads_on(),
        state_after(LoopState::Closed, result) == LoopState::Closed,
        state.reads_on() ==> (state_after(state, result) == LoopState::Closed
            <==> result is EndOfStream),
        state.reads_on() && !(result is EndOfStream) ==> state_after(state, result).reads_on(),
{
}

} // verus!
