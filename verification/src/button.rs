//! Button events, and decoding a line into one.
//!
//! Decoding is tolerant. A line that is a frame always gives an event: an
//! index field that is empty, is not a number or does not fit in a byte
//! counts as `0`, and a state code that the state table does not list counts
//! as [`ButtonState::Released`].
//!
//! [`decode`] tells a frame from any other line, and gives such a line back
//! as it came. [`ButtonValuable::new`] gives an event for every line: button
//! `0`, released, for a line that is no frame.

use vstd::prelude::*;
use vstd::slice::slice_to_vec;
use vstd::string::StringSliceAdditionalSpecFns;

use crate::bytes::{DIGIT_0, DIGIT_1, DIGIT_2};
use crate::frame::{
    frame_fields,
    frame_line,
    is_frame_parts,
    lemma_frame_fields,
    lemma_frame_line,
    line_from,
    skip_blanks,
    split_frame,
    trim_blanks,
};
use crate::index::{
    decimal_value,
    index_of_text,
    is_number,
    lemma_number_has_no_comma,
    parse_index,
};
use crate::state::{lemma_state_codes, state_of_text, ButtonState};

verus! {

/// One button event: which button, and where it stands.
#[derive(Clone, Copy, Debug, PartialEq, Eq, Structural)]
pub struct ButtonPackage {
    pub index: u8,
    pub state: ButtonState,
}

/// A value that is made from one raw line of the protocol.
pub trait ButtonValuable: Sized {
    /// Makes the value from a raw line.
    fn new(raw: &str) -> Self;
}

/// What decoding a line gives.
#[derive(Debug, PartialEq, Eq)]
pub enum DecodeResult {
    /// The line is a frame, and this is the event in it.
    Matched(ButtonPackage),
    /// The line is no frame. It is given back as it came.
    Unmatched(Vec<u8>),
}

/// A `DecodeResult` as a value of the model, with the bytes of an unmatched
/// line as a sequence.
pub enum DecodedLine {
    Matched(ButtonPackage),
    Unmatched(Seq<u8>),
}

impl View for DecodeResult {
    type V = DecodedLine;

    open spec fn view(&self) -> DecodedLine {
        match self {
            DecodeResult::Matched(package) => DecodedLine::Matched(*package),
            DecodeResult::Unmatched(bytes) => DecodedLine::Unmatched(bytes@),
        }
    }
}

/// The event in `line`, where `line` is a frame: the index that its index
/// field stands for, and the state that the table gives for its state field
/// once the blanks before the code are left out.
pub open spec fn frame_event(line: Seq<u8>) -> Option<ButtonPackage> {
    match frame_fields(line) {
        Some((index, state)) => Some(
            ButtonPackage { index: index_of_text(index), state: state_of_text(skip_blanks(state)) },
        ),
        None => None,
    }
}

/// What a line decodes to: the event in it where it is a frame, and the line
/// itself where it is none.
pub open spec fn decoded_line(line: Seq<u8>) -> DecodedLine {
    match frame_event(line) {
        Some(package) => DecodedLine::Matched(package),
        None => DecodedLine::Unmatched(line),
    }
}

/// The event that stands for a line that is no frame: button `0`, released.
pub open spec fn fallback_package() -> ButtonPackage {
    ButtonPackage { index: 0, state: ButtonState::Released }
}

impl DecodedLine {
    /// The event that the result stands for when every line must give one:
    /// the event of a frame, and the fallback for a line that is none.
    pub open spec fn package(self) -> ButtonPackage {
        match self {
            DecodedLine::Matched(package) => package,
            DecodedLine::Unmatched(_) => fallback_package(),
        }
    }
}

/// The event that a line stands for when every line must give one: the event
/// in it where it is a frame, and the fallback where it is none.
pub open spec fn package_of_line(line: Seq<u8>) -> ButtonPackage {
    decoded_line(line).package()
}

impl DecodeResult {
    /// The event that the result stands for when every line must give one:
    /// the event of a frame, and button `0`, released, for a line that is
    /// none.
    pub fn package(&self) -> (package: ButtonPackage)
        ensures
            package == self@.package(),
    {
        match self {
            DecodeResult::Matched(package) => *package,
            DecodeResult::Unmatched(_) => ButtonPackage { index: 0, state: ButtonState::Released },
        }
    }
}

/// Decodes one line.
///
/// A frame gives `Matched` with the event in it. Any other line gives
/// `Unmatched` with a copy of the line. The result depends on the bytes of
/// the line and on nothing else.
pub fn decode(line: &[u8]) -> (result: DecodeResult)
    ensures
        result@ == decoded_line(line@),
{
    match split_frame(line) {
        Some((index, state)) => DecodeResult::Matched(
            ButtonPackage {
                index: parse_index(index),
                state: ButtonState::from_text(trim_blanks(state)),
            },
        ),
        None => DecodeResult::Unmatched(slice_to_vec(line)),
    }
}

impl ButtonValuable for ButtonPackage {
    /// Reads the event out of a raw line, taken as the bytes of its UTF-8
    /// form. Every line gives an event: a line that is no frame gives button
    /// `0`, released.
    fn new(raw: &str) -> (package: ButtonPackage)
        ensures
            package == package_of_line(raw.spec_bytes()),
    {
        decode(raw.as_bytes()).package()
    }
}

/// A frame decodes to what its fields say: the index that the index field
/// stands for, and the state that the table gives for the state code.
pub proof fn lemma_frame_event(
    index: Seq<u8>,
    blanks: Seq<u8>,
    code: Seq<u8>,
    terminator: Seq<u8>,
)
    requires
        is_frame_parts(index, blanks, code, terminator),
    ensures
        frame_event(frame_line(index, blanks, code, terminator)) == Some(
            ButtonPackage { index: index_of_text(index), state: state_of_text(code) },
        ),
{
    lemma_frame_line(index, blanks, code, terminator);
}

/// The index does not depend on how the number is padded.
///
/// Two lines that differ only in their index fields, both of them numbers
/// that stand for the same value, decode alike: both are frames or neither
/// is, and where they are, index and state are the same.
pub proof fn lemma_index_ignores_padding(first: Seq<u8>, second: Seq<u8>, rest: Seq<u8>)
    requires
        is_number(first),
        is_number(second),
        decimal_value(first) == decimal_value(second),
    ensures
        frame_event(line_from(first, rest)) == frame_event(line_from(second, rest)),
        package_of_line(line_from(first, rest)) == package_of_line(line_from(second, rest)),
{
    lemma_number_has_no_comma(first);
    lemma_number_has_no_comma(second);
    lemma_frame_fields(first, rest);
    lemma_frame_fields(second, rest);
}

/// A state code and its padded form mean the same.
///
/// Two frames that differ only in that one has the state code `1` and the
/// other `01` decode to the same event, with the state `Pressed`; and so do
/// two frames with `2` and `02`, with the state `Between`.
pub proof fn lemma_state_code_padding(index: Seq<u8>, blanks: Seq<u8>, terminator: Seq<u8>)
    requires
        is_frame_parts(index, blanks, seq![DIGIT_1], terminator),
    ensures
        frame_event(frame_line(index, blanks, seq![DIGIT_1], terminator)) == frame_event(
            frame_line(index, blanks, seq![DIGIT_0, DIGIT_1], terminator),
        ),
        frame_event(frame_line(index, blanks, seq![DIGIT_1], terminator)) == Some(
            ButtonPackage { index: index_of_text(index), state: ButtonState::Pressed },
        ),
        frame_event(frame_line(index, blanks, seq![DIGIT_2], terminator)) == frame_event(
            frame_line(index, blanks, seq![DIGIT_0, DIGIT_2], terminator),
        ),
        frame_event(frame_line(index, blanks, seq![DIGIT_2], terminator)) == Some(
            ButtonPackage { index: index_of_text(index), state: ButtonState::Between },
        ),
{
    lemma_frame_event(index, blanks, seq![DIGIT_1], terminator);
    lemma_frame_event(index, blanks, seq![DIGIT_0, DIGIT_1], terminator);
    lemma_frame_event(index, blanks, seq![DIGIT_2], terminator);
    lemma_frame_event(index, blanks, seq![DIGIT_0, DIGIT_2], terminator);
    lemma_state_codes(seq![DIGIT_1]);
    lemma_state_codes(seq![DIGIT_0, DIGIT_1]);
    lemma_state_codes(seq![DIGIT_2]);
    lemma_state_codes(seq![DIGIT_0, DIGIT_2]);
}

/// Decoding the same line again gives the same result.
///
/// What `decode` returns for a line is fixed by the bytes of the line, and so
/// is what `ButtonValuable::new` returns: any two results for the same line
/// are the same.
pub proof fn lemma_decode_repeats(
    line: Seq<u8>,
    first: DecodeResult,
    second: DecodeResult,
    first_package: ButtonPackage,
    second_package: ButtonPackage,
)
    requires
        first@ == decoded_line(line),
        second@ == decoded_line(line),
        first_package == package_of_line(line),
        second_package == package_of_line(line),
    ensures
        first@ == second@,
        first_package == second_package,
{
}

} // verus!
