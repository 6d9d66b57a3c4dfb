//! The state of a button, and the table of the codes that stand for it in a
//! frame.
//!
//! The table is the one place that says which texts are state codes. It
//! lists each code beside its padded form, so that `1` and `01` are seen to
//! mean the same. A text that the table does not list means
//! [`ButtonState::Released`].

use vstd::prelude::*;

use crate::bytes::{same_bytes, DIGIT_0, DIGIT_1, DIGIT_2};
use crate::index::{decimal_value, is_number};

verus! {

/// Position of a button.
#[derive(Clone, Copy, Debug, PartialEq, Eq, Structural)]
pub enum ButtonState {
    Released,
    Pressed,
    Between,
}

/// One row of the state table: a state code as it is written in a frame, and
/// the state that it stands for.
#[derive(Clone, Copy, Debug)]
pub struct StateCode {
    pub text: &'static [u8],
    pub state: ButtonState,
}

impl View for StateCode {
    type V = (Seq<u8>, ButtonState);

    open spec fn view(&self) -> (Seq<u8>, ButtonState) {
        (self.text@, self.state)
    }
}

/// The state table.
pub open spec fn state_table() -> Seq<(Seq<u8>, ButtonState)> {
    seq![
        (seq![DIGIT_1], ButtonState::Pressed),
        (seq![DIGIT_0, DIGIT_1], ButtonState::Pressed),
        (seq![DIGIT_2], ButtonState::Between),
        (seq![DIGIT_0, DIGIT_2], ButtonState::Between),
    ]
}

/// The state that `table` gives for `text`: that of the first row with this
/// text, and `Released` where no row has it.
pub open spec fn lookup_state(table: Seq<(Seq<u8>, ButtonState)>, text: Seq<u8>) -> ButtonState
    decreases table.len(),
{
    if table.len() == 0 {
        ButtonState::Released
    } else if table[0].0 == text {
        table[0].1
    } else {
        lookup_state(table.drop_first(), text)
    }
}

/// The state that a state code stands for.
pub open spec fn state_of_text(text: Seq<u8>) -> ButtonState {
    lookup_state(state_table(), text)
}

const CODE_1: [u8; 1] = [DIGIT_1];

const CODE_01: [u8; 2] = [DIGIT_0, DIGIT_1];

const CODE_2: [u8; 1] = [DIGIT_2];

const CODE_02: [u8; 2] = [DIGIT_0, DIGIT_2];

/// The rows of the state table.
pub fn state_codes() -> (codes: [StateCode; 4])
    ensures
        codes@.map_values(|row: StateCode| row@) == state_table(),
{
    let codes = [
        StateCode { text: &CODE_1, state: ButtonState::Pressed },
        StateCode { text: &CODE_01, state: ButtonState::Pressed },
        StateCode { text: &CODE_2, state: ButtonState::Between },
        StateCode { text: &CODE_02, state: ButtonState::Between },
    ];
    proof {
        let rows = codes@.map_values(|row: StateCode| row@);
        assert(rows[0].0 =~= state_table()[0].0);
        assert(rows[1].0 =~= state_table()[1].0);
        assert(rows[2].0 =~= state_table()[2].0);
        assert(rows[3].0 =~= state_table()[3].0);
        assert(rows =~= state_table());
    }
    codes
}

impl ButtonState {
    /// The number under which the sensor reports this state.
    pub open spec fn spec_code(self) -> u8 {
        match self {
            ButtonState::Released => 0,
            ButtonState::Pressed => 1,
            ButtonState::Between => 2,
        }
    }

    /// The number under which the sensor reports this state.
    #[verifier::when_used_as_spec(spec_code)]
    pub fn code(self) -> (code: u8)
        ensures
            code == self.spec_code(),
    {
        match self {
            ButtonState::Released => 0,
            ButtonState::Pressed => 1,
            ButtonState::Between => 2,
        }
    }

    /// Looks a state code up in the state table.
    pub fn from_text(text: &[u8]) -> (state: ButtonState)
        ensures
            state == state_of_text(text@),
    {
        let codes = state_codes();
        let ghost rows = codes@.map_values(|row: StateCode| row@);
        assert(rows.subrange(0, 4) =~= rows);
        let mut i: usize = 0;
        while i < 4
            invariant
                i <= 4,
                rows == codes@.map_values(|row: StateCode| row@),
                rows == state_table(),
                lookup_state(rows.subrange(i as int, 4), text@) == state_of_text(text@),
            decreases 4 - i,
        {
            let row = codes[i];
            proof {
                let left = rows.subrange(i as int, 4);
                assert(left[0] == row@);
                assert(left.drop_first() =~= rows.subrange(i + 1, 4));
            }
            if same_bytes(row.text, text) {
                return row.state;
            }
            i += 1;
        }
        ButtonState::Released
    }
}

/// What the state table comes to: `1` and `01` mean `Pressed`, `2` and `02`
/// mean `Between`, and every other text means `Released`. A text that the
/// table lists is a number, and its state is the one that the sensor reports
/// under that number.
pub proof fn lemma_state_codes(text: Seq<u8>)
    ensures
        state_of_text(text) == ButtonState::Pressed <==> text == seq![DIGIT_1] || text == seq![
            DIGIT_0,
            DIGIT_1,
        ],
        state_of_text(text) == ButtonState::Between <==> text == seq![DIGIT_2] || text == seq![
            DIGIT_0,
            DIGIT_2,
        ],
        state_of_text(text) != ButtonState::Released ==> is_number(text) && decimal_value(text)
            == state_of_text(text).code(),
{
    reveal_with_fuel(lookup_state, 5);
    reveal_with_fuel(decimal_value, 3);
    // No two rows of the table have the same text.
    assert(seq![DIGIT_1][0] != seq![DIGIT_2][0]);
    assert(seq![DIGIT_0, DIGIT_1][1] != seq![DIGIT_0, DIGIT_2][1]);
    assert(seq![DIGIT_1].len() != seq![DIGIT_0, DIGIT_2].len());
    assert(seq![DIGIT_2].len() != seq![DIGIT_0, DIGIT_1].len());
    // A text of one or two digits is used up after one or two steps.
    if text.len() == 1 {
        assert(text.drop_last() =~= Seq::<u8>::empty());
    } else if text.len() == 2 {
        assert(text.drop_last().drop_last() =~= Seq::<u8>::empty());
    }
}

} // verus!
