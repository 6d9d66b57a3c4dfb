//! The bytes that the protocol is written in, and searching and comparing
//! runs of them.

use vstd::prelude::*;

verus! {

/// `{`, which opens a frame.
pub const OPEN_BRACE: u8 = 0x7b;

/// `}`, which closes a frame.
pub const CLOSE_BRACE: u8 = 0x7d;

/// `,`, which stands between the two fields of a frame.
pub const COMMA: u8 = 0x2c;

/// The line feed, which ends a line.
pub const LINE_FEED: u8 = 0x0a;

/// The carriage return, which may stand before the line feed that ends a line.
pub const CARRIAGE_RETURN: u8 = 0x0d;

/// A space.
pub const SPACE: u8 = 0x20;

/// A horizontal tab.
pub const TAB: u8 = 0x09;

/// The digit `0`.
pub const DIGIT_0: u8 = 0x30;

/// The digit `1`.
pub const DIGIT_1: u8 = 0x31;

/// The digit `2`.
pub const DIGIT_2: u8 = 0x32;

/// The digit `9`.
pub const DIGIT_9: u8 = 0x39;

/// Whether `byte` is a decimal digit.
pub open spec fn is_digit(byte: u8) -> bool {
    DIGIT_0 <= byte <= DIGIT_9
}

/// Whether `byte` is a blank: a space or a tab.
pub open spec fn is_blank(byte: u8) -> bool {
    byte == SPACE || byte == TAB
}

/// `at` is where `byte` first stands in `bytes`.
pub open spec fn is_first_at(bytes: Seq<u8>, byte: u8, at: int) -> bool {
    &&& 0 <= at < bytes.len()
    &&& bytes[at] == byte
    &&& forall|j: int| 0 <= j < at ==> bytes[j] != byte
}

/// `index_of_first` gives the one position that `is_first_at` describes, and
/// nothing where the byte does not occur.
pub proof fn lemma_first_occurrence(bytes: Seq<u8>, byte: u8)
    ensures
        match bytes.index_of_first(byte) {
            Some(at) => is_first_at(bytes, byte, at),
            None => forall|j: int| 0 <= j < bytes.len() ==> bytes[j] != byte,
        },
        forall|at: int| is_first_at(bytes, byte, at) ==> bytes.index_of_first(byte) == Some(at),
{
    bytes.index_of_first_ensures(byte);
    assert forall|at: int| is_first_at(bytes, byte, at) implies bytes.index_of_first(byte) == Some(
        at,
    ) by {
        assert(bytes.contains(byte));
        let found = bytes.index_of_first(byte).unwrap();
        if found < at {
            assert(bytes[found] != byte);
        } else if at < found {
            assert(bytes[at] != byte);
        }
    }
}

/// The first occurrence in two runs of bytes, one after the other, is the
/// first occurrence in the first run, and where that has none, the first
/// occurrence in the second.
pub proof fn lemma_first_in_concat(first: Seq<u8>, second: Seq<u8>, byte: u8)
    ensures
        (first + second).index_of_first(byte) == match first.index_of_first(byte) {
            Some(at) => Some(at),
            None => match second.index_of_first(byte) {
                Some(at) => Some(first.len() + at),
                None => None,
            },
        },
{
    let both = first + second;
    lemma_first_occurrence(first, byte);
    lemma_first_occurrence(second, byte);
    lemma_first_occurrence(both, byte);
    match first.index_of_first(byte) {
        Some(at) => {
            assert(is_first_at(both, byte, at)) by {
                assert(both[at] == first[at]);
                assert forall|j: int| 0 <= j < at implies both[j] != byte by {
                    assert(both[j] == first[j]);
                }
            }
        },
        None => match second.index_of_first(byte) {
            Some(at) => {
                let whole = first.len() + at;
                assert(is_first_at(both, byte, whole)) by {
                    assert(both[whole] == second[at]);
                    assert forall|j: int| 0 <= j < whole implies both[j] != byte by {
                        if j < first.len() {
                            assert(both[j] == first[j]);
                        } else {
                            assert(both[j] == second[j - first.len()]);
                        }
                    }
                }
            },
            None => {
                if both.index_of_first(byte) is Some {
                    let at = both.index_of_first(byte).unwrap();
                    if at < first.len() {
                        assert(both[at] == first[at]);
                    } else {
                        assert(both[at] == second[at - first.len()]);
                    }
                }
            },
        },
    }
}

/// Position of the first `byte` in `bytes`.
pub fn find_first(bytes: &[u8], byte: u8) -> (found: Option<usize>)
    ensures
        match found {
            Some(at) => {
                &&& at < bytes.len()
                &&& is_first_at(bytes@, byte, at as int)
                &&& bytes@.index_of_first(byte) == Some(at as int)
            },
            None => !bytes@.contains(byte) && bytes@.index_of_first(byte) is None,
        },
{
    proof {
        lemma_first_occurrence(bytes@, byte);
    }
    let mut at: usize = 0;
    while at < bytes.len()
        invariant
            at <= bytes@.len(),
            forall|j: int| 0 <= j < at ==> bytes@[j] != byte,
            forall|k: int| is_first_at(bytes@, byte, k) ==> bytes@.index_of_first(byte) == Some(k),
        decreases bytes@.len() - at,
    {
        if bytes[at] == byte {
            assert(is_first_at(bytes@, byte, at as int));
            return Some(at);
        }
        at += 1;
    }
    None
}

/// Whether two runs of bytes are the same.
pub fn same_bytes(left: &[u8], right: &[u8]) -> (same: bool)
    ensures
        same == (left@ == right@),
{
    if left.len() != right.len() {
        return false;
    }
    let mut i: usize = 0;
    while i < left.len()
        invariant
            left@.len() == right@.len(),
            i <= left@.len(),
            forall|j: int| 0 <= j < i ==> left@[j] == right@[j],
        decreases left@.len() - i,
    {
        if left[i] != right[i] {
            return false;
        }
        i += 1;
    }
    assert(left@ =~= right@);
    true
}

} // verus!
