//! The shape of a frame.
//!
//! A frame is an opening brace, the index of the button, a comma, the code of
//! its state and a closing brace, followed by a line terminator:
//!
//! ```text
//! {8,1}\r\n
//! {09,02}\r\n
//! ```
//!
//! Whether a line is a frame depends on its shape alone. Without its
//! terminator it must begin with an opening brace, end with a closing brace
//! and hold a comma between them. What stands in the two fields is not looked
//! at here, and never makes a frame fail. The terminator is a line feed, with
//! or without a carriage return before it; a line may also come without one.
//! Blanks may stand between the comma and the state code.

use vstd::prelude::*;

use crate::bytes::{
    find_first,
    is_blank,
    is_first_at,
    lemma_first_in_concat,
    lemma_first_occurrence,
    CARRIAGE_RETURN,
    CLOSE_BRACE,
    COMMA,
    LINE_FEED,
    OPEN_BRACE,
    SPACE,
    TAB,
};

verus! {

/// `line` without its terminator: a line feed at its end, together with the
/// carriage return before it where there is one. A line that does not end in
/// a line feed is its own body.
pub open spec fn line_body(line: Seq<u8>) -> Seq<u8> {
    let len = line.len() as int;
    if len >= 2 && line[len - 2] == CARRIAGE_RETURN && line[len - 1] == LINE_FEED {
        line.subrange(0, len - 2)
    } else if len >= 1 && line[len - 1] == LINE_FEED {
        line.subrange(0, len - 1)
    } else {
        line
    }
}

/// The two fields of `line`, index first, where `line` is a frame.
///
/// The index field runs from the opening brace to the first comma, the state
/// field from there to the closing brace.
pub open spec fn frame_fields(line: Seq<u8>) -> Option<(Seq<u8>, Seq<u8>)> {
    let body = line_body(line);
    let len = body.len() as int;
    if len >= 2 && body[0] == OPEN_BRACE && body[len - 1] == CLOSE_BRACE {
        let inner = body.subrange(1, len - 1);
        match inner.index_of_first(COMMA) {
            Some(at) => Some((inner.subrange(0, at), inner.subrange(at + 1, inner.len() as int))),
            None => None,
        }
    } else {
        None
    }
}

/// `text` without the blanks that it begins with.
pub open spec fn skip_blanks(text: Seq<u8>) -> Seq<u8>
    decreases text.len(),
{
    if text.len() > 0 && is_blank(text[0]) {
        skip_blanks(text.drop_first())
    } else {
        text
    }
}

/// Leaves out the terminator of `line`.
pub fn strip_terminator(line: &[u8]) -> (body: &[u8])
    ensures
        body@ == line_body(line@),
{
    let len = line.len();
    if len >= 2 && line[len - 2] == CARRIAGE_RETURN && line[len - 1] == LINE_FEED {
        &line[0..len - 2]
    } else if len >= 1 && line[len - 1] == LINE_FEED {
        &line[0..len - 1]
    } else {
        line
    }
}

/// Cuts a frame into its index field and its state field. Gives `None` for a
/// line that is no frame.
pub fn split_frame(line: &[u8]) -> (fields: Option<(&[u8], &[u8])>)
    ensures
        match fields {
            Some((index, state)) => frame_fields(line@) == Some((index@, state@)),
            None => frame_fields(line@) is None,
        },
{
    let body = strip_terminator(line);
    let len = body.len();
    if len >= 2 && body[0] == OPEN_BRACE && body[len - 1] == CLOSE_BRACE {
        let inner = &body[1..len - 1];
        match find_first(inner, COMMA) {
            Some(at) => Some((&inner[0..at], &inner[at + 1..inner.len()])),
            None => None,
        }
    } else {
        None
    }
}

/// Leaves out the blanks that `text` begins with.
pub fn trim_blanks(text: &[u8]) -> (rest: &[u8])
    ensures
        rest@ == skip_blanks(text@),
{
    let len = text.len();
    let mut start: usize = 0;
    assert(text@.subrange(0, len as int) =~= text@);
    while start < len && (text[start] == SPACE || text[start] == TAB)
        invariant
            len == text@.len(),
            start <= len,
            skip_blanks(text@.subrange(start as int, len as int)) == skip_blanks(text@),
        decreases len - start,
    {
        proof {
            let left = text@.subrange(start as int, len as int);
            assert(left[0] == text@[start as int]);
            assert(left.drop_first() =~= text@.subrange(start + 1, len as int));
        }
        start += 1;
    }
    assert(start < len ==> text@.subrange(start as int, len as int)[0] == text@[start as int]);
    &text[start..len]
}

/// Whether `text` is one of the three ways in which a line may end: with
/// nothing, with a line feed, or with a carriage return and a line feed.
pub open spec fn is_terminator(text: Seq<u8>) -> bool {
    ||| text == Seq::<u8>::empty()
    ||| text == seq![LINE_FEED]
    ||| text == seq![CARRIAGE_RETURN, LINE_FEED]
}

/// Whether `text` holds blanks and nothing else.
pub open spec fn is_blanks(text: Seq<u8>) -> bool {
    forall|i: int| 0 <= i < text.len() ==> is_blank(#[trigger] text[i])
}

/// The line that begins with an opening brace, `index` and a comma, and goes
/// on with `rest`.
pub open spec fn line_from(index: Seq<u8>, rest: Seq<u8>) -> Seq<u8> {
    seq![OPEN_BRACE] + index + seq![COMMA] + rest
}

/// A frame, written out: brace, index, comma, blanks, state code, brace,
/// terminator.
pub open spec fn frame_line(
    index: Seq<u8>,
    blanks: Seq<u8>,
    code: Seq<u8>,
    terminator: Seq<u8>,
) -> Seq<u8> {
    line_from(index, blanks + code + seq![CLOSE_BRACE] + terminator)
}

/// Whether the four parts are such that `frame_line` makes a frame of them
/// that is read back as these parts: the index holds no comma, the blanks
/// are blanks, the state code does not begin with one, and the terminator is
/// one.
pub open spec fn is_frame_parts(
    index: Seq<u8>,
    blanks: Seq<u8>,
    code: Seq<u8>,
    terminator: Seq<u8>,
) -> bool {
    &&& !index.contains(COMMA)
    &&& is_blanks(blanks)
    &&& code.len() > 0 ==> !is_blank(code[0])
    &&& is_terminator(terminator)
}

/// The fields of a line that begins as a frame does.
///
/// Where `index` holds no comma, the line made of it and `rest` is a frame
/// exactly where `rest`, without the terminator, ends with a closing brace.
/// Its index field is then `index`, and its state field is what stands before
/// that brace.
pub proof fn lemma_frame_fields(index: Seq<u8>, rest: Seq<u8>)
    requires
        !index.contains(COMMA),
    ensures
        frame_fields(line_from(index, rest)) == {
            let tail = line_body(rest);
            if tail.len() > 0 && tail.last() == CLOSE_BRACE {
                Some((index, tail.drop_last()))
            } else {
                None
            }
        },
{
    let head = seq![OPEN_BRACE] + index + seq![COMMA];
    let line = line_from(index, rest);
    let tail = line_body(rest);
    let body = line_body(line);
    // The terminator of the line is that of `rest`: the comma before `rest`
    // is neither a line feed nor a carriage return.
    assert(body =~= head + tail);
    if tail.len() > 0 && tail.last() == CLOSE_BRACE {
        let after = seq![COMMA] + tail.drop_last();
        let inner = body.subrange(1, body.len() - 1);
        assert(inner =~= index + after);
        lemma_first_occurrence(index, COMMA);
        lemma_first_occurrence(after, COMMA);
        assert(is_first_at(after, COMMA, 0));
        lemma_first_in_concat(index, after, COMMA);
    }
}

/// Blanks before a state code are passed over, and nothing else is.
pub proof fn lemma_skip_blanks(blanks: Seq<u8>, code: Seq<u8>)
    requires
        is_blanks(blanks),
        code.len() > 0 ==> !is_blank(code[0]),
    ensures
        skip_blanks(blanks + code) == code,
    decreases blanks.len(),
{
    if blanks.len() > 0 {
        assert((blanks + code).drop_first() =~= blanks.drop_first() + code);
        lemma_skip_blanks(blanks.drop_first(), code);
    }
}

/// What `skip_blanks` leaves out of `text` is a run of blanks at its
/// beginning, and what it keeps does not begin with a blank.
pub proof fn lemma_skipped_blanks(text: Seq<u8>) -> (blanks: Seq<u8>)
    ensures
        is_blanks(blanks),
        text == blanks + skip_blanks(text),
        skip_blanks(text).len() > 0 ==> !is_blank(skip_blanks(text)[0]),
    decreases text.len(),
{
    if text.len() > 0 && is_blank(text[0]) {
        let inner = lemma_skipped_blanks(text.drop_first());
        assert(text =~= seq![text[0]] + text.drop_first());
        seq![text[0]] + inner
    } else {
        Seq::<u8>::empty()
    }
}

/// A line that is written as a frame is one, with the fields as written.
pub proof fn lemma_frame_line(
    index: Seq<u8>,
    blanks: Seq<u8>,
    code: Seq<u8>,
    terminator: Seq<u8>,
)
    requires
        is_frame_parts(index, blanks, code, terminator),
    ensures
        frame_fields(frame_line(index, blanks, code, terminator)) == Some((index, blanks + code)),
        skip_blanks(blanks + code) == code,
{
    let closed = blanks + code + seq![CLOSE_BRACE];
    let rest = closed + terminator;
    assert(line_body(rest) =~= closed);
    lemma_frame_fields(index, rest);
    lemma_skip_blanks(blanks, code);
}

/// Every frame is written as `frame_line` writes it: the parts that the
/// lemma gives make up the line, and are the parts that are read out of it.
pub proof fn lemma_frame_parts(line: Seq<u8>) -> (parts: (Seq<u8>, Seq<u8>, Seq<u8>, Seq<u8>))
    requires
        frame_fields(line) is Some,
    ensures
        is_frame_parts(parts.0, parts.1, parts.2, parts.3),
        line == frame_line(parts.0, parts.1, parts.2, parts.3),
        frame_fields(line) == Some((parts.0, parts.1 + parts.2)),
        parts.2 == skip_blanks(parts.1 + parts.2),
{
    let body = line_body(line);
    let len = body.len() as int;
    let terminator = line.subrange(len, line.len() as int);
    let inner = body.subrange(1, len - 1);
    lemma_first_occurrence(inner, COMMA);
    let at = inner.index_of_first(COMMA).unwrap();
    let index = inner.subrange(0, at);
    let state = inner.subrange(at + 1, inner.len() as int);
    let code = skip_blanks(state);
    let blanks = lemma_skipped_blanks(state);
    assert(!index.contains(COMMA)) by {
        if index.contains(COMMA) {
            let j = choose|j: int| 0 <= j < index.len() && index[j] == COMMA;
            assert(inner[j] == COMMA);
        }
    }
    assert(is_terminator(terminator)) by {
        if terminator.len() == 1 {
            assert(terminator =~= seq![LINE_FEED]);
        } else if terminator.len() == 2 {
            assert(terminator =~= seq![CARRIAGE_RETURN, LINE_FEED]);
        } else {
            assert(terminator =~= Seq::<u8>::empty());
        }
    }
    assert(line =~= frame_line(index, blanks, code, terminator));
    (index, blanks, code, terminator)
}

} // verus!
