//! Line framing.
//!
//! A stream hands over its bytes in chunks of any size, and a chunk may end
//! anywhere: in the middle of a line, or between a carriage return and the line
//! feed after it. [`LineReader`] keeps what has arrived and gives it back one
//! line at a time. A line runs up to and including its line feed: the reader
//! hands it out with its terminator, and hands out nothing that does not end
//! with a line feed.
//!
//! The reader does no I/O itself. Whoever owns the stream reads from it and
//! passes on what the read gave, see [`LineReader::on_read`]. Asking for the
//! next line of a stream is then a loop: take a line that is held already,
//! see [`LineReader::take_line`], or else read, pass the outcome on, and go
//! round again where that gives `None`.

use vstd::prelude::*;

use crate::bytes::{find_first, lemma_first_in_concat, lemma_first_occurrence, LINE_FEED};

verus! {

/// What asking for the next line of a stream can give.
#[derive(Debug, PartialEq, Eq)]
pub enum LineResult<E> {
    /// One line, with the line feed that ends it.
    Line(Vec<u8>),
    /// The peer closed the stream: a read gave no bytes.
    EndOfStream,
    /// A read failed, for this cause. The reader has kept all it held, and
    /// reading may go on.
    IoError(E),
}

/// The first line of `bytes`, line feed included, if `bytes` holds a whole line.
pub open spec fn first_line(bytes: Seq<u8>) -> Option<Seq<u8>> {
    match bytes.index_of_first(LINE_FEED) {
        Some(at) => Some(bytes.subrange(0, at + 1)),
        None => None,
    }
}

/// What follows the first line of `bytes`; all of `bytes` if it holds no whole line.
pub open spec fn after_first_line(bytes: Seq<u8>) -> Seq<u8> {
    match bytes.index_of_first(LINE_FEED) {
        Some(at) => bytes.subrange(at + 1, bytes.len() as int),
        None => bytes,
    }
}

/// All whole lines of `bytes`, in order.
pub open spec fn lines_of(bytes: Seq<u8>) -> Seq<Seq<u8>>
    decreases bytes.len(),
    via lines_of_decreases
{
    match first_line(bytes) {
        Some(line) => seq![line] + lines_of(after_first_line(bytes)),
        None => Seq::empty(),
    }
}

#[via_fn]
proof fn lines_of_decreases(bytes: Seq<u8>) {
    bytes.index_of_first_ensures(LINE_FEED);
}

/// What follows the last whole line of `bytes`: the beginning of a line that
/// is not complete yet.
pub open spec fn partial_line(bytes: Seq<u8>) -> Seq<u8>
    decreases bytes.len(),
    via partial_line_decreases
{
    match first_line(bytes) {
        Some(_) => partial_line(after_first_line(bytes)),
        None => bytes,
    }
}

#[via_fn]
proof fn partial_line_decreases(bytes: Seq<u8>) {
    bytes.index_of_first_ensures(LINE_FEED);
}

/// Buffer between a byte stream and its lines.
///
/// Its view is the sequence of bytes that have arrived and have not been
/// handed out yet.
pub struct LineReader {
    pending: Vec<u8>,
}

impl View for LineReader {
    type V = Seq<u8>;

    closed spec fn view(&self) -> Seq<u8> {
        self.pending@
    }
}

impl LineReader {
    /// A reader that holds nothing.
    pub fn new() -> (reader: Self)
        ensures
            reader@ == Seq::<u8>::empty(),
    {
        LineReader { pending: Vec::new() }
    }

    /// Takes in a chunk of bytes, behind those already held.
    pub fn feed(&mut self, chunk: &[u8])
        ensures
            final(self)@ == old(self)@ + chunk@,
    {
        let mut i: usize = 0;
        while i < chunk.len()
            invariant
                i <= chunk@.len(),
                self.pending@ == old(self).pending@ + chunk@.subrange(0, i as int),
            decreases chunk@.len() - i,
        {
            self.pending.push(chunk[i]);
            i += 1;
        }
    }

    /// Hands out the first line held, if a whole one is there, and keeps the
    /// rest. No byte is lost: what is handed out and what is kept make up
    /// what was held.
    pub fn take_line(&mut self) -> (line: Option<Vec<u8>>)
        ensures
            match line {
                Some(bytes) => first_line(old(self)@) == Some(bytes@),
                None => first_line(old(self)@) is None,
            },
            final(self)@ == after_first_line(old(self)@),
            old(self)@ == match line {
                Some(bytes) => bytes@ + final(self)@,
                None => final(self)@,
            },
    {
        proof {
            lemma_first_line(self@);
        }
        match find_first(self.pending.as_slice(), LINE_FEED) {
            Some(at) => {
                let mut rest = self.pending.split_off(at + 1);
                core::mem::swap(&mut self.pending, &mut rest);
                Some(rest)
            },
            None => None,
        }
    }

    /// The bytes held: what has arrived and has not been handed out.
    pub fn pending(&self) -> (bytes: &[u8])
        ensures
            bytes@ == self@,
    {
        self.pending.as_slice()
    }

    /// Takes in what one read of the stream gave, and says what whoever asked
    /// for the next line is to be told, or `None` where the stream has to be
    /// read again first.
    ///
    /// A read that gave bytes adds them to those held; the first line held is
    /// then handed out, if a whole one is there. A read that gave no bytes
    /// means that the peer closed the stream. A failed read is reported with
    /// its cause. In the last two cases the reader keeps what it holds.
    pub fn on_read<E>(&mut self, outcome: Result<&[u8], E>) -> (result: Option<LineResult<E>>)
        ensures
            match outcome {
                Ok(chunk) => if chunk@.len() == 0 {
                    &&& result matches Some(LineResult::EndOfStream)
                    &&& final(self)@ == old(self)@
                } else {
                    &&& match first_line(old(self)@ + chunk@) {
                        Some(line) => result matches Some(LineResult::Line(bytes)) && bytes@
                            == line,
                        None => result is None,
                    }
                    &&& final(self)@ == after_first_line(old(self)@ + chunk@)
                },
                Err(cause) => {
                    &&& result == Some(LineResult::<E>::IoError(cause))
                    &&& final(self)@ == old(self)@
                },
            },
    {
        match outcome {
            Ok(chunk) => {
                if chunk.len() == 0 {
                    Some(LineResult::EndOfStream)
                } else {
                    self.feed(chunk);
                    match self.take_line() {
                        Some(bytes) => Some(LineResult::Line(bytes)),
                        None => None,
                    }
                }
            },
            Err(cause) => Some(LineResult::IoError(cause)),
        }
    }
}

/// Taking a line neither loses nor adds a byte, and a line is a line.
///
/// The first line and what follows it make up the bytes they were taken
/// from. The line ends with a line feed and holds no other.
pub proof fn lemma_first_line(bytes: Seq<u8>)
    ensures
        match first_line(bytes) {
            Some(line) => {
                &&& bytes == line + after_first_line(bytes)
                &&& line.len() > 0
                &&& line.last() == LINE_FEED
                &&& !line.drop_last().contains(LINE_FEED)
            },
            None => !bytes.contains(LINE_FEED) && after_first_line(bytes) == bytes,
        },
{
    lemma_first_occurrence(bytes, LINE_FEED);
    match bytes.index_of_first(LINE_FEED) {
        Some(at) => {
            let line = bytes.subrange(0, at + 1);
            assert(bytes =~= line + after_first_line(bytes));
            if line.drop_last().contains(LINE_FEED) {
                let j = choose|j: int| 0 <= j < at && line.drop_last()[j] == LINE_FEED;
                assert(bytes[j] == LINE_FEED);
            }
        },
        None => {},
    }
}

/// A line comes out whole however the stream cut it into chunks.
///
/// Where the bytes held end in the middle of a line and the next chunk brings
/// the end of it, the first line of the two together is what was held followed
/// by the chunk up to its first line feed, and what stays behind is what the
/// chunk holds after that. Where a whole line is held already, later bytes do
/// not change it. Where neither holds a line feed, no line is handed out yet.
pub proof fn lemma_line_across_chunks(held: Seq<u8>, chunk: Seq<u8>)
    ensures
        first_line(held + chunk) == match first_line(held) {
            Some(line) => Some(line),
            None => match first_line(chunk) {
                Some(end) => Some(held + end),
                None => None,
            },
        },
        after_first_line(held + chunk) == match first_line(held) {
            Some(_) => after_first_line(held) + chunk,
            None => match first_line(chunk) {
                Some(_) => after_first_line(chunk),
                None => held + chunk,
            },
        },
{
    let both = held + chunk;
    lemma_first_occurrence(held, LINE_FEED);
    lemma_first_occurrence(chunk, LINE_FEED);
    lemma_first_in_concat(held, chunk, LINE_FEED);
    match held.index_of_first(LINE_FEED) {
        Some(at) => {
            assert(both.subrange(0, at + 1) =~= held.subrange(0, at + 1));
            assert(both.subrange(at + 1, both.len() as int) =~= held.subrange(
                at + 1,
                held.len() as int,
            ) + chunk);
        },
        None => match chunk.index_of_first(LINE_FEED) {
            Some(at) => {
                let end = held.len() + at + 1;
                assert(both.subrange(0, end) =~= held + chunk.subrange(0, at + 1));
                assert(both.subrange(end, both.len() as int) =~= chunk.subrange(
                    at + 1,
                    chunk.len() as int,
                ));
            },
            None => {},
        },
    }
}

/// The lines that come out of a stream do not depend on how it was cut into
/// chunks.
///
/// The whole lines of two runs of bytes, one after the other, are the whole
/// lines of the first, then those of what the first left unfinished followed
/// by the second; and the same piece is left unfinished at the end.
pub proof fn lemma_lines_across_chunks(first: Seq<u8>, second: Seq<u8>)
    ensures
        lines_of(first + second) == lines_of(first) + lines_of(partial_line(first) + second),
        partial_line(first + second) == partial_line(partial_line(first) + second),
    decreases first.len(),
{
    lemma_line_across_chunks(first, second);
    match first_line(first) {
        Some(line) => {
            let rest = after_first_line(first);
            lemma_first_line(first);
            lemma_lines_across_chunks(rest, second);
            assert(seq![line] + (lines_of(rest) + lines_of(partial_line(rest) + second)) =~= (
            seq![line] + lines_of(rest)) + lines_of(partial_line(rest) + second));
        },
        None => {
            assert(lines_of(first) + lines_of(first + second) =~= lines_of(first + second));
        },
    }
}

} // verus!
