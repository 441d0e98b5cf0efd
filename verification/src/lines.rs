//! Cutting a stream into its lines.
//!
//! A line ends at a line feed. A carriage return directly before that line
//! feed belongs to the line ending too; anywhere else it is part of the line.
//! What follows the last line feed is a line of its own unless it is empty.

use vstd::prelude::*;
use vstd::slice::slice_subrange;

verus! {

/// Where the first line of `text` stops: at its first line feed, or at the end
/// of `text` if it has none.
pub open spec fn line_break(text: Seq<u8>) -> int {
    match text.index_of_first('\n' as u8) {
        Some(i) => i,
        None => text.len() as int,
    }
}

/// The first line of `text`, without its line ending.
pub open spec fn first_line(text: Seq<u8>) -> Seq<u8> {
    let stop = line_break(text);
    if 0 < stop < text.len() && text[stop - 1] == '\r' as u8 {
        text.subrange(0, stop - 1)
    } else {
        text.subrange(0, stop)
    }
}

/// What follows the first line of `text` and its line ending.
pub open spec fn after_first_line(text: Seq<u8>) -> Seq<u8> {
    let stop = line_break(text);
    if stop < text.len() {
        text.subrange(stop + 1, text.len() as int)
    } else {
        Seq::empty()
    }
}

/// The lines of `text`, in order.
pub open spec fn lines(text: Seq<u8>) -> Seq<Seq<u8>>
    decreases text.len(),
{
    if text.len() == 0 {
        Seq::empty()
    } else {
        proof {
            lemma_line_break_in_bounds(text);
        }
        seq![first_line(text)] + lines(after_first_line(text))
    }
}

/// The first line stops inside the text, at a line feed if before the end,
/// and holds no line feed itself.
pub proof fn lemma_line_break_in_bounds(text: Seq<u8>)
    ensures
        0 <= line_break(text) <= text.len(),
        line_break(text) < text.len() ==> text[line_break(text)] == '\n' as u8,
        forall|j: int| 0 <= j < line_break(text) ==> text[j] != '\n' as u8,
        text.len() > 0 ==> after_first_line(text).len() < text.len(),
{
    text.index_of_first_ensures('\n' as u8);
    if text.index_of_first('\n' as u8) is None {
        assert forall|j: int| 0 <= j < text.len() implies text[j] != '\n' as u8 by {
            if text[j] == '\n' as u8 {
                assert(text.contains('\n' as u8));
            }
        }
    }
}

/// Cuts the first line off `text`: the line without its ending, and the rest.
pub fn split_first_line<'a>(text: &'a [u8]) -> (r: (&'a [u8], &'a [u8]))
    ensures
        r.0@ == first_line(text@),
        r.1@ == after_first_line(text@),
{
    let n: usize = text.len();
    let stop: usize = match crate::ascii::find(text, '\n' as u8) {
        Some(i) => i,
        None => n,
    };
    proof {
        lemma_line_break_in_bounds(text@);
    }
    let line = if 0 < stop && stop < n && text[stop - 1] == '\r' as u8 {
        slice_subrange(text, 0, stop - 1)
    } else {
        slice_subrange(text, 0, stop)
    };
    let rest = if stop < n {
        slice_subrange(text, stop + 1, n)
    } else {
        slice_subrange(text, n, n)
    };
    assert(rest@ =~= after_first_line(text@));
    (line, rest)
}

} // verus!
