//! Counting lines the way `split_inclusive` on the newline byte cuts them.

use vstd::prelude::*;

verus! {

/// The newline byte.
pub const NEWLINE: u8 = 10u8;

/// Number of newline bytes in `s`.
pub open spec fn newline_count(s: Seq<u8>) -> nat
    decreases s.len(),
{
    if s.len() == 0 {
        0
    } else {
        newline_count(s.drop_last()) + if s.last() == NEWLINE { 1nat } else { 0nat }
    }
}

/// Number of lines of `s`: every line ends with a newline byte except perhaps
/// the last one, and empty content has no lines.
pub open spec fn line_count(s: Seq<u8>) -> nat {
    if s.len() == 0 {
        0
    } else if s.last() == NEWLINE {
        newline_count(s)
    } else {
        newline_count(s) + 1
    }
}

/// There are never more newline bytes than bytes.
pub proof fn lemma_newline_count_bound(s: Seq<u8>)
    ensures
        newline_count(s) <= s.len(),
    decreases s.len(),
{
    if s.len() > 0 {
        lemma_newline_count_bound(s.drop_last());
    }
}

/// There are never more lines than bytes.
pub proof fn lemma_line_count_bound(s: Seq<u8>)
    ensures
        line_count(s) <= s.len(),
{
    lemma_newline_count_bound(s);
    if s.len() > 0 && s.last() != NEWLINE {
        lemma_newline_count_bound(s.drop_last());
    }
}

/// Counts the lines of `text`, each line including its trailing newline.
pub fn count_lines(text: &[u8]) -> (n: usize)
    ensures
        n == line_count(text@),
{
    let mut count: usize = 0;
    let mut i: usize = 0;
    while i < text.len()
        invariant
            i <= text@.len(),
            count == newline_count(text@.take(i as int)),
        decreases text@.len() - i,
    {
        proof {
            assert(text@.take(i + 1).drop_last() =~= text@.take(i as int));
            lemma_newline_count_bound(text@.take(i as int));
        }
        if text[i] == NEWLINE {
            count = count + 1;
        }
        i = i + 1;
    }
    proof {
        assert(text@.take(i as int) =~= text@);
        if text@.len() > 0 {
            lemma_newline_count_bound(text@.drop_last());
        }
    }
    if text.len() > 0 && text[text.len() - 1] != NEWLINE {
        count = count + 1;
    }
    count
}

} // verus!
