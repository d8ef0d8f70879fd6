//! Splitting character sequences at separator characters.

use vstd::prelude::*;

verus! {

/// The pieces of `s` between the characters that `sep` accepts, in order,
/// with the separators removed. `n` separators give `n + 1` pieces, some of
/// which may be empty; the empty sequence is one empty piece.
pub open spec fn pieces(s: Seq<char>, sep: spec_fn(char) -> bool) -> Seq<Seq<char>>
    decreases s.len(),
{
    if s.len() == 0 {
        seq![Seq::empty()]
    } else {
        let p = pieces(s.drop_last(), sep);
        if sep(s.last()) {
            p.push(Seq::empty())
        } else {
            p.update(p.len() - 1, p.last().push(s.last()))
        }
    }
}

/// There is always at least one piece.
pub proof fn lemma_pieces_len(s: Seq<char>, sep: spec_fn(char) -> bool)
    ensures
        pieces(s, sep).len() >= 1,
    decreases s.len(),
{
    if s.len() > 0 {
        lemma_pieces_len(s.drop_last(), sep);
    }
}

/// Extending a prefix of `s` by one character: a separator closes the
/// current piece and opens an empty one, any other character extends the
/// current piece.
pub proof fn lemma_pieces_step(s: Seq<char>, sep: spec_fn(char) -> bool, i: int)
    requires
        0 <= i < s.len(),
    ensures
        pieces(s.subrange(0, i + 1), sep).len() >= 1,
        pieces(s.subrange(0, i), sep).len() >= 1,
        sep(s[i]) ==> pieces(s.subrange(0, i + 1), sep) == pieces(s.subrange(0, i), sep).push(
            Seq::empty(),
        ),
        !sep(s[i]) ==> pieces(s.subrange(0, i + 1), sep) == {
            let p = pieces(s.subrange(0, i), sep);
            p.update(p.len() - 1, p.last().push(s[i]))
        },
{
    lemma_pieces_len(s.subrange(0, i), sep);
    lemma_pieces_len(s.subrange(0, i + 1), sep);
    assert(s.subrange(0, i + 1).drop_last() =~= s.subrange(0, i));
}

} // verus!
