//! Ordering of record timestamps.
//!
//! `updated_at` stamps are RFC 3339 UTC strings in a single fixed
//! format (for example `2024-01-02T00:00:00Z`), so their character-wise
//! lexicographic order coincides with chronological order. The merge
//! policy compares stamps through `lex_ge`.

use vstd::prelude::*;

verus! {

/// Lexicographic `a >= b` over character sequences, comparing scalar
/// values position by position.
pub open spec fn lex_ge(a: Seq<char>, b: Seq<char>) -> bool
    decreases a.len(),
{
    if b.len() == 0 {
        true
    } else if a.len() == 0 {
        false
    } else if a[0] as u32 > b[0] as u32 {
        true
    } else if (a[0] as u32) < (b[0] as u32) {
        false
    } else {
        lex_ge(a.drop_first(), b.drop_first())
    }
}

proof fn lemma_lex_ge_step(a: Seq<char>, b: Seq<char>, i: int)
    requires
        0 <= i < a.len(),
        0 <= i < b.len(),
        a[i] == b[i],
    ensures
        lex_ge(a.skip(i), b.skip(i)) == lex_ge(a.skip(i + 1), b.skip(i + 1)),
{
    assert(a.skip(i).drop_first() =~= a.skip(i + 1));
    assert(b.skip(i).drop_first() =~= b.skip(i + 1));
    assert(a.skip(i)[0] == a[i]);
    assert(b.skip(i)[0] == b[i]);
}

/// Decides `lex_ge(a@, b@)` executably.
pub fn timestamp_ge(a: &str, b: &str) -> (r: bool)
    ensures
        r == lex_ge(a@, b@),
{
    let alen: usize = a.unicode_len();
    let blen: usize = b.unicode_len();
    let mut i: usize = 0;
    proof {
        assert(a@.skip(0) =~= a@);
        assert(b@.skip(0) =~= b@);
    }
    while i < alen && i < blen
        invariant
            i <= alen,
            i <= blen,
            alen == a@.len(),
            blen == b@.len(),
            lex_ge(a@, b@) == lex_ge(a@.skip(i as int), b@.skip(i as int)),
        decreases alen - i,
    {
        let ca = a.get_char(i);
        let cb = b.get_char(i);
        if ca as u32 > cb as u32 {
            assert(a@.skip(i as int)[0] == a@[i as int]);
            assert(b@.skip(i as int)[0] == b@[i as int]);
            return true;
        }
        if (ca as u32) < (cb as u32) {
            assert(a@.skip(i as int)[0] == a@[i as int]);
            assert(b@.skip(i as int)[0] == b@[i as int]);
            return false;
        }
        proof {
            assert(a@.skip(i as int)[0] == a@[i as int]);
            assert(b@.skip(i as int)[0] == b@[i as int]);
            assert(ca == cb);
            lemma_lex_ge_step(a@, b@, i as int);
        }
        i = i + 1;
    }
    if i >= blen {
        assert(b@.skip(i as int).len() == 0);
        true
    } else {
        assert(a@.skip(i as int).len() == 0);
        assert(b@.skip(i as int).len() > 0);
        false
    }
}

} // verus!
