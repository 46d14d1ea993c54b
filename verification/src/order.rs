//! The lexicographic order on byte strings, by which a pair of nodes is
//! arranged before it is hashed.

use vstd::prelude::*;

verus! {

/// `a` comes strictly after `b` in the lexicographic order: at the first
/// position where the two differ `a` holds the larger byte, or `b` is a
/// proper prefix of `a`.
pub open spec fn lex_greater(a: Seq<u8>, b: Seq<u8>) -> bool
    decreases a.len(),
{
    if a.len() == 0 {
        false
    } else if b.len() == 0 {
        true
    } else if a[0] != b[0] {
        a[0] > b[0]
    } else {
        lex_greater(a.drop_first(), b.drop_first())
    }
}

/// The order is strict: no byte string comes after itself, and of two byte
/// strings at most one comes after the other.
pub proof fn lemma_lex_greater_asymmetric(a: Seq<u8>, b: Seq<u8>)
    requires
        lex_greater(a, b),
    ensures
        !lex_greater(b, a),
        a != b,
    decreases a.len(),
{
    if a.len() > 0 && b.len() > 0 && a[0] == b[0] {
        lemma_lex_greater_asymmetric(a.drop_first(), b.drop_first());
    }
}

/// The order is total: two byte strings of which neither comes after the
/// other are the same byte string.
pub proof fn lemma_lex_greater_connected(a: Seq<u8>, b: Seq<u8>)
    requires
        !lex_greater(a, b),
        !lex_greater(b, a),
    ensures
        a == b,
    decreases a.len(),
{
    if a.len() == 0 {
        assert(a =~= b);
    } else {
        lemma_lex_greater_connected(a.drop_first(), b.drop_first());
        assert(a =~= seq![a[0]] + a.drop_first());
        assert(b =~= seq![b[0]] + b.drop_first());
    }
}

/// Compares two byte strings lexicographically.
pub fn is_greater(a: &[u8], b: &[u8]) -> (r: bool)
    ensures
        r == lex_greater(a@, b@),
{
    let mut i: usize = 0;
    proof {
        assert(a@.skip(0) =~= a@);
        assert(b@.skip(0) =~= b@);
    }
    while i < a.len() && i < b.len()
        invariant
            i <= a.len(),
            i <= b.len(),
            lex_greater(a@, b@) == lex_greater(a@.skip(i as int), b@.skip(i as int)),
        decreases a.len() - i,
    {
        if a[i] != b[i] {
            return a[i] > b[i];
        }
        proof {
            assert(a@.skip(i as int).drop_first() =~= a@.skip(i + 1));
            assert(b@.skip(i as int).drop_first() =~= b@.skip(i + 1));
        }
        i += 1;
    }
    i < a.len()
}

} // verus!
