//! The pairwise combiner: two nodes are arranged by the lexicographic order,
//! the greater first, and the arrangement is hashed with SHA-256.

use crate::order::{is_greater, lemma_lex_greater_asymmetric, lemma_lex_greater_connected, lex_greater};
use vstd::prelude::*;

verus! {

/// What `sha256::digest` returns for the bytes `data`, as the bytes of the
/// returned string: the SHA-256 digest in hexadecimal notation.
pub uninterp spec fn sha256_hex(data: Seq<u8>) -> Seq<u8>;

/// Hashes `data` with `sha256::digest` and hands back the bytes of the string
/// that it returns.
///
/// Trusted: the digest is taken to depend on the bytes of `data` alone.
/// Nothing else is claimed of it, in particular no resistance to collisions.
#[verifier::external_body]
fn digest_hex(data: Vec<u8>) -> (out: Vec<u8>)
    ensures
        out@ == sha256_hex(data@),
{
    sha256::digest(data).into_bytes()
}

/// The bytes that are hashed for the pair `a`, `b`: the greater of the two
/// followed by the lesser.
pub open spec fn spec_preimage(a: Seq<u8>, b: Seq<u8>) -> Seq<u8> {
    if lex_greater(a, b) {
        a + b
    } else {
        b + a
    }
}

/// The node that stands above the pair `a`, `b`.
pub open spec fn spec_combine(a: Seq<u8>, b: Seq<u8>) -> Seq<u8> {
    sha256_hex(spec_preimage(a, b))
}

/// Combining does not depend on the order in which the two nodes are given.
pub proof fn lemma_combine_commutative(a: Seq<u8>, b: Seq<u8>)
    ensures
        spec_preimage(a, b) == spec_preimage(b, a),
        spec_combine(a, b) == spec_combine(b, a),
{
    if lex_greater(a, b) {
        lemma_lex_greater_asymmetric(a, b);
    } else if !lex_greater(b, a) {
        lemma_lex_greater_connected(a, b);
    }
}

/// Arranges the pair `a`, `b` for hashing.
pub fn preimage(a: &[u8], b: &[u8]) -> (r: Vec<u8>)
    ensures
        r@ == spec_preimage(a@, b@),
{
    let mut r: Vec<u8> = Vec::new();
    if is_greater(a, b) {
        r.extend_from_slice(a);
        r.extend_from_slice(b);
    } else {
        r.extend_from_slice(b);
        r.extend_from_slice(a);
    }
    r
}

/// Combines two nodes into the node above them.
pub fn combine(a: &[u8], b: &[u8]) -> (r: Vec<u8>)
    ensures
        r@ == spec_combine(a@, b@),
{
    digest_hex(preimage(a, b))
}

} // verus!
