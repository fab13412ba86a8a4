//! Short human-typable game codes for the invite-code flow.
//!
//! Codes are fixed-length and drawn from a restricted alphabet that
//! leaves out visually ambiguous characters (no `0`, `O`, `1` or `l`).
//! The allocator retries on a reported collision; with a keyspace this
//! sparse a collision is statistically negligible, so no retry bound
//! is enforced.

use vstd::prelude::*;

verus! {

/// The restricted code alphabet.
pub open spec fn code_alphabet() -> Seq<char> {
    "abcdefghjkmnpqrstuvwxyz23456789"@
}

/// A well-formed code: exactly six characters, all from the
/// restricted alphabet.
pub open spec fn code_wf(s: Seq<char>) -> bool {
    &&& s.len() == 6
    &&& forall|i: int| 0 <= i < s.len() ==> code_alphabet().contains(#[trigger] s[i])
}

/// Relies on rand::random_range: a value drawn uniformly from the
/// half-open range, so strictly below the bound; the call panics only
/// on an empty range, which the precondition rules out.
#[verifier::external_body]
fn random_index(bound: usize) -> (r: usize)
    requires
        1 <= bound,
    ensures
        r < bound,
{
    rand::random_range(0..bound)
}

/// Generate one game code.
pub fn generate_game_id() -> (r: String)
    ensures
        code_wf(r@),
{
    let alphabet = "abcdefghjkmnpqrstuvwxyz23456789";
    proof {
        reveal_strlit("abcdefghjkmnpqrstuvwxyz23456789");
    }
    let mut code = String::new();
    let mut k: usize = 0;
    while k < 6
        invariant
            alphabet@ == code_alphabet(),
            alphabet@.len() == 31,
            k <= 6,
            code@.len() == k,
            forall|i: int| 0 <= i < code@.len() ==> code_alphabet().contains(#[trigger] code@[i]),
        decreases 6 - k,
    {
        let i = random_index(31);
        let ch = alphabet.substring_char(i, i + 1);
        proof {
            assert(ch@[0] == code_alphabet()[i as int]);
            assert(code_alphabet().contains(code_alphabet()[i as int]));
        }
        code.append(ch);
        k = k + 1;
    }
    code
}

/// Generate a code that the given predicate does not yet know,
/// retrying on a reported collision: the predicate is consulted on
/// every draw, and a draw it reports taken is redrawn. Collisions are
/// statistically negligible against the sparse keyspace; the retry
/// count is bounded only defensively, and only after the bound is the
/// last checked draw returned whatever the predicate said of it.
pub fn generate_unique_game_id<F: Fn(&str) -> bool>(taken: F) -> (r: String)
    requires
        forall|s: &str| #[trigger] taken.requires((s,)),
    ensures
        code_wf(r@),
        exists|s: &str, b: bool| s@ == r@ && #[trigger] taken.ensures((s,), b),
{
    let mut id = generate_game_id();
    let mut collides = taken(id.as_str());
    let mut attempt: usize = 0;
    while collides && attempt < 10000
        invariant
            forall|s: &str| #[trigger] taken.requires((s,)),
            code_wf(id@),
            exists|s: &str, b: bool| s@ == id@ && #[trigger] taken.ensures((s,), b),
        decreases 10000 - attempt,
    {
        id = generate_game_id();
        collides = taken(id.as_str());
        attempt = attempt + 1;
    }
    id
}

} // verus!
