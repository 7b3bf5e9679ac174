//! The three lookup tables of the Verhoeff scheme and the algebra they carry.
//!
//! The tables are fixed data. Everything the checksum guarantees rests on a
//! handful of facts about them, each of which is stated and proved here: the
//! multiplication table is a group on the digits with identity `0`, every
//! permutation row is a bijection on the digits, and neighbouring permutation
//! rows never commute on two different digits.

use vstd::prelude::*;

verus! {

/// Multiplication table of the dihedral group of order ten.
pub const D_TABLE: [[u8; 10]; 10] = [
    [0, 1, 2, 3, 4, 5, 6, 7, 8, 9],
    [1, 2, 3, 4, 0, 6, 7, 8, 9, 5],
    [2, 3, 4, 0, 1, 7, 8, 9, 5, 6],
    [3, 4, 0, 1, 2, 8, 9, 5, 6, 7],
    [4, 0, 1, 2, 3, 9, 5, 6, 7, 8],
    [5, 9, 8, 7, 6, 0, 4, 3, 2, 1],
    [6, 5, 9, 8, 7, 1, 0, 4, 3, 2],
    [7, 6, 5, 9, 8, 2, 1, 0, 4, 3],
    [8, 7, 6, 5, 9, 3, 2, 1, 0, 4],
    [9, 8, 7, 6, 5, 4, 3, 2, 1, 0],
];

/// Position-dependent permutations; row `i` serves every position congruent
/// to `i` modulo eight.
pub const P_TABLE: [[u8; 10]; 8] = [
    [0, 1, 2, 3, 4, 5, 6, 7, 8, 9],
    [1, 5, 7, 6, 2, 8, 3, 0, 9, 4],
    [5, 8, 0, 3, 7, 9, 6, 1, 4, 2],
    [8, 9, 1, 6, 0, 4, 3, 5, 2, 7],
    [9, 4, 5, 3, 1, 2, 6, 8, 7, 0],
    [4, 2, 8, 6, 5, 7, 3, 9, 0, 1],
    [2, 7, 9, 3, 8, 0, 6, 4, 1, 5],
    [7, 0, 4, 6, 9, 1, 3, 2, 5, 8],
];

/// Inverses under `D_TABLE`.
pub const INV_TABLE: [u8; 10] = [0, 4, 3, 2, 1, 5, 6, 7, 8, 9];

/// A digit value is a number below ten.
pub open spec fn is_digit(x: u8) -> bool {
    x < 10
}

/// The group product `a * b`, read from `D_TABLE`.
///
/// The three table readers are opaque: a proof elsewhere rests on the facts
/// proved below, and brings in the hundred entries with `reveal` only where
/// it computes with them.
#[verifier::opaque]
pub open spec fn compose(a: u8, b: u8) -> u8 {
    D_TABLE[a as int][b as int]
}

/// The digit `x` as permuted at distance `pos` from the end of a sequence.
#[verifier::opaque]
pub open spec fn permute(pos: nat, x: u8) -> u8 {
    P_TABLE[(pos % 8) as int][x as int]
}

/// The group inverse of `x`, read from `INV_TABLE`.
#[verifier::opaque]
pub open spec fn inverse(x: u8) -> u8 {
    INV_TABLE[x as int]
}

/// The product of two digits is a digit.
pub proof fn lemma_compose_closed(a: u8, b: u8)
    requires
        is_digit(a),
        is_digit(b),
    ensures
        is_digit(compose(a, b)),
{
    reveal(compose);
}

/// `0` is the identity on both sides.
pub proof fn lemma_compose_identity(a: u8)
    requires
        is_digit(a),
    ensures
        compose(0, a) == a,
        compose(a, 0) == a,
{
    reveal(compose);
}

/// The product is associative.
pub proof fn lemma_compose_associative(a: u8, b: u8, c: u8)
    requires
        is_digit(a),
        is_digit(b),
        is_digit(c),
    ensures
        compose(compose(a, b), c) == compose(a, compose(b, c)),
{
    reveal(compose);
}

/// `inverse(a)` is a digit and cancels `a` on both sides.
pub proof fn lemma_inverse_cancels(a: u8)
    requires
        is_digit(a),
    ensures
        is_digit(inverse(a)),
        compose(a, inverse(a)) == 0,
        compose(inverse(a), a) == 0,
{
    reveal(compose);
    reveal(inverse);
}

/// `inverse(a)` is the only digit whose product with `a` is `0`.
pub proof fn lemma_inverse_unique(a: u8, b: u8)
    requires
        is_digit(a),
        is_digit(b),
    ensures
        compose(a, b) == 0 <==> b == inverse(a),
        compose(b, a) == 0 <==> b == inverse(a),
{
    reveal(compose);
    reveal(inverse);
}

/// Different digits have different inverses.
pub proof fn lemma_inverse_injective(a: u8, b: u8)
    requires
        is_digit(a),
        is_digit(b),
        inverse(a) == inverse(b),
    ensures
        a == b,
{
    reveal(inverse);
}

/// Equal products with a common left factor have equal right factors.
pub proof fn lemma_compose_cancel_left(a: u8, b: u8, c: u8)
    requires
        is_digit(a),
        is_digit(b),
        is_digit(c),
        compose(a, b) == compose(a, c),
    ensures
        b == c,
{
    reveal(compose);
}

/// Equal products with a common right factor have equal left factors.
pub proof fn lemma_compose_cancel_right(a: u8, b: u8, c: u8)
    requires
        is_digit(a),
        is_digit(b),
        is_digit(c),
        compose(a, c) == compose(b, c),
    ensures
        a == b,
{
    reveal(compose);
}

/// A permuted digit is a digit, and at distance zero the permutation is the
/// identity.
pub proof fn lemma_permute_closed(pos: nat, x: u8)
    requires
        is_digit(x),
    ensures
        is_digit(permute(pos, x)),
        permute(0, x) == x,
{
    reveal(permute);
}

/// Each permutation row is one-to-one on the digits.
pub proof fn lemma_permute_injective(pos: nat, x: u8, y: u8)
    requires
        is_digit(x),
        is_digit(y),
        permute(pos, x) == permute(pos, y),
    ensures
        x == y,
{
    reveal(permute);
}

/// Two different digits at neighbouring positions never give the same
/// product when they trade places. This is the property that the
/// permutation table was chosen for.
pub proof fn lemma_neighbours_do_not_commute(pos: nat, x: u8, y: u8)
    requires
        is_digit(x),
        is_digit(y),
        x != y,
    ensures
        compose(permute(pos, x), permute(pos + 1, y)) != compose(
            permute(pos, y),
            permute(pos + 1, x),
        ),
{
    reveal(compose);
    reveal(permute);
}

} // verus!
