use vstd::prelude::*;
use crate::bits::{bit, byte_swap, swap};
use crate::consts::{FILE, NOTH};
use crate::rays::{bishop_walk, lemma_bishop_walk, lemma_rook_walk, rook_walk};

verus! {

/// Squares of the a1-h8 diagonal.
pub const MAIN_DIAG: u64 = 0x8040_2010_0804_0201;
/// Squares of the h1-a8 anti-diagonal.
pub const ANTI_DIAG: u64 = 0x0102_0408_1020_4080;

/// Per-square line masks used by the ray-fill attack generator.
#[derive(Clone, Copy, Debug)]
pub struct Mask {
    pub bit: u64,
    pub right: u64,
    pub left: u64,
    pub file: u64,
}

/// Squares on the diagonal (file minus rank constant) through `sq`.
pub open spec fn diag_spec(sq: u64) -> u64 {
    let f = sq & 7;
    let r = sq >> 3;
    if f >= r {
        MAIN_DIAG >> ((f - r) * 8) as u64
    } else {
        MAIN_DIAG << ((r - f) * 8) as u64
    }
}

/// Squares on the anti-diagonal (file plus rank constant) through `sq`.
pub open spec fn anti_diag_spec(sq: u64) -> u64 {
    let s = (sq & 7) + (sq >> 3);
    if s <= 7 {
        ANTI_DIAG >> ((7 - s) * 8) as u64
    } else {
        ANTI_DIAG << ((s - 7) * 8) as u64
    }
}

/// The bishop masks of `sq`: its bit, the rest of its diagonal, the rest of its
/// anti-diagonal, and its bit with the ranks mirrored.
pub open spec fn bishop_mask_spec(sq: u64) -> Mask {
    let bit = 1u64 << sq;
    Mask {
        bit,
        right: bit ^ diag_spec(sq),
        left: bit ^ anti_diag_spec(sq),
        file: byte_swap(bit),
    }
}

/// The squares of `sq`'s rank.
pub open spec fn rank_spec(sq: u64) -> u64 {
    0xFFu64 << (sq & 56)
}

/// The squares of `sq`'s rank below it (toward the A file).
pub open spec fn west_spec(sq: u64) -> u64 {
    ((1u64 << sq) - 1) as u64 & rank_spec(sq)
}

/// The rook masks of `sq`: its bit, the squares of its rank east of it, the
/// squares of its rank west of it, and the rest of its file.
pub open spec fn rook_mask_spec(sq: u64) -> Mask {
    let bit = 1u64 << sq;
    Mask {
        bit,
        right: bit ^ west_spec(sq) ^ rank_spec(sq),
        left: west_spec(sq),
        file: bit ^ (FILE << (sq & 7)),
    }
}

/// Distance between two files or two ranks.
pub open spec fn dist(a: u64, b: u64) -> u64 {
    if a >= b {
        (a - b) as u64
    } else {
        (b - a) as u64
    }
}

/// Whether a knight jumps from `sq` to `t`: two files and one rank away, or
/// one file and two ranks.
pub open spec fn knight_jump(sq: u64, t: u64) -> bool {
    let df = dist(sq & 7, t & 7);
    let dr = dist(sq >> 3, t >> 3);
    (df == 1 && dr == 2) || (df == 2 && dr == 1)
}

/// Whether `t` is next to `sq`: at most one file and one rank away, and not
/// `sq` itself.
pub open spec fn king_step(sq: u64, t: u64) -> bool {
    let df = dist(sq & 7, t & 7);
    let dr = dist(sq >> 3, t >> 3);
    df <= 1 && dr <= 1 && t != sq
}

/// The knight and king tables hold exactly the squares one jump or one
/// step away.
pub proof fn lemma_jumps(sq: u64, t: u64)
    by (bit_vector)
    requires
        sq < 64,
        t < 64,
    ensures
        ((knight_spec(sq) >> t) & 1 == 1) == knight_jump(sq, t),
        ((king_spec(sq) >> t) & 1 == 1) == king_step(sq, t),
{
}

/// Squares a knight on `sq` attacks.
pub open spec fn knight_spec(sq: u64) -> u64 {
    let n = 1u64 << sq;
    let h1 = ((n >> 1u64) & 0x7f7f_7f7f_7f7f_7f7fu64) | ((n << 1u64) & 0xfefe_fefe_fefe_fefeu64);
    let h2 = ((n >> 2u64) & 0x3f3f_3f3f_3f3f_3f3fu64) | ((n << 2u64) & 0xfcfc_fcfc_fcfc_fcfcu64);
    (h1 << 16u64) | (h1 >> 16u64) | (h2 << 8u64) | (h2 >> 8u64)
}

/// Squares a king on `sq` attacks.
pub open spec fn king_spec(sq: u64) -> u64 {
    let b = 1u64 << sq;
    let k = b | (b << 8u64) | (b >> 8u64);
    let k2 = k | ((k & !FILE) >> 1u64) | ((k & NOTH) << 1u64);
    k2 ^ b
}

/// The ray fill along one line through the square `bit` (`mirrored` is that
/// square with the ranks mirrored): the squares of `line` reached from the
/// square up to and including the first blocker of `occ`, in both directions.
pub open spec fn line_fill(bit: u64, mirrored: u64, line: u64, occ: u64) -> u64 {
    let o = occ & line;
    let fwd = vstd::wrapping::u64_specs::wrapping_sub(o, bit);
    let back = vstd::wrapping::u64_specs::wrapping_sub(byte_swap(o), mirrored);
    (fwd ^ byte_swap(back)) & line
}

/// Bishop attacks from `sq` with blockers `occ`, by the ray fill.
pub open spec fn bishop_fill(sq: u64, occ: u64) -> u64 {
    let m = bishop_mask_spec(sq);
    line_fill(m.bit, m.file, m.right, occ) | line_fill(m.bit, m.file, m.left, occ)
}

/// Index of the highest set square of `x`, or 0 when `x` is empty.
pub open spec fn msb_index(x: u64) -> u64 {
    if x == 0 { 0 } else { (63 - vstd::std_specs::bits::u64_leading_zeros(x)) as u64 }
}

/// Rook attacks from `sq` with blockers `occ`, by the ray fill.
pub open spec fn rook_fill(sq: u64, occ: u64) -> u64 {
    let m = rook_mask_spec(sq);
    let vert = line_fill(m.bit, byte_swap(m.bit), m.file, occ);
    let e = m.right & occ;
    let low = e & vstd::wrapping::u64_specs::wrapping_sub(0, e);
    let east = (low ^ vstd::wrapping::u64_specs::wrapping_sub(low, m.bit)) & m.right;
    let west = m.left ^ west_spec(msb_index((m.left & occ) | 1));
    vert | east | west
}

/// Ranges of a square's parts.
pub proof fn lemma_square_parts(sq: u64)
    by (bit_vector)
    requires
        sq < 64,
    ensures
        sq & 7 < 8,
        sq >> 3 < 8,
        sq & 56 <= 56,
        1u64 << sq >= 1,
        (sq & 7) + (sq >> 3) * 8 == sq,
        sq & 7 == sq % 8,
        sq >> 3 == sq / 8,
{
}

/// Setting the lowest square keeps a bitboard non-empty.
pub proof fn lemma_or_one(x: u64)
    by (bit_vector)
    ensures
        x | 1 != 0,
{
}

pub fn bishop_mask(sq: u64) -> (m: Mask)
    requires
        sq < 64,
    ensures
        m == bishop_mask_spec(sq),
{
    proof {
        lemma_square_parts(sq);
    }
    let bit = 1u64 << sq;
    let f = sq & 7;
    let r = sq >> 3;
    let d = if f >= r {
        MAIN_DIAG >> ((f - r) * 8)
    } else {
        MAIN_DIAG << ((r - f) * 8)
    };
    let s = f + r;
    let a = if s <= 7 {
        ANTI_DIAG >> ((7 - s) * 8)
    } else {
        ANTI_DIAG << ((s - 7) * 8)
    };
    Mask { bit, right: bit ^ d, left: bit ^ a, file: swap(bit) }
}

pub fn rook_mask(sq: u64) -> (m: Mask)
    requires
        sq < 64,
    ensures
        m == rook_mask_spec(sq),
{
    proof {
        lemma_square_parts(sq);
    }
    let bit = 1u64 << sq;
    let rank = 0xFFu64 << (sq & 56);
    let left = (bit - 1) & rank;
    Mask { bit, right: bit ^ left ^ rank, left, file: bit ^ (FILE << (sq & 7)) }
}

pub fn knight_attacks(sq: u64) -> (r: u64)
    requires
        sq < 64,
    ensures
        r == knight_spec(sq),
        forall|t: u64| t < 64 ==> (bit(r, t as int) <==> #[trigger] knight_jump(sq, t)),
{
    proof {
        assert forall|t: u64| t < 64 implies (bit(knight_spec(sq), t as int) <==> #[trigger] knight_jump(sq, t)) by {
            lemma_jumps(sq, t);
        }
    }
    let n = 1u64 << sq;
    let h1 = ((n >> 1) & 0x7f7f_7f7f_7f7f_7f7f) | ((n << 1) & 0xfefe_fefe_fefe_fefe);
    let h2 = ((n >> 2) & 0x3f3f_3f3f_3f3f_3f3f) | ((n << 2) & 0xfcfc_fcfc_fcfc_fcfc);
    (h1 << 16) | (h1 >> 16) | (h2 << 8) | (h2 >> 8)
}

pub fn king_attacks(sq: u64) -> (r: u64)
    requires
        sq < 64,
    ensures
        r == king_spec(sq),
        forall|t: u64| t < 64 ==> (bit(r, t as int) <==> #[trigger] king_step(sq, t)),
{
    proof {
        assert forall|t: u64| t < 64 implies (bit(king_spec(sq), t as int) <==> #[trigger] king_step(sq, t)) by {
            lemma_jumps(sq, t);
        }
    }
    let b = 1u64 << sq;
    let k = b | (b << 8) | (b >> 8);
    let k2 = k | ((k & !FILE) >> 1) | ((k & NOTH) << 1);
    k2 ^ b
}

/// Bishop attacks from `sq` given the occupancy `occ`: every square of the
/// four diagonal rays up to and including the first occupied one.
pub fn batt(sq: u64, occ: u64) -> (r: u64)
    requires
        sq < 64,
    ensures
        r == bishop_walk(sq, occ),
        r == bishop_fill(sq, occ),
{
    proof {
        lemma_bishop_walk(sq, occ);
    }
    let m = bishop_mask(sq);
    let mut f: u64 = occ & m.right;
    let mut r: u64 = swap(f);
    f = f.wrapping_sub(m.bit);
    r = r.wrapping_sub(m.file);
    f ^= swap(r);
    f &= m.right;
    let mut f2: u64 = occ & m.left;
    r = swap(f2);
    f2 = f2.wrapping_sub(m.bit);
    r = r.wrapping_sub(m.file);
    f2 ^= swap(r);
    f2 &= m.left;
    f | f2
}

/// Rook attacks from `sq` given the occupancy `occ`: every square of the
/// four straight rays up to and including the first occupied one.
pub fn ratt(sq: u64, occ: u64) -> (r: u64)
    requires
        sq < 64,
    ensures
        r == rook_walk(sq, occ),
        r == rook_fill(sq, occ),
{
    proof {
        lemma_rook_walk(sq, occ);
    }
    let m = rook_mask(sq);
    let mut f: u64 = occ & m.file;
    let mut r: u64 = swap(f);
    f = f.wrapping_sub(m.bit);
    r = r.wrapping_sub(swap(m.bit));
    f ^= swap(r);
    f &= m.file;
    let mut e: u64 = m.right & occ;
    r = e & 0u64.wrapping_sub(e);
    e = (r ^ r.wrapping_sub(m.bit)) & m.right;
    let blockers = (m.left & occ) | 1;
    proof {
        lemma_or_one(m.left & occ);
        vstd::std_specs::bits::axiom_u64_leading_zeros(blockers);
    }
    let top = 63 - blockers.leading_zeros() as u64;
    let w: u64 = m.left ^ west(top);
    f | e | w
}

/// The squares of `sq`'s rank west of it.
pub fn west(sq: u64) -> (r: u64)
    requires
        sq < 64,
    ensures
        r == west_spec(sq),
{
    proof {
        lemma_square_parts(sq);
    }
    let bit = 1u64 << sq;
    (bit - 1) & (0xFFu64 << (sq & 56))
}

} // verus!
