use vstd::prelude::*;
use crate::bits::byte_swap;
use crate::attacks::{
    anti_diag_spec, bishop_fill, diag_spec, lemma_or_one, lemma_square_parts, line_fill, msb_index,
    rank_spec, rook_fill, west_spec,
};
use crate::consts::FILE;

verus! {

/// Squares strictly above square `s`.
pub open spec fn above(s: u64) -> u64 {
    !((((1u64 << s) - 1) as u64) | (1u64 << s))
}

/// The squares of the line `line` above `s`, from the next one up to and
/// including the first one occupied in `occ`.
pub open spec fn up_fill(line: u64, s: u64, occ: u64) -> u64 {
    let b = 1u64 << s;
    let l = line & !b;
    let o = occ & l;
    (vstd::wrapping::u64_specs::wrapping_sub(o, b) ^ o) & l & above(s)
}

pub proof fn lemma_up_step(line: u64, s: u64, s2: u64, occ: u64)
    by (bit_vector)
    requires
        s < s2 < 64,
        line & above(s) & !above(s2) == (1u64 << s2),
    ensures
        up_fill(line, s, occ) == if occ & (1u64 << s2) != 0 {
            1u64 << s2
        } else {
            (1u64 << s2) | up_fill(line, s2, occ)
        },
{
}

pub proof fn lemma_up_edge(line: u64, s: u64, occ: u64)
    by (bit_vector)
    requires
        s < 64,
        line & above(s) == 0,
    ensures
        up_fill(line, s, occ) == 0,
{
}

/// On a line with no other square on `s`'s rank, the ray fill is the fill
/// upward plus the mirrored fill upward on the mirrored line.
pub proof fn lemma_fill_halves(line: u64, s: u64, occ: u64)
    by (bit_vector)
    requires
        s < 64,
        line & (0xFFu64 << (s & 56)) == (1u64 << s),
    ensures
        line_fill(1u64 << s, byte_swap(1u64 << s), (1u64 << s) ^ line, occ) == up_fill(line, s, occ)
            | byte_swap(up_fill(byte_swap(line), s ^ 56, byte_swap(occ))),
{
}

/// The diagonal through square `s` (file `f`, rank `r`): one square on that
/// rank, the next one up-right, or none above at the edge.
pub proof fn lemma_diag_geometry(s: u64, f: u64, r: u64)
    by (bit_vector)
    requires
        f < 8,
        r < 8,
        s == 8 * r + f,
    ensures
        diag_spec(s) & (0xFFu64 << (s & 56)) == (1u64 << s),
        f < 7 && r < 7 ==> diag_spec((s + 9) as u64) == diag_spec(s),
        f < 7 && r < 7 ==> diag_spec(s) & above(s) & !above((s + 9) as u64) == (1u64 << (s + 9) as u64),
        f == 7 || r == 7 ==> diag_spec(s) & above(s) == 0,
        byte_swap(diag_spec(s)) == anti_diag_spec(s ^ 56),
{
}

/// The anti-diagonal through square `s` (file `f`, rank `r`): one square on
/// that rank, the next one up-left, or none above at the edge.
pub proof fn lemma_anti_diag_geometry(s: u64, f: u64, r: u64)
    by (bit_vector)
    requires
        f < 8,
        r < 8,
        s == 8 * r + f,
    ensures
        anti_diag_spec(s) & (0xFFu64 << (s & 56)) == (1u64 << s),
        f > 0 && r < 7 ==> anti_diag_spec((s + 7) as u64) == anti_diag_spec(s),
        f > 0 && r < 7 ==> anti_diag_spec(s) & above(s) & !above((s + 7) as u64) == (1u64 << (s + 7) as u64),
        f == 0 || r == 7 ==> anti_diag_spec(s) & above(s) == 0,
        byte_swap(anti_diag_spec(s)) == diag_spec(s ^ 56),
{
}

/// The file through square `s` (file `f`, rank `r`): one square on that
/// rank, the next one up, or none above on the last rank; mirroring the
/// ranks keeps the file.
pub proof fn lemma_file_geometry(s: u64, f: u64, r: u64)
    by (bit_vector)
    requires
        f < 8,
        r < 8,
        s == 8 * r + f,
    ensures
        (FILE << f) & (0xFFu64 << (s & 56)) == (1u64 << s),
        r < 7 ==> (FILE << f) & above(s) & !above((s + 8) as u64) == (1u64 << (s + 8) as u64),
        r == 7 ==> (FILE << f) & above(s) == 0,
        byte_swap(FILE << f) == FILE << f,
        s & 7 == f,
        s ^ 56 == 8 * (7 - r) + f,
{
}

/// The square at file `f` and rank `r`.
pub open spec fn square_bit(f: int, r: int) -> u64 {
    1u64 << (8 * r + f) as u64
}

/// The squares a sliding piece at file `f` and rank `r` reaches stepping by
/// (`df`, `dr`), one square at a time, up to the edge of the board or the
/// first occupied square of `occ` (included), for at most `fuel` steps.
pub open spec fn ray(f: int, r: int, df: int, dr: int, occ: u64, fuel: nat) -> u64
    decreases fuel,
{
    let nf = f + df;
    let nr = r + dr;
    if fuel == 0 || nf < 0 || nf >= 8 || nr < 0 || nr >= 8 {
        0
    } else if occ & square_bit(nf, nr) != 0 {
        square_bit(nf, nr)
    } else {
        square_bit(nf, nr) | ray(nf, nr, df, dr, occ, (fuel - 1) as nat)
    }
}

/// Bishop attacks from `sq` found by walking each diagonal ray square by square.
pub open spec fn bishop_walk(sq: u64, occ: u64) -> u64 {
    let f = sq % 8;
    let r = sq / 8;
    (ray(f as int, r as int, 1, 1, occ, 7) | ray(f as int, r as int, -1, -1, occ, 7)) | (ray(
        f as int,
        r as int,
        -1,
        1,
        occ,
        7,
    ) | ray(f as int, r as int, 1, -1, occ, 7))
}

/// Rook attacks from `sq` found by walking each straight ray square by square.
pub open spec fn rook_walk(sq: u64, occ: u64) -> u64 {
    let f = sq % 8;
    let r = sq / 8;
    (ray(f as int, r as int, 0, 1, occ, 7) | ray(f as int, r as int, 0, -1, occ, 7)) | ray(
        f as int,
        r as int,
        1,
        0,
        occ,
        7,
    ) | ray(f as int, r as int, -1, 0, occ, 7)
}

proof fn lemma_swap_facts(x: u64, y: u64, t: u64)
    by (bit_vector)
    requires
        t < 64,
    ensures
        byte_swap(x | y) == byte_swap(x) | byte_swap(y),
        byte_swap(byte_swap(x)) == x,
        byte_swap(0) == 0,
        byte_swap(1u64 << t) == 1u64 << (t ^ 56),
        (x & (1u64 << t) != 0) == (byte_swap(x) & (1u64 << (t ^ 56)) != 0),
{
}

/// Mirroring the ranks turns a ray into the ray with the rank step reversed.
pub proof fn lemma_ray_mirror(f: int, r: int, df: int, dr: int, occ: u64, fuel: nat)
    requires
        0 <= f < 8,
        0 <= r < 8,
        -1 <= df <= 1,
        -1 <= dr <= 1,
    ensures
        byte_swap(ray(f, r, df, dr, occ, fuel)) == ray(f, 7 - r, df, -dr, byte_swap(occ), fuel),
    decreases fuel,
{
    let nf = f + df;
    let nr = r + dr;
    lemma_swap_facts(0, 0, 0);
    if !(fuel == 0 || nf < 0 || nf >= 8 || nr < 0 || nr >= 8) {
        let t = (8 * nr + nf) as u64;
        lemma_file_geometry(t, nf as u64, nr as u64);
        assert(t ^ 56 == (8 * (7 - nr) + nf) as u64);
        let rest = ray(nf, nr, df, dr, occ, (fuel - 1) as nat);
        lemma_swap_facts(occ, 0, t);
        lemma_swap_facts(square_bit(nf, nr), rest, t);
        lemma_ray_mirror(nf, nr, df, dr, occ, (fuel - 1) as nat);
    }
}

/// The up-right ray is the upward fill of the diagonal.
pub proof fn lemma_ray_up_right(f: int, r: int, occ: u64, fuel: nat)
    requires
        0 <= f < 8,
        0 <= r < 8,
        fuel + f >= 7,
    ensures
        ray(f, r, 1, 1, occ, fuel) == up_fill(diag_spec((8 * r + f) as u64), (8 * r + f) as u64, occ),
    decreases fuel,
{
    let s = (8 * r + f) as u64;
    lemma_diag_geometry(s, f as u64, r as u64);
    if f == 7 || r == 7 {
        lemma_up_edge(diag_spec(s), s, occ);
    } else {
        let s2 = (s + 9) as u64;
        assert(s2 == (8 * (r + 1) + (f + 1)) as u64);
        lemma_up_step(diag_spec(s), s, s2, occ);
        lemma_ray_up_right(f + 1, r + 1, occ, (fuel - 1) as nat);
    }
}

/// The up-left ray is the upward fill of the anti-diagonal.
pub proof fn lemma_ray_up_left(f: int, r: int, occ: u64, fuel: nat)
    requires
        0 <= f < 8,
        0 <= r < 8,
        fuel + r >= 7,
    ensures
        ray(f, r, -1, 1, occ, fuel) == up_fill(
            anti_diag_spec((8 * r + f) as u64),
            (8 * r + f) as u64,
            occ,
        ),
    decreases fuel,
{
    let s = (8 * r + f) as u64;
    lemma_anti_diag_geometry(s, f as u64, r as u64);
    if f == 0 || r == 7 {
        lemma_up_edge(anti_diag_spec(s), s, occ);
    } else {
        let s2 = (s + 7) as u64;
        assert(s2 == (8 * (r + 1) + (f - 1)) as u64);
        lemma_up_step(anti_diag_spec(s), s, s2, occ);
        lemma_ray_up_left(f - 1, r + 1, occ, (fuel - 1) as nat);
    }
}

/// The upward ray is the upward fill of the file.
pub proof fn lemma_ray_up(f: int, r: int, occ: u64, fuel: nat)
    requires
        0 <= f < 8,
        0 <= r < 8,
        fuel + r >= 7,
    ensures
        ray(f, r, 0, 1, occ, fuel) == up_fill(FILE << (f as u64), (8 * r + f) as u64, occ),
    decreases fuel,
{
    let s = (8 * r + f) as u64;
    lemma_file_geometry(s, f as u64, r as u64);
    if r == 7 {
        lemma_up_edge(FILE << (f as u64), s, occ);
    } else {
        let s2 = (s + 8) as u64;
        assert(s2 == (8 * (r + 1) + f) as u64);
        lemma_up_step(FILE << (f as u64), s, s2, occ);
        lemma_ray_up(f, r + 1, occ, (fuel - 1) as nat);
    }
}

/// The ray fill of the bishop equals the square-by-square walk along its
/// four diagonal rays, for every square and every occupancy.
pub proof fn lemma_bishop_walk(sq: u64, occ: u64)
    requires
        sq < 64,
    ensures
        bishop_fill(sq, occ) == bishop_walk(sq, occ),
{
    lemma_square_parts(sq);
    let f = (sq % 8) as int;
    let r = (sq / 8) as int;
    let m = (8 * (7 - r) + f) as u64;
    let swapped = byte_swap(occ);
    lemma_diag_geometry(sq, f as u64, r as u64);
    lemma_anti_diag_geometry(sq, f as u64, r as u64);
    lemma_file_geometry(sq, f as u64, r as u64);
    lemma_swap_facts(occ, 0, 0);
    lemma_fill_halves(diag_spec(sq), sq, occ);
    lemma_fill_halves(anti_diag_spec(sq), sq, occ);
    lemma_ray_up_right(f, r, occ, 7);
    lemma_ray_up_left(f, r, occ, 7);
    lemma_ray_up_left(f, 7 - r, swapped, 7);
    lemma_ray_up_right(f, 7 - r, swapped, 7);
    lemma_ray_mirror(f, 7 - r, -1, 1, swapped, 7);
    lemma_ray_mirror(f, 7 - r, 1, 1, swapped, 7);
}

/// The squares of `s`'s rank east of it, up to and including the first
/// occupied one: the lowest occupied square east of `s` isolated and filled
/// down to `s`.
pub open spec fn east_fill(s: u64, occ: u64) -> u64 {
    let bit = 1u64 << s;
    let right = bit ^ west_spec(s) ^ rank_spec(s);
    let e = right & occ;
    let low = e & vstd::wrapping::u64_specs::wrapping_sub(0, e);
    (low ^ vstd::wrapping::u64_specs::wrapping_sub(low, bit)) & right
}

/// The squares of `s`'s rank west of it and not west of square `t`.
pub open spec fn west_fill(s: u64, t: u64) -> u64 {
    west_spec(s) ^ west_spec(t)
}

proof fn lemma_east_step(s: u64, f: u64, r: u64, occ: u64)
    by (bit_vector)
    requires
        f < 8,
        r < 8,
        s == 8 * r + f,
    ensures
        f == 7 ==> east_fill(s, occ) == 0,
        f < 7 ==> east_fill(s, occ) == if occ & (1u64 << (s + 1) as u64) != 0 {
            1u64 << (s + 1) as u64
        } else {
            (1u64 << (s + 1) as u64) | east_fill((s + 1) as u64, occ)
        },
{
}

/// `t` is the highest set square of `x`.
pub open spec fn is_top(x: u64, t: u64) -> bool {
    t < 64 && (x >> t) & 1 != 0 && (t == 63 || x >> (t + 1) as u64 == 0)
}

proof fn lemma_west_step(s: u64, f: u64, r: u64, occ: u64, t1: u64, t2: u64)
    by (bit_vector)
    requires
        f < 8,
        r < 8,
        s == 8 * r + f,
        is_top((west_spec(s) & occ) | 1, t1),
        f > 0 ==> is_top((west_spec((s - 1) as u64) & occ) | 1, t2),
    ensures
        f == 0 ==> west_fill(s, t1) == 0,
        f > 0 ==> west_fill(s, t1) == if occ & (1u64 << (s - 1) as u64) != 0 {
            1u64 << (s - 1) as u64
        } else {
            (1u64 << (s - 1) as u64) | west_fill((s - 1) as u64, t2)
        },
{
}

proof fn lemma_msb_is_top(x: u64)
    requires
        x != 0,
    ensures
        is_top(x, msb_index(x)),
{
    vstd::std_specs::bits::axiom_u64_leading_zeros(x);
    let lz = vstd::std_specs::bits::u64_leading_zeros(x);
    let t = msb_index(x);
    assert(lz < 64);
    assert(t == 63 - lz);
}

/// The eastward ray is the east fill of the rank.
pub proof fn lemma_ray_east(f: int, r: int, occ: u64, fuel: nat)
    requires
        0 <= f < 8,
        0 <= r < 8,
        fuel + f >= 7,
    ensures
        ray(f, r, 1, 0, occ, fuel) == east_fill((8 * r + f) as u64, occ),
    decreases fuel,
{
    let s = (8 * r + f) as u64;
    lemma_east_step(s, f as u64, r as u64, occ);
    if f < 7 {
        assert((s + 1) as u64 == (8 * r + (f + 1)) as u64);
        lemma_ray_east(f + 1, r, occ, (fuel - 1) as nat);
    }
}

/// The westward ray is the west fill of the rank down to the highest
/// occupied square west of the start.
pub proof fn lemma_ray_west(f: int, r: int, occ: u64, fuel: nat)
    requires
        0 <= f < 8,
        0 <= r < 8,
        fuel >= f,
    ensures
        ray(f, r, -1, 0, occ, fuel) == west_fill(
            (8 * r + f) as u64,
            msb_index((west_spec((8 * r + f) as u64) & occ) | 1),
        ),
    decreases fuel,
{
    let s = (8 * r + f) as u64;
    let s2 = (s - 1) as u64;
    let x1 = (west_spec(s) & occ) | 1;
    let x2 = (west_spec(s2) & occ) | 1;
    lemma_or_one(west_spec(s) & occ);
    lemma_or_one(west_spec(s2) & occ);
    lemma_msb_is_top(x1);
    lemma_msb_is_top(x2);
    lemma_west_step(s, f as u64, r as u64, occ, msb_index(x1), msb_index(x2));
    if f > 0 {
        assert(s2 == (8 * r + (f - 1)) as u64);
        lemma_ray_west(f - 1, r, occ, (fuel - 1) as nat);
    }
}

/// The ray fill of the rook equals the square-by-square walk along its
/// four straight rays, for every square and every occupancy.
pub proof fn lemma_rook_walk(sq: u64, occ: u64)
    requires
        sq < 64,
    ensures
        rook_fill(sq, occ) == rook_walk(sq, occ),
{
    lemma_square_parts(sq);
    let f = (sq % 8) as int;
    let r = (sq / 8) as int;
    let swapped = byte_swap(occ);
    lemma_file_geometry(sq, f as u64, r as u64);
    lemma_swap_facts(occ, 0, 0);
    lemma_fill_halves(FILE << (f as u64), sq, occ);
    lemma_ray_up(f, r, occ, 7);
    lemma_ray_up(f, 7 - r, swapped, 7);
    lemma_ray_mirror(f, 7 - r, 0, 1, swapped, 7);
    lemma_ray_east(f, r, occ, 7);
    lemma_ray_west(f, r, occ, 7);
}

} // verus!
