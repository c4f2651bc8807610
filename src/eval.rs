use vstd::prelude::*;
use crate::attacks::{batt, king_attacks, king_spec, knight_attacks, knight_spec, ratt};
use crate::rays::{bishop_walk, rook_walk};
use crate::bits::{bit, count, lemma_popcount_bound, lemma_popcount_zero, lemma_zero_bit, popcount};
use crate::consts::{
    BISHOP, FILE, KING_LINEAR, NOTH, KING_QUADRATIC, KNIGHT, MOBILITY_BISHOP, MOBILITY_KNIGHT,
    MOBILITY_ROOK, NUM_PARAMS, PAWN_PASSED, PAWN_PST, PAWN_SHIELD, QUEEN, ROOK, TPHASE,
};

verus! {

/// The pieces of side `c` (0 white, 1 black) of the twelve bitboards `b`.
pub open spec fn side_spec(b: Seq<u64>, c: int) -> u64 {
    b[6 * c] | b[6 * c + 1] | b[6 * c + 2] | b[6 * c + 3] | b[6 * c + 4] | b[6 * c + 5]
}

/// Every occupied square.
pub open spec fn occ_spec(b: Seq<u64>) -> u64 {
    side_spec(b, 0) | side_spec(b, 1)
}

/// The pieces that do not block the mobility of a piece of type `p` of side
/// `c`: friendly rooks do not block rooks, queens move away from rooks and
/// bishops, and the enemy king never blocks.
pub open spec fn through_spec(b: Seq<u64>, c: int, p: int) -> u64 {
    let e = 1 - c;
    let q = b[4] | b[10];
    if p == ROOK {
        b[6 * c + 3] | b[6 * e + 5] | q
    } else if p == QUEEN {
        b[6 * c + 2] | b[6 * c + 3] | b[6 * e + 5]
    } else if p == BISHOP {
        b[6 * e + 5] | b[6 * e + 3] | q
    } else {
        0
    }
}

/// Squares attacked by a piece of type `p` (knight to queen) on `sq` given
/// the blockers `occ`.
pub open spec fn attacks_spec(p: int, sq: u64, occ: u64) -> u64 {
    if p == KNIGHT {
        knight_spec(sq)
    } else if p == BISHOP {
        bishop_walk(sq, occ)
    } else if p == ROOK {
        rook_walk(sq, occ)
    } else {
        rook_walk(sq, occ) | bishop_walk(sq, occ)
    }
}

/// Squares attacked by the piece of type `p` and side `c` on `sq`, with the
/// pieces that do not block it removed from the occupancy.
pub open spec fn piece_attacks_spec(b: Seq<u64>, c: int, p: int, sq: int) -> u64 {
    attacks_spec(p, sq as u64, occ_spec(b) & !through_spec(b, c, p))
}

/// The square of side `c`'s king (its lowest one).
pub open spec fn king_sq(b: Seq<u64>, c: int) -> u64 {
    vstd::std_specs::bits::u64_trailing_zeros(b[6 * c + 5]) as u64
}

/// Squares attacked by the pawns of side `c`: white pawns capture upward,
/// black pawns downward, never across the board's edge.
pub open spec fn pawn_attacks_spec(b: Seq<u64>, c: int) -> u64 {
    if c == 0 {
        ((b[0] & !FILE) << 7u64) | ((b[0] & NOTH) << 9u64)
    } else {
        ((b[6] & !FILE) >> 9u64) | ((b[6] & NOTH) >> 7u64)
    }
}

/// The first of the twelve bitboards, from index `k` on, that holds `sq`, or 12.
pub open spec fn first_piece(b: Seq<u64>, sq: int, k: int) -> int
    decreases 12 - k,
{
    if k >= 12 || k < 0 {
        12
    } else if bit(b[k], sq) {
        k
    } else {
        first_piece(b, sq, k + 1)
    }
}

/// The files next to and including file `f`.
pub open spec fn adjacent_files(f: int) -> u64 {
    (FILE << f as u64) | (if f > 0 { FILE << (f - 1) as u64 } else { 0 }) | (if f < 7 {
        FILE << (f + 1) as u64
    } else {
        0
    })
}

/// The squares a pawn of side `c` on `sq` still has to pass, with the two
/// neighbouring files.
pub open spec fn front_span(c: int, sq: int) -> u64 {
    let f = sq % 8;
    let r = sq / 8;
    let ranks = if c == 0 {
        if r >= 7 { 0u64 } else { 0xFFFF_FFFF_FFFF_FFFFu64 << (8 * (r + 1)) as u64 }
    } else {
        if r == 0 { 0u64 } else { 0xFFFF_FFFF_FFFF_FFFFu64 >> (64 - 8 * r) as u64 }
    };
    adjacent_files(f) & ranks
}

/// Whether the pawn of side `c` on `sq` is passed: no enemy pawn stands in
/// its front span.
pub open spec fn passed_spec(b: Seq<u64>, c: int, sq: int) -> bool {
    b[6 * (1 - c)] & front_span(c, sq) == 0
}

/// The placement bucket of a pawn of side `c` on `sq`, counted from the
/// side's own point of view and mirrored across the centre files; -1 on the
/// first and last rank.
pub open spec fn pst_slot(c: int, sq: int) -> int {
    let f = sq % 8;
    let rr = if c == 0 { sq / 8 } else { 7 - sq / 8 };
    if 1 <= rr <= 6 {
        PAWN_PST + 4 * (rr - 1) + (if f <= 3 { f } else { 7 - f })
    } else {
        -1
    }
}

/// The mobility slot of a piece of type `p` (knight, bishop or rook) that
/// can move to `n` squares; counts beyond the last bucket share it.
pub open spec fn mobility_slot(p: int, n: int) -> int {
    if p == KNIGHT {
        MOBILITY_KNIGHT + (if n <= 8 { n } else { 8 })
    } else if p == BISHOP {
        MOBILITY_BISHOP + (if n <= 13 { n } else { 13 })
    } else {
        MOBILITY_ROOK + (if n <= 14 { n } else { 14 })
    }
}

/// `d` in slot `slot`, 0 elsewhere.
pub open spec fn term(i: int, slot: int, d: int) -> int {
    if i == slot {
        d
    } else {
        0
    }
}

/// Attacked squares in the enemy king's surroundings of the piece of type
/// `p` and side `c` on `sq`.
pub open spec fn king_pressure(b: Seq<u64>, c: int, p: int, sq: int) -> int {
    popcount(piece_attacks_spec(b, c, p, sq) & king_spec(king_sq(b, 1 - c))) as int
}

/// What a pawn of side `c` on `sq` adds to slot `i`: its material, its
/// placement bucket, the shield of its own king and whether it is passed.
pub open spec fn pawn_delta(b: Seq<u64>, c: int, sq: int, i: int) -> int {
    let sgn = if c == 0 { 1int } else { -1int };
    term(i, 0, sgn) + term(i, pst_slot(c, sq), sgn) + term(
        i,
        PAWN_SHIELD as int,
        if bit(king_spec(king_sq(b, c)), sq) { sgn } else { 0 },
    ) + term(i, PAWN_PASSED as int, if passed_spec(b, c, sq) { sgn } else { 0 })
}

/// What a piece of type `p` (knight to queen) and side `c` on `sq` adds to
/// slot `i`: its material, its mobility bucket (but for queens) and its
/// pressure on the enemy king. Mobility counts the attacked squares that
/// hold no friendly piece and no enemy pawn attacks.
pub open spec fn piece_delta(b: Seq<u64>, c: int, p: int, sq: int, i: int) -> int {
    let sgn = if c == 0 { 1int } else { -1int };
    let att = piece_attacks_spec(b, c, p, sq);
    term(i, p, sgn) + (if p < 4 {
        term(
            i,
            mobility_slot(p, popcount(att & !(side_spec(b, c) | pawn_attacks_spec(b, 1 - c))) as int),
            sgn,
        )
    } else {
        0
    }) + term(
        i,
        KING_LINEAR as int,
        if c == 0 { king_pressure(b, c, p, sq) } else { -king_pressure(b, c, p, sq) },
    )
}

/// What the piece on square `sq` adds to feature slot `i`: positive for a
/// white piece, negative for a black one.
pub open spec fn square_delta(b: Seq<u64>, sq: int, i: int) -> int {
    let k = first_piece(b, sq, 0);
    if k >= 12 {
        0
    } else if k % 6 == 0 {
        pawn_delta(b, k / 6, sq, i)
    } else if k % 6 == 5 {
        0
    } else {
        piece_delta(b, k / 6, k % 6, sq, i)
    }
}

/// Slot `i` summed over the squares below `n`.
pub open spec fn features_upto(b: Seq<u64>, n: int, i: int) -> int
    decreases n,
{
    if n <= 0 {
        0
    } else {
        features_upto(b, n - 1, i) + square_delta(b, n - 1, i)
    }
}

/// King pressure of side `c`'s knights, bishops, rooks and queens on the
/// squares below `n`.
pub open spec fn danger_upto(b: Seq<u64>, n: int, c: int) -> int
    decreases n,
{
    if n <= 0 {
        0
    } else {
        let k = first_piece(b, n - 1, 0);
        danger_upto(b, n - 1, c) + if k < 12 && k / 6 == c && 1 <= k % 6 <= 4 {
            king_pressure(b, c, k % 6, n - 1)
        } else {
            0
        }
    }
}

/// Phase weight of a piece type: 1 for knights and bishops, 2 for rooks, 4
/// for queens, 0 for pawns and kings.
pub open spec fn phase_weight(p: int) -> int {
    if p == 1 || p == 2 {
        1
    } else if p == 3 {
        2
    } else if p == 4 {
        4
    } else {
        0
    }
}

/// Phase weights of the pieces on the squares below `n`.
pub open spec fn phase_upto(b: Seq<u64>, n: int) -> int
    decreases n,
{
    if n <= 0 {
        0
    } else {
        let k = first_piece(b, n - 1, 0);
        phase_upto(b, n - 1) + if k < 12 { phase_weight(k % 6) } else { 0 }
    }
}

/// `x` held to the range of `i16`.
pub open spec fn clamp16(x: int) -> int {
    if x > 32767 {
        32767
    } else if x < -32768 {
        -32768
    } else {
        x
    }
}

/// The feature vector of the board `b`.
pub open spec fn features_spec(b: Seq<u64>) -> Seq<int> {
    Seq::new(
        NUM_PARAMS as nat,
        |i: int|
            if i == KING_QUADRATIC {
                clamp16(danger_upto(b, 64, 0) * danger_upto(b, 64, 0) - danger_upto(b, 64, 1)
                    * danger_upto(b, 64, 1))
            } else {
                features_upto(b, 64, i)
            },
    )
}

/// The phase of the board `b`: its pieces' phase weights, at most `TPHASE`.
pub open spec fn phase_spec(b: Seq<u64>) -> int {
    let t = phase_upto(b, 64);
    if t > TPHASE {
        TPHASE as int
    } else {
        t
    }
}

/// Whether each side has a king.
pub open spec fn kings_present(b: Seq<u64>) -> bool {
    b.len() == 12 && b[5] != 0 && b[11] != 0
}

/// Squares attacked by a piece of type `pc` (knight to queen) on `from`,
/// given the blockers `occ`.
pub fn attacks_from(pc: usize, from: u64, occ: u64) -> (r: u64)
    requires
        1 <= pc <= 4,
        from < 64,
    ensures
        r == attacks_spec(pc as int, from, occ),
{
    match pc {
        KNIGHT => knight_attacks(from),
        BISHOP => batt(from, occ),
        ROOK => ratt(from, occ),
        _ => ratt(from, occ) | batt(from, occ),
    }
}

/// Over the pieces of type `pc` on the squares of `attackers` below `n`:
/// the attacked squares that hold one of `friends` (`defend`), or the other
/// attacked squares (not `defend`).
pub open spec fn mobility_sum(
    pc: int,
    attackers: u64,
    occ: u64,
    friends: u64,
    n: int,
    defend: bool,
) -> int
    decreases n,
{
    if n <= 0 {
        0
    } else {
        mobility_sum(pc, attackers, occ, friends, n - 1, defend) + if bit(attackers, n - 1) {
            popcount(attacks_spec(pc, (n - 1) as u64, occ) & if defend {
                friends
            } else {
                !friends
            }) as int
        } else {
            0
        }
    }
}

/// Squares defended (held by a friend) and attacked (the rest) by a group of
/// pieces.
pub struct MajorMobility {
    pub defend: i16,
    pub attack: i16,
}

/// Defended and attacked square counts of the pieces of type `pc` (knight
/// to queen) on `attackers`, summed over the pieces, with blockers `occ`
/// and friendly pieces `friends`.
pub fn major_mobility(pc: usize, attackers: u64, occ: u64, friends: u64) -> (r: MajorMobility)
    requires
        1 <= pc <= 4,
    ensures
        r.defend == mobility_sum(pc as int, attackers, occ, friends, 64, true),
        r.attack == mobility_sum(pc as int, attackers, occ, friends, 64, false),
{
    let mut defend: i16 = 0;
    let mut attack: i16 = 0;
    let mut sq: u64 = 0;
    while sq < 64
        invariant
            1 <= pc <= 4,
            sq <= 64,
            defend == mobility_sum(pc as int, attackers, occ, friends, sq as int, true),
            attack == mobility_sum(pc as int, attackers, occ, friends, sq as int, false),
            0 <= defend <= 64 * sq,
            0 <= attack <= 64 * sq,
        decreases 64 - sq,
    {
        if (attackers >> sq) & 1 == 1 {
            let a = attacks_from(pc, sq, occ);
            let d = count(a & friends);
            let t = count(a & !friends);
            proof {
                lemma_popcount_bound(a & friends);
                lemma_popcount_bound(a & !friends);
            }
            defend = defend + d as i16;
            attack = attack + t as i16;
        }
        sq += 1;
    }
    MajorMobility { defend, attack }
}

proof fn lemma_disjoint_bits(a1: u64, a2: u64, i: u64)
    by (bit_vector)
    requires
        i < 64,
        a1 & a2 == 0,
    ensures
        (((a1 | a2) >> i) & 1 == 1) == (((a1 >> i) & 1 == 1) || ((a2 >> i) & 1 == 1)),
        !(((a1 >> i) & 1 == 1) && ((a2 >> i) & 1 == 1)),
{
}

/// The counts of two groups with no square in common add up: the counts of
/// their union are the sums of theirs, and an empty group counts nothing.
pub proof fn lemma_mobility_additive(
    pc: int,
    a1: u64,
    a2: u64,
    occ: u64,
    friends: u64,
    n: int,
    defend: bool,
)
    requires
        a1 & a2 == 0,
        0 <= n <= 64,
    ensures
        mobility_sum(pc, a1 | a2, occ, friends, n, defend) == mobility_sum(
            pc,
            a1,
            occ,
            friends,
            n,
            defend,
        ) + mobility_sum(pc, a2, occ, friends, n, defend),
        mobility_sum(pc, 0, occ, friends, n, defend) == 0,
    decreases n,
{
    if n > 0 {
        lemma_mobility_additive(pc, a1, a2, occ, friends, n - 1, defend);
        lemma_disjoint_bits(a1, a2, (n - 1) as u64);
        lemma_zero_bit((n - 1) as u64);
    }
}

/// Squares attacked by the piece of type `p` and side `c` on `sq`.
fn piece_attacks(b: &Vec<u64>, c: usize, p: usize, sq: u64, occ: u64) -> (r: u64)
    requires
        b@.len() == 12,
        c < 2,
        1 <= p <= 4,
        sq < 64,
        occ == occ_spec(b@),
    ensures
        r == piece_attacks_spec(b@, c as int, p as int, sq as int),
{
    let e = 1 - c;
    let q = b[4] | b[10];
    let through = if p == ROOK {
        b[6 * c + 3] | b[6 * e + 5] | q
    } else if p == QUEEN {
        b[6 * c + 2] | b[6 * c + 3] | b[6 * e + 5]
    } else if p == BISHOP {
        b[6 * e + 5] | b[6 * e + 3] | q
    } else {
        0
    };
    attacks_from(p, sq, occ & !through)
}

/// The first of the twelve bitboards that holds `sq`, or 12.
fn find_piece(b: &Vec<u64>, sq: u64) -> (r: usize)
    requires
        b@.len() == 12,
        sq < 64,
    ensures
        r == first_piece(b@, sq as int, 0),
        r <= 12,
{
    let mut k: usize = 0;
    while k < 12
        invariant
            k <= 12,
            b@.len() == 12,
            sq < 64,
            first_piece(b@, sq as int, 0) == first_piece(b@, sq as int, k as int),
        decreases 12 - k,
    {
        if (b[k] >> sq) & 1 == 1 {
            return k;
        }
        k += 1;
    }
    12
}

/// The placement slot of a pawn of side `c` on `sq`, or `NUM_PARAMS` where
/// it has none.
fn pst_index(c: usize, sq: u64) -> (r: usize)
    requires
        c < 2,
        sq < 64,
    ensures
        pst_slot(c as int, sq as int) == -1 ==> r == NUM_PARAMS,
        pst_slot(c as int, sq as int) != -1 ==> r == pst_slot(c as int, sq as int),
        pst_slot(c as int, sq as int) != -1 ==> PAWN_PST <= r < PAWN_SHIELD,
{
    let f = (sq % 8) as usize;
    let rr = if c == 0 { (sq / 8) as usize } else { 7 - (sq / 8) as usize };
    if 1 <= rr && rr <= 6 {
        PAWN_PST + 4 * (rr - 1) + if f <= 3 { f } else { 7 - f }
    } else {
        NUM_PARAMS
    }
}

/// The mobility slot of a piece of type `p` that can move to `n` squares.
fn mobility_index(p: usize, n: u32) -> (r: usize)
    requires
        1 <= p <= 3,
    ensures
        r == mobility_slot(p as int, n as int),
        MOBILITY_KNIGHT <= r < KING_LINEAR,
{
    if p == KNIGHT {
        MOBILITY_KNIGHT + if n <= 8 { n as usize } else { 8 }
    } else if p == BISHOP {
        MOBILITY_BISHOP + if n <= 13 { n as usize } else { 13 }
    } else {
        MOBILITY_ROOK + if n <= 14 { n as usize } else { 14 }
    }
}

/// Whether the pawn of side `c` on `sq` is passed.
fn is_passed(b: &Vec<u64>, c: usize, sq: u64) -> (r: bool)
    requires
        b@.len() == 12,
        c < 2,
        sq < 64,
    ensures
        r == passed_spec(b@, c as int, sq as int),
{
    let f = sq % 8;
    let r = sq / 8;
    let files = (FILE << f) | (if f > 0 { FILE << (f - 1) } else { 0 }) | (if f < 7 {
        FILE << (f + 1)
    } else {
        0
    });
    let ranks = if c == 0 {
        if r >= 7 { 0u64 } else { 0xFFFF_FFFF_FFFF_FFFFu64 << (8 * (r + 1)) }
    } else {
        if r == 0 { 0u64 } else { 0xFFFF_FFFF_FFFF_FFFFu64 >> (64 - 8 * r) }
    };
    b[6 * (1 - c)] & (files & ranks) == 0
}

/// `n` zeros.
fn zeros(n: usize) -> (v: Vec<i16>)
    ensures
        v@ == Seq::new(n as nat, |i: int| 0i16),
{
    let mut v: Vec<i16> = Vec::new();
    let mut k: usize = 0;
    while k < n
        invariant
            k <= n,
            v@ == Seq::new(k as nat, |i: int| 0i16),
        decreases n - k,
    {
        v.push(0);
        k += 1;
        assert(v@ =~= Seq::new(k as nat, |i: int| 0i16));
    }
    v
}

/// Adds `d` to slot `i`.
fn bump(vals: &mut Vec<i16>, i: usize, d: i16)
    requires
        i < old(vals)@.len(),
        -32768 <= old(vals)@[i as int] + d <= 32767,
    ensures
        final(vals)@ == old(vals)@.update(i as int, (old(vals)@[i as int] + d) as i16),
{
    let v = vals[i] + d;
    vals.set(i, v);
}

pub proof fn lemma_square_delta_bound(b: Seq<u64>, sq: int, i: int)
    requires
        b.len() == 12,
    ensures
        -64 <= square_delta(b, sq, i) <= 64,
{
    let k = first_piece(b, sq, 0);
    if k < 12 && 1 <= k % 6 <= 4 {
        let att = piece_attacks_spec(b, k / 6, k % 6, sq);
        lemma_popcount_bound(att & king_spec(king_sq(b, 1 - k / 6)));
    }
}

/// Adds what a pawn of side `c` on `sq` contributes; `own_ring` is the
/// surroundings of its own king.
fn add_pawn(b: &Vec<u64>, c: usize, sq: u64, own_ring: u64, vals: &mut Vec<i16>)
    requires
        b@.len() == 12,
        c < 2,
        sq < 64,
        own_ring == king_spec(king_sq(b@, c as int)),
        old(vals)@.len() == NUM_PARAMS,
        forall|i: int| 0 <= i < NUM_PARAMS ==> -4032 <= #[trigger] old(vals)@[i] <= 4032,
    ensures
        final(vals)@.len() == NUM_PARAMS,
        forall|i: int|
            0 <= i < NUM_PARAMS ==> final(vals)@[i] as int == old(vals)@[i] + #[trigger] pawn_delta(
                b@,
                c as int,
                sq as int,
                i,
            ),
{
    let sgn: i16 = if c == 0 { 1 } else { -1 };
    bump(vals, 0, sgn);
    let ps = pst_index(c, sq);
    if ps < NUM_PARAMS {
        bump(vals, ps, sgn);
    }
    if (own_ring >> sq) & 1 == 1 {
        bump(vals, PAWN_SHIELD, sgn);
    }
    if is_passed(b, c, sq) {
        bump(vals, PAWN_PASSED, sgn);
    }
}

/// Adds what a piece of type `p` (knight to queen) and side `c` on `sq`
/// contributes, and returns its pressure on the enemy king.
fn add_piece(
    b: &Vec<u64>,
    c: usize,
    p: usize,
    sq: u64,
    occ: u64,
    avoid: u64,
    enemy_ring: u64,
    vals: &mut Vec<i16>,
) -> (pres: i16)
    requires
        b@.len() == 12,
        c < 2,
        1 <= p <= 4,
        sq < 64,
        occ == occ_spec(b@),
        avoid == side_spec(b@, c as int) | pawn_attacks_spec(b@, 1 - c),
        enemy_ring == king_spec(king_sq(b@, 1 - c)),
        old(vals)@.len() == NUM_PARAMS,
        forall|i: int| 0 <= i < NUM_PARAMS ==> -4032 <= #[trigger] old(vals)@[i] <= 4032,
    ensures
        final(vals)@.len() == NUM_PARAMS,
        forall|i: int|
            0 <= i < NUM_PARAMS ==> final(vals)@[i] as int == old(vals)@[i] + #[trigger] piece_delta(
                b@,
                c as int,
                p as int,
                sq as int,
                i,
            ),
        pres == king_pressure(b@, c as int, p as int, sq as int),
        0 <= pres <= 64,
{
    let sgn: i16 = if c == 0 { 1 } else { -1 };
    let att = piece_attacks(b, c, p, sq, occ);
    bump(vals, p, sgn);
    if p < 4 {
        let n = count(att & !avoid);
        let mi = mobility_index(p, n);
        bump(vals, mi, sgn);
    }
    let pc = count(att & enemy_ring);
    proof {
        lemma_popcount_bound(att & enemy_ring);
    }
    let pres = pc as i16;
    bump(vals, KING_LINEAR, if c == 0 { pres } else { -pres });
    pres
}

/// The phase of the board `b`: its pieces' phase weights, at most `TPHASE`.
pub fn board_phase(b: &Vec<u64>) -> (r: i16)
    requires
        b@.len() == 12,
    ensures
        r as int == phase_spec(b@),
        0 <= r <= TPHASE,
{
    let mut phase: i16 = 0;
    let mut sq: u64 = 0;
    while sq < 64
        invariant
            b@.len() == 12,
            sq <= 64,
            phase == phase_upto(b@, sq as int),
            0 <= phase <= 4 * sq,
        decreases 64 - sq,
    {
        let k = find_piece(b, sq);
        if k < 12 {
            let p = k % 6;
            phase = phase + if p == 1 || p == 2 { 1 } else if p == 3 { 2 } else if p == 4 { 4 } else { 0 };
        }
        sq += 1;
    }
    if phase > TPHASE as i16 { TPHASE as i16 } else { phase }
}

/// The feature vector of the board `b`, whose sides each have a king.
pub fn extract(b: &Vec<u64>) -> (r: Vec<i16>)
    requires
        kings_present(b@),
    ensures
        r@.len() == NUM_PARAMS,
        forall|i: int| 0 <= i < NUM_PARAMS ==> r@[i] as int == #[trigger] features_spec(b@)[i],
{
    let white = b[0] | b[1] | b[2] | b[3] | b[4] | b[5];
    let black = b[6] | b[7] | b[8] | b[9] | b[10] | b[11];
    let occ = white | black;
    let wpa = ((b[0] & !FILE) << 7) | ((b[0] & NOTH) << 9);
    let bpa = ((b[6] & !FILE) >> 9) | ((b[6] & NOTH) >> 7);
    proof {
        vstd::std_specs::bits::axiom_u64_trailing_zeros(b@[5]);
        vstd::std_specs::bits::axiom_u64_trailing_zeros(b@[11]);
    }
    let wk = b[5].trailing_zeros() as u64;
    let bk = b[11].trailing_zeros() as u64;
    let wring = king_attacks(wk);
    let bring = king_attacks(bk);
    let mut vals = zeros(NUM_PARAMS);
    let mut dw: i64 = 0;
    let mut db: i64 = 0;
    let mut sq: u64 = 0;
    while sq < 64
        invariant
            kings_present(b@),
            sq <= 64,
            white == side_spec(b@, 0),
            black == side_spec(b@, 1),
            occ == occ_spec(b@),
            wpa == pawn_attacks_spec(b@, 0),
            bpa == pawn_attacks_spec(b@, 1),
            wring == king_spec(king_sq(b@, 0)),
            bring == king_spec(king_sq(b@, 1)),
            vals@.len() == NUM_PARAMS,
            forall|i: int|
                0 <= i < NUM_PARAMS ==> vals@[i] as int == #[trigger] features_upto(b@, sq as int, i),
            forall|i: int| 0 <= i < NUM_PARAMS ==> -64 * sq <= #[trigger] vals@[i] <= 64 * sq,
            dw == danger_upto(b@, sq as int, 0),
            db == danger_upto(b@, sq as int, 1),
            0 <= dw <= 64 * sq,
            0 <= db <= 64 * sq,
        decreases 64 - sq,
    {
        let k = find_piece(b, sq);
        let ghost before = vals@;
        if k < 12 {
            let c = k / 6;
            let p = k % 6;
            if p == 0 {
                let own_ring = if c == 0 { wring } else { bring };
                add_pawn(b, c, sq, own_ring, &mut vals);
            } else if p < 5 {
                let avoid = if c == 0 { white | bpa } else { black | wpa };
                let enemy_ring = if c == 0 { bring } else { wring };
                let pres = add_piece(b, c, p, sq, occ, avoid, enemy_ring, &mut vals);
                if c == 0 {
                    dw = dw + pres as i64;
                } else {
                    db = db + pres as i64;
                }
            }
        }
        assert forall|i: int| 0 <= i < NUM_PARAMS implies #[trigger] vals@[i] as int == features_upto(
            b@,
            sq + 1,
            i,
        ) && -64 * (sq + 1) <= vals@[i] <= 64 * (sq + 1) by {
            lemma_square_delta_bound(b@, sq as int, i);
            assert(vals@[i] == before[i] + square_delta(b@, sq as int, i));
            assert(features_upto(b@, sq + 1, i) == features_upto(b@, sq as int, i) + square_delta(
                b@,
                sq as int,
                i,
            ));
            assert(-64 * sq <= before[i] <= 64 * sq);
            assert(before[i] == features_upto(b@, sq as int, i));
        }
        sq += 1;
    }
    assert(dw * dw <= 4096 * 4096 && db * db <= 4096 * 4096) by (nonlinear_arith)
        requires 0 <= dw <= 4096, 0 <= db <= 4096;
    let quad = dw * dw - db * db;
    let q16: i16 = if quad > 32767 { 32767 } else if quad < -32768 { -32768 } else { quad as i16 };
    vals.set(KING_QUADRATIC, q16);
    assert forall|i: int| 0 <= i < NUM_PARAMS implies vals@[i] as int == #[trigger] features_spec(b@)[i] by {}
    vals
}

/// Whether the only pieces of `b` are the two kings, one of each side.
pub open spec fn kings_only(b: Seq<u64>) -> bool {
    &&& b.len() == 12
    &&& popcount(b[5]) == 1
    &&& popcount(b[11]) == 1
    &&& forall|k: int| 0 <= k < 12 && k != 5 && k != 11 ==> #[trigger] b[k] == 0
}

proof fn lemma_first_piece_skip(b: Seq<u64>, sq: int, k: int)
    requires
        0 <= k < 12,
        0 <= sq < 64,
        b[k] == 0,
    ensures
        first_piece(b, sq, k) == first_piece(b, sq, k + 1),
{
    lemma_zero_bit(sq as u64);
}

proof fn lemma_kings_only_square(b: Seq<u64>, sq: int)
    requires
        kings_only(b),
        0 <= sq < 64,
    ensures
        first_piece(b, sq, 0) == 5 || first_piece(b, sq, 0) == 11 || first_piece(b, sq, 0) == 12,
{
    assert(first_piece(b, sq, 12) == 12);
    lemma_first_piece_skip(b, sq, 10);
    lemma_first_piece_skip(b, sq, 9);
    lemma_first_piece_skip(b, sq, 8);
    lemma_first_piece_skip(b, sq, 7);
    lemma_first_piece_skip(b, sq, 6);
    assert(first_piece(b, sq, 6) == 11 || first_piece(b, sq, 6) == 12);
    lemma_first_piece_skip(b, sq, 4);
    lemma_first_piece_skip(b, sq, 3);
    lemma_first_piece_skip(b, sq, 2);
    lemma_first_piece_skip(b, sq, 1);
    lemma_first_piece_skip(b, sq, 0);
}

proof fn lemma_kings_only_upto(b: Seq<u64>, n: int, i: int)
    requires
        kings_only(b),
        0 <= n <= 64,
    ensures
        features_upto(b, n, i) == 0,
        danger_upto(b, n, 0) == 0,
        danger_upto(b, n, 1) == 0,
        phase_upto(b, n) == 0,
    decreases n,
{
    lemma_popcount_zero();
    if n > 0 {
        lemma_kings_only_upto(b, n - 1, i);
        lemma_kings_only_square(b, n - 1);
    }
}

/// A board holding nothing but the two kings has every feature zero and
/// phase zero.
pub proof fn lemma_kings_only_features(b: Seq<u64>)
    requires
        kings_only(b),
    ensures
        forall|i: int| 0 <= i < NUM_PARAMS ==> #[trigger] features_spec(b)[i] == 0,
        phase_spec(b) == 0,
{
    lemma_popcount_zero();
    assert forall|i: int| 0 <= i < NUM_PARAMS implies #[trigger] features_spec(b)[i] == 0 by {
        lemma_kings_only_upto(b, 64, i);
    }
    lemma_kings_only_upto(b, 64, 0);
}

} // verus!
