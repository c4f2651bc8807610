use texel::attacks::{bishop_mask, king_attacks, knight_attacks, rook_mask};
use texel::{batt, ratt};

fn walk(sq: u64, occ: u64, dirs: &[(i64, i64)]) -> u64 {
    let mut out = 0u64;
    for &(df, dr) in dirs {
        let (mut f, mut r) = ((sq % 8) as i64, (sq / 8) as i64);
        loop {
            f += df;
            r += dr;
            if !(0..8).contains(&f) || !(0..8).contains(&r) {
                break;
            }
            let b = 1u64 << (8 * r + f);
            out |= b;
            if occ & b != 0 {
                break;
            }
        }
    }
    out
}

const DIAGONALS: [(i64, i64); 4] = [(1, 1), (1, -1), (-1, 1), (-1, -1)];
const LINES: [(i64, i64); 4] = [(1, 0), (-1, 0), (0, 1), (0, -1)];

fn next(state: &mut u64) -> u64 {
    *state ^= *state << 13;
    *state ^= *state >> 7;
    *state ^= *state << 17;
    *state
}

#[test]
fn bishop_matches_ray_walk() {
    let mut s = 0x9E37_79B9_7F4A_7C15u64;
    for sq in 0..64u64 {
        for _ in 0..200 {
            let occ = next(&mut s) & next(&mut s);
            assert_eq!(batt(sq, occ), walk(sq, occ, &DIAGONALS), "square {sq} occ {occ:#x}");
        }
        assert_eq!(batt(sq, 0), walk(sq, 0, &DIAGONALS));
        assert_eq!(batt(sq, u64::MAX), walk(sq, u64::MAX, &DIAGONALS));
    }
}

#[test]
fn rook_matches_ray_walk() {
    let mut s = 0x0123_4567_89AB_CDEFu64;
    for sq in 0..64u64 {
        for _ in 0..200 {
            let occ = next(&mut s) & next(&mut s);
            assert_eq!(ratt(sq, occ), walk(sq, occ, &LINES), "square {sq} occ {occ:#x}");
        }
        assert_eq!(ratt(sq, 0), walk(sq, 0, &LINES));
        assert_eq!(ratt(sq, u64::MAX), walk(sq, u64::MAX, &LINES));
    }
}

#[test]
fn lone_pieces_reach_the_edges() {
    // Rook on a1: the a file and the first rank.
    assert_eq!(ratt(0, 0), 0x0101_0101_0101_01FE);
    // Bishop on d4 (square 27).
    assert_eq!(batt(27, 0), 0x8041_2214_0014_2241);
    // Rook on d4 with blockers on d6 and f4.
    let occ = (1u64 << 43) | (1u64 << 29);
    assert_eq!(ratt(27, occ), walk(27, occ, &LINES));
    assert_eq!(ratt(27, occ).count_ones(), 3 + 2 + 2 + 3);
}

#[test]
fn masks_and_jump_tables() {
    let m = bishop_mask(0);
    assert_eq!(m.bit, 1);
    assert_eq!(m.right, 0x8040_2010_0804_0200);
    assert_eq!(m.left, 0);
    assert_eq!(m.file, 1u64 << 56);
    let r = rook_mask(9);
    assert_eq!(r.left, 1u64 << 8);
    assert_eq!(r.right, 0xFC00);
    assert_eq!(r.file, 0x0202_0202_0202_0002);
    assert_eq!(knight_attacks(0), (1u64 << 10) | (1u64 << 17));
    assert_eq!(knight_attacks(27).count_ones(), 8);
    assert_eq!(king_attacks(0), (1u64 << 1) | (1u64 << 8) | (1u64 << 9));
    assert_eq!(king_attacks(27).count_ones(), 8);
}
