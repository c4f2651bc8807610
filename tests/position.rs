use texel::consts::{
    BISHOP, KING_LINEAR, KING_QUADRATIC, KNIGHT, MOBILITY_BISHOP, MOBILITY_KNIGHT, MOBILITY_ROOK,
    NUM_PARAMS, PAWN, PAWN_PASSED, PAWN_PST, PAWN_SHIELD, QUEEN, ROOK,
};
use texel::eval::major_mobility;
use texel::position::new_boards;
use texel::{set_pos_vals, Outcome, ParseError, Position, S};

const START: &str = "rnbqkbnr/pppppppp/8/8/8/8/PPPPPPPP/RNBQKBNR w KQkq - c9 \"1/2-1/2\";";

fn sigmoid(k: f64, eval: i64) -> f64 {
    1.0 / (1.0 + 10f64.powf(-k * eval as f64 / 100.0))
}

#[test]
fn starting_position_is_balanced() {
    let p = Position::from_epd(START).unwrap();
    assert_eq!(p.phase(), 24);
    assert_eq!(p.result(), Outcome::Draw);
    assert_eq!(p.result().half_points(), 1);
    assert_eq!(p.vals().len(), NUM_PARAMS);
    for i in PAWN..=QUEEN {
        assert_eq!(p.vals()[i], 0);
    }
    for i in MOBILITY_KNIGHT..MOBILITY_ROOK + 15 {
        assert_eq!(p.vals()[i], 0);
    }
    assert!(p.vals().iter().all(|&v| v == 0));
}

#[test]
fn kings_only_board_has_no_features() {
    let p = Position::from_epd("4k3/8/8/8/8/8/8/4K3 w - - 0 1 \"1/2-1/2\";").unwrap();
    assert_eq!(p.phase(), 0);
    assert!(p.vals().iter().all(|&v| v == 0));
    let q = Position::from_epd("K7/8/8/8/8/8/8/7k b - - c9 \"1-0\";").unwrap();
    assert_eq!(q.phase(), 0);
    assert!(q.vals().iter().all(|&v| v == 0));
}

#[test]
fn result_annotations() {
    let win = Position::from_epd("4k3/8/8/8/8/8/8/4K3 w - - c9 \"1-0\";").unwrap();
    let loss = Position::from_epd("4k3/8/8/8/8/8/8/4K3 w - - c9 \"0-1\";").unwrap();
    let draw = Position::from_epd("4k3/8/8/8/8/8/8/4K3 w - - c9 \"1/2-1/2\";").unwrap();
    let other = Position::from_epd("4k3/8/8/8/8/8/8/4K3 w - - c9 \"*\";").unwrap();
    assert_eq!(win.result(), Outcome::Win);
    assert_eq!(win.result().half_points(), 2);
    assert_eq!(loss.result(), Outcome::Loss);
    assert_eq!(loss.result().half_points(), 0);
    assert_eq!(draw.result(), Outcome::Draw);
    assert_eq!(other.result(), Outcome::Draw);
}

#[test]
fn extra_queen_for_the_first_side() {
    let p = Position::from_epd(
        "rnbqkbnr/pppppppp/8/8/8/3Q4/PPPPPPPP/RNBQKBNR w KQkq - c9 \"1/2-1/2\";",
    )
    .unwrap();
    assert_eq!(p.vals()[QUEEN], 1);
    for i in PAWN..QUEEN {
        assert_eq!(p.vals()[i], 0);
    }
    assert_eq!(p.phase(), 24);
    let w = S::init();
    let eval = p.score(&w);
    assert!(eval > 0);
    for k in [0.1, 0.4, 1.0, 2.5] {
        assert!(sigmoid(k, eval) > 0.5);
    }
}

#[test]
fn malformed_records() {
    assert_eq!(
        Position::from_epd("4k3/8/8/8/8/8/8/4X3 w - - c9 \"1-0\";").unwrap_err(),
        ParseError::InvalidBoard
    );
    assert_eq!(
        Position::from_epd("4k3/8/8/8/8/8/8/8/4K3 w - - c9 \"1-0\";").unwrap_err(),
        ParseError::InvalidBoard
    );
    assert_eq!(
        Position::from_epd("4k4/8/8/8/8/8/8/4K3 w - - c9 \"1-0\";").unwrap_err(),
        ParseError::InvalidBoard
    );
    assert_eq!(
        Position::from_epd("4k3/8/8/8/8/8/4K3 w - - c9 \"1-0\";").unwrap_err(),
        ParseError::InvalidBoard
    );
    assert_eq!(Position::from_epd("").unwrap_err(), ParseError::InvalidBoard);
    assert_eq!(
        Position::from_epd("4k3/8/8/8/8/8/8/4K3").unwrap_err(),
        ParseError::MissingFields
    );
    assert_eq!(
        Position::from_epd("4k3/8/8/8/8/8/8/4K3 w").unwrap_err(),
        ParseError::MissingResult
    );
    assert_eq!(
        Position::from_epd("4k3/8/8/8/8/8/8/4K3 w - -").unwrap_err(),
        ParseError::MissingResult
    );
    assert_eq!(
        Position::from_epd("4k3/8/8/8/8/8/8/4K3 w - - c9 \"1-0\"").unwrap_err(),
        ParseError::MissingResult
    );
    assert_eq!(
        Position::from_epd("4k3/8/8/8/8/8/8/4K3 \";").unwrap_err(),
        ParseError::MissingResult
    );
    assert_eq!(
        Position::from_epd("8/8/8/8/8/8/8/4K3 w - - c9 \"1-0\";").unwrap_err(),
        ParseError::KingCount
    );
    assert_eq!(
        Position::from_epd("4k3/8/8/8/8/8/8/3KK3 w - - c9 \"1-0\";").unwrap_err(),
        ParseError::KingCount
    );
}

#[test]
fn pawn_features() {
    // White pawn on e5 (passed), black pawn on a7; kings on g1 and g8.
    let p = Position::from_epd("6k1/p7/8/4P3/8/8/8/6K1 w - - c9 \"1-0\";").unwrap();
    assert_eq!(p.vals()[PAWN], 0);
    // e5: rank 4 from white's side, file e mirrors to d: bucket 4*3 + 3.
    assert_eq!(p.vals()[PAWN_PST + 15], 1);
    // a7: rank 1 from black's side, file a: bucket 0.
    assert_eq!(p.vals()[PAWN_PST], -1);
    // Both pawns are passed.
    assert_eq!(p.vals()[PAWN_PASSED], 0);
    assert_eq!(p.vals()[PAWN_SHIELD], 0);
    // A white pawn on f2 shields the king on g1 and is passed; the white
    // b-pawn and the black a-pawn stand in each other's way.
    let q = Position::from_epd("6k1/p7/8/8/8/8/1P3P2/6K1 w - - c9 \"1-0\";").unwrap();
    assert_eq!(q.vals()[PAWN], 1);
    assert_eq!(q.vals()[PAWN_SHIELD], 1);
    assert_eq!(q.vals()[PAWN_PASSED], 1);
}

#[test]
fn mobility_and_king_pressure() {
    // White knight on a1 and black king far away: knight moves to b3 and c2.
    let p = Position::from_epd("7k/8/8/8/8/8/8/N3K3 w - - c9 \"1-0\";").unwrap();
    assert_eq!(p.vals()[KNIGHT], 1);
    assert_eq!(p.vals()[MOBILITY_KNIGHT + 2], 1);
    assert_eq!(p.phase(), 1);
    // White rook on h1 attacks the black king's surroundings on the h file.
    let q = Position::from_epd("k7/8/8/8/8/8/8/4K2R w - - c9 \"1-0\";").unwrap();
    assert_eq!(q.vals()[ROOK], 1);
    // The rook sees h2..h8 and g1, f1 (the white king on e1 blocks).
    assert_eq!(q.vals()[MOBILITY_ROOK + 9], 1);
    assert_eq!(q.vals()[KING_LINEAR], 0);
    let r = Position::from_epd("k7/8/8/8/8/8/8/1R2K3 w - - c9 \"1-0\";").unwrap();
    // Rook on b1 covers b7 and b8 next to the king on a8.
    assert_eq!(r.vals()[KING_LINEAR], 2);
    assert_eq!(r.vals()[KING_QUADRATIC], 4);
    assert_eq!(r.phase(), 2);
    // Squares attacked by enemy pawns do not count: black pawns on a4 and c4
    // cover b3, and d3, leaving the a1 knight only c2.
    let s = Position::from_epd("7k/8/8/8/p1p5/8/8/N3K3 w - - c9 \"1-0\";").unwrap();
    assert_eq!(s.vals()[MOBILITY_KNIGHT + 1], 1);
    assert_eq!(s.vals()[MOBILITY_KNIGHT + 2], 0);
    let b = Position::from_epd("k7/8/8/8/8/8/8/2B1K3 w - - c9 \"1-0\";").unwrap();
    assert_eq!(b.vals()[BISHOP], 1);
    // Bishop on c1: b2, a3 and d2..h6.
    assert_eq!(b.vals()[MOBILITY_BISHOP + 7], 1);
}

#[test]
fn score_tapers_with_phase() {
    let w = S::init();
    let p = Position::from_epd("4k3/8/8/8/8/8/8/3QK3 w - - c9 \"1-0\";").unwrap();
    assert_eq!(p.phase(), 4);
    assert_eq!(p.score(&w), 900);
    let mut w2 = w.clone();
    w2[QUEEN] = S(1000, 800);
    // (4 * 1000 + 20 * 800) / 24 = 833
    assert_eq!(p.score(&w2), 833);
}

#[test]
fn set_pos_vals_keeps_phase_and_result() {
    let mut p = Position::from_epd(START).unwrap();
    assert_eq!(p.phase(), 24);
    let mut b = new_boards();
    b[5] = 1 << 4;
    b[11] = 1 << 60;
    set_pos_vals(&mut p, &b);
    assert_eq!(p.phase(), 24);
    assert_eq!(p.result(), Outcome::Draw);
    assert!(p.vals().iter().all(|&v| v == 0));
}

#[test]
fn defended_and_attacked_counts() {
    // Rooks on a1 and h1, a friend on a2, nothing else.
    let a1 = 1u64;
    let h1 = 1u64 << 7;
    let a2 = 1u64 << 8;
    let occ = a1 | h1 | a2;
    let friends = occ;
    let one = major_mobility(3, a1, occ, friends);
    // a1 sees a2 (friend) and b1..h1 (h1 a friend).
    assert_eq!((one.defend, one.attack), (2, 6));
    let other = major_mobility(3, h1, occ, friends);
    // h1 sees h2..h8 and g1..a1 (a1 a friend).
    assert_eq!((other.defend, other.attack), (1, 13));
    let both = major_mobility(3, a1 | h1, occ, friends);
    assert_eq!((both.defend, both.attack), (3, 19));
    let none = major_mobility(1, 0, occ, friends);
    assert_eq!((none.defend, none.attack), (0, 0));
    // A knight on b1 attacks a3, c3 and d2.
    let n = major_mobility(1, 1 << 1, 0, 1 << 11);
    assert_eq!((n.defend, n.attack), (1, 2));
}
