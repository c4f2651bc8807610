use vstd::prelude::*;

verus! {

/// Phase value of a board holding all of its starting pieces.
pub const TPHASE: i32 = 24;

/// Number of feature slots, and of weights.
pub const NUM_PARAMS: usize = 71;
/// Pawn placement buckets.
pub const PST_SQUARES: usize = 24;
/// Attack-count buckets per piece type.
pub const DISTINCT_KNIGHT_ATTACKS: usize = 9;
pub const DISTINCT_BISHOP_ATTACKS: usize = 14;
pub const DISTINCT_ROOK_ATTACKS: usize = 15;

/// Storage locations of the features.
pub const PAWN_PST: usize = 5;
pub const PAWN_SHIELD: usize = 29;
pub const MOBILITY_KNIGHT: usize = 30;
pub const MOBILITY_BISHOP: usize = 39;
pub const MOBILITY_ROOK: usize = 53;
pub const KING_LINEAR: usize = 68;
pub const KING_QUADRATIC: usize = 69;
pub const PAWN_PASSED: usize = 70;

/// Piece types.
pub const PAWN: usize = 0;
pub const KNIGHT: usize = 1;
pub const BISHOP: usize = 2;
pub const ROOK: usize = 3;
pub const QUEEN: usize = 4;
pub const KING: usize = 5;

/// Sides.
pub const WHITE: usize = 0;
pub const BLACK: usize = 1;

/// The A file, and every square off the H file.
pub const FILE: u64 = 0x0101010101010101;
pub const NOTH: u64 = 0x7f7f7f7f7f7f7f7f;

} // verus!
