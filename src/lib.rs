//! Texel tuning of a tapered chess evaluation: bitboard attack generation,
//! position feature extraction, tapered scoring and the decision logic of
//! the two searches (the logistic scale constant and the weights).
use vstd::prelude::*;

pub mod attacks;
pub mod bits;
pub mod consts;
pub mod eval;
pub mod kcal;
pub mod position;
pub mod rays;
pub mod score;
pub mod tuner;

pub use attacks::{batt, ratt, Mask};
pub use kcal::{KSearch, KStage};
pub use position::{set_pos_vals, Outcome, ParseError, Position};
pub use score::S;
pub use tuner::Tuner;

verus! {

} // verus!
