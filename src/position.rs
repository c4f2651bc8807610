use vstd::prelude::*;
use crate::bits::{count, lemma_popcount_zero, popcount};
use vstd::string::StringSliceAdditionalSpecFns;
use crate::consts::{NUM_PARAMS, TPHASE};
use crate::score::{eval, eval_spec, S};
use crate::eval::{
    board_phase, extract, features_spec, kings_only, kings_present, lemma_kings_only_features, phase_spec,
};

verus! {

/// Game result recorded with a position, from the first side's point of view.
#[derive(Clone, Copy, Debug, PartialEq, Eq, Structural)]
pub enum Outcome {
    Loss,
    Draw,
    Win,
}

impl Outcome {
    /// The result label in half points: 0 for a loss, 1 for a draw, 2 for a win.
    pub fn half_points(self) -> (r: u8)
        ensures
            r == outcome_halves(self),
    {
        match self {
            Outcome::Loss => 0,
            Outcome::Draw => 1,
            Outcome::Win => 2,
        }
    }
}

pub open spec fn outcome_halves(o: Outcome) -> u8 {
    match o {
        Outcome::Loss => 0,
        Outcome::Draw => 1,
        Outcome::Win => 2,
    }
}

/// Why a position record was refused.
#[derive(Clone, Copy, Debug, PartialEq, Eq, Structural)]
pub enum ParseError {
    /// The board field is not eight ranks of eight squares written with piece
    /// letters, digits 1 to 8 and slashes.
    InvalidBoard,
    /// Nothing follows the board field.
    MissingFields,
    /// The record does not end with a result annotation: a quoted token
    /// after the board field, followed by `;`.
    MissingResult,
    /// A side does not have exactly one king.
    KingCount,
}

/// Index of a piece letter among the twelve bitboards (white pawn to black
/// king), or 12 for any other byte.
pub open spec fn piece_code_spec(c: u8) -> int {
    if c == 80 { 0 }        // 'P'
    else if c == 78 { 1 }   // 'N'
    else if c == 66 { 2 }   // 'B'
    else if c == 82 { 3 }   // 'R'
    else if c == 81 { 4 }   // 'Q'
    else if c == 75 { 5 }   // 'K'
    else if c == 112 { 6 }  // 'p'
    else if c == 110 { 7 }  // 'n'
    else if c == 98 { 8 }   // 'b'
    else if c == 114 { 9 }  // 'r'
    else if c == 113 { 10 } // 'q'
    else if c == 107 { 11 } // 'k'
    else { 12 }
}

/// Twelve empty bitboards.
pub open spec fn empty_boards() -> Seq<u64> {
    Seq::new(12, |i: int| 0u64)
}

/// Reads the board field of `s` from index `i`, with the next square at rank
/// `row` and file `col` and the pieces read so far in `b`. Ranks come top
/// first, separated by `/`; a digit skips that many empty squares. The field
/// ends at the first space or at the end of the text, and must then have
/// filled all eight ranks. Gives the bitboards and the index where it ended.
pub open spec fn walk_board(s: Seq<u8>, i: int, row: int, col: int, b: Seq<u64>) -> Option<
    (Seq<u64>, int),
>
    decreases s.len() - i,
{
    if i < 0 || i >= s.len() || s[i] == 32 {
        if row == 0 && col == 8 {
            Some((b, i))
        } else {
            None
        }
    } else if s[i] == 47 {
        if col == 8 && row > 0 {
            walk_board(s, i + 1, row - 1, 0, b)
        } else {
            None
        }
    } else if 49 <= s[i] <= 56 {
        if col + (s[i] - 48) <= 8 {
            walk_board(s, i + 1, row, col + (s[i] - 48), b)
        } else {
            None
        }
    } else if piece_code_spec(s[i]) < 12 && col < 8 && 0 <= row < 8 && 0 <= col {
        let k = piece_code_spec(s[i]);
        walk_board(s, i + 1, row, col + 1, b.update(k, b[k] | (1u64 << (8 * row + col) as u64)))
    } else {
        None
    }
}

/// The bitboards that the board field of record `s` describes, and where the
/// field ends.
pub open spec fn board_spec(s: Seq<u8>) -> Option<(Seq<u64>, int)> {
    walk_board(s, 0, 7, 0, empty_boards())
}

/// The bytes of the annotation `"1-0";`, a win for the first side.
pub open spec fn win_token() -> Seq<u8> {
    seq![34u8, 49u8, 45u8, 48u8, 34u8, 59u8]
}

/// The bytes of the annotation `"0-1";`, a loss for the first side.
pub open spec fn loss_token() -> Seq<u8> {
    seq![34u8, 48u8, 45u8, 49u8, 34u8, 59u8]
}

/// The result a record ends with: a win or loss annotation as its last six
/// bytes, and a draw for anything else.
pub open spec fn outcome_spec(s: Seq<u8>) -> Outcome {
    if s.len() >= 6 && s.subrange(s.len() - 6, s.len() as int) == win_token() {
        Outcome::Win
    } else if s.len() >= 6 && s.subrange(s.len() - 6, s.len() as int) == loss_token() {
        Outcome::Loss
    } else {
        Outcome::Draw
    }
}

/// Index of a piece letter among the twelve bitboards, or 12.
pub fn piece_code(c: u8) -> (r: usize)
    ensures
        r == piece_code_spec(c),
{
    match c {
        80 => 0,
        78 => 1,
        66 => 2,
        82 => 3,
        81 => 4,
        75 => 5,
        112 => 6,
        110 => 7,
        98 => 8,
        114 => 9,
        113 => 10,
        107 => 11,
        _ => 12,
    }
}

/// The result annotation at the end of record `s`.
pub fn read_outcome(s: &[u8]) -> (r: Outcome)
    ensures
        r == outcome_spec(s@),
{
    let n = s.len();
    if n < 6 {
        return Outcome::Draw;
    }
    let ghost tail = s@.subrange(n - 6, n as int);
    let quoted = s[n - 6] == 34 && s[n - 2] == 34 && s[n - 1] == 59 && s[n - 4] == 45;
    if quoted && s[n - 5] == 49 && s[n - 3] == 48 {
        assert(tail =~= win_token());
        Outcome::Win
    } else if quoted && s[n - 5] == 48 && s[n - 3] == 49 {
        assert(tail =~= loss_token());
        assert(tail != win_token()) by {
            assert(tail[1] != win_token()[1]);
        }
        Outcome::Loss
    } else {
        assert(tail != win_token()) by {
            if tail == win_token() {
                assert(tail[0] == 34 && tail[1] == 49 && tail[2] == 45 && tail[3] == 48
                    && tail[4] == 34 && tail[5] == 59);
            }
        }
        assert(tail != loss_token()) by {
            if tail == loss_token() {
                assert(tail[0] == 34 && tail[1] == 48 && tail[2] == 45 && tail[3] == 49
                    && tail[4] == 34 && tail[5] == 59);
            }
        }
        Outcome::Draw
    }
}

/// Whether record `s`, whose board field ends at `e`, ends with a result
/// annotation.
pub fn find_annotation(s: &[u8], e: usize) -> (r: bool)
    requires
        e < s@.len(),
    ensures
        r == has_annotation(s@, e as int),
{
    let n = s.len();
    if n < 2 || s[n - 1] != 59 || s[n - 2] != 34 {
        return false;
    }
    let mut hi: usize = n - 2;
    while hi > e + 1
        invariant
            e + 1 <= n,
            n == s@.len(),
            hi <= n - 2,
            has_annotation(s@, e as int) == (s@[n - 1] == 59 && s@[n - 2] == 34 && has_quote(
                s@,
                e + 1,
                hi as int,
            )),
            s@[n - 1] == 59 && s@[n - 2] == 34,
        decreases hi,
    {
        if s[hi - 1] == 34 {
            return true;
        }
        hi -= 1;
    }
    false
}

/// Twelve empty bitboards.
pub fn new_boards() -> (b: Vec<u64>)
    ensures
        b@ == empty_boards(),
{
    let mut b: Vec<u64> = Vec::new();
    let mut k: usize = 0;
    while k < 12
        invariant
            k <= 12,
            b@ == Seq::new(k as nat, |i: int| 0u64),
        decreases 12 - k,
    {
        b.push(0);
        k += 1;
        assert(b@ =~= Seq::new(k as nat, |i: int| 0u64));
    }
    assert(b@ =~= empty_boards());
    b
}

/// Reads the board field of record `s`: its twelve bitboards and the index
/// where the field ends, or `None` where the field is malformed.
pub fn read_board(s: &[u8]) -> (r: Option<(Vec<u64>, usize)>)
    ensures
        match r {
            Some((b, e)) => board_spec(s@) == Some((b@, e as int)) && b@.len() == 12,
            None => board_spec(s@) is None,
        },
{
    let mut b = new_boards();
    let mut i: usize = 0;
    let mut row: u64 = 7;
    let mut col: u64 = 0;
    loop
        invariant
            i <= s@.len(),
            row < 8,
            col <= 8,
            b@.len() == 12,
            board_spec(s@) == walk_board(s@, i as int, row as int, col as int, b@),
        decreases s@.len() - i,
    {
        if i >= s.len() || s[i] == 32 {
            if row == 0 && col == 8 {
                return Some((b, i));
            } else {
                return None;
            }
        }
        let c = s[i];
        if c == 47 {
            if col == 8 && row > 0 {
                row -= 1;
                col = 0;
            } else {
                return None;
            }
        } else if 49 <= c && c <= 56 {
            let n = (c - 48) as u64;
            if col + n <= 8 {
                col += n;
            } else {
                return None;
            }
        } else {
            let k = piece_code(c);
            if k < 12 && col < 8 {
                let sq = 8 * row + col;
                let v = b[k] | (1u64 << sq);
                b.set(k, v);
                col += 1;
            } else {
                return None;
            }
        }
        i += 1;
    }
}

/// Whether a `"` stands at an index from `lo` up to, not including, `hi`.
pub open spec fn has_quote(s: Seq<u8>, lo: int, hi: int) -> bool
    decreases hi - lo,
{
    if hi <= lo {
        false
    } else if s[hi - 1] == 34 {
        true
    } else {
        has_quote(s, lo, hi - 1)
    }
}

/// Whether the record `s`, whose board field ends at `e`, ends with a result
/// annotation: `";` as its last two bytes, and an opening `"` after the
/// board field.
pub open spec fn has_annotation(s: Seq<u8>, e: int) -> bool {
    &&& s.len() >= 2
    &&& s[s.len() - 1] == 59
    &&& s[s.len() - 2] == 34
    &&& has_quote(s, e + 1, s.len() - 2)
}

/// What a position is: its feature vector, its phase and its result.
pub struct PositionView {
    pub vals: Seq<int>,
    pub phase: int,
    pub result: Outcome,
}

/// What record `s` (as bytes) describes, or why it is refused.
pub open spec fn parse_spec(s: Seq<u8>) -> Result<PositionView, ParseError> {
    match board_spec(s) {
        None => Err(ParseError::InvalidBoard),
        Some((b, e)) => if e >= s.len() {
            Err(ParseError::MissingFields)
        } else if !has_annotation(s, e) {
            Err(ParseError::MissingResult)
        } else if popcount(b[5]) != 1 || popcount(b[11]) != 1 {
            Err(ParseError::KingCount)
        } else {
            Ok(
                PositionView {
                    vals: features_spec(b),
                    phase: phase_spec(b),
                    result: outcome_spec(s),
                },
            )
        },
    }
}

/// A labelled training position: its features, its phase and the game's
/// result. It is not changed once made.
#[derive(Debug)]
pub struct Position {
    vals: Vec<i16>,
    phase: i16,
    result: Outcome,
}

impl View for Position {
    type V = PositionView;

    closed spec fn view(&self) -> PositionView {
        PositionView {
            vals: self.vals@.map_values(|v: i16| v as int),
            phase: self.phase as int,
            result: self.result,
        }
    }
}

impl Position {
    /// Well formed: one value per feature slot.
    pub closed spec fn wf(&self) -> bool {
        self.vals@.len() == NUM_PARAMS && 0 <= self.phase <= TPHASE
    }

    /// Reads a position record: the board field, the other fields, and a
    /// result annotation at its end.
    pub fn from_epd(epd: &str) -> (r: Result<Position, ParseError>)
        ensures
            match (r, parse_spec(epd.spec_bytes())) {
                (Ok(p), Ok(v)) => p@ == v && p.wf(),
                (Err(e), Err(f)) => e == f,
                _ => false,
            },
    {
        let s = epd.as_bytes();
        let (b, end) = match read_board(s) {
            Some(x) => x,
            None => return Err(ParseError::InvalidBoard),
        };
        if end >= s.len() {
            return Err(ParseError::MissingFields);
        }
        if !find_annotation(s, end) {
            return Err(ParseError::MissingResult);
        }
        if count(b[5]) != 1 || count(b[11]) != 1 {
            return Err(ParseError::KingCount);
        }
        proof {
            lemma_popcount_zero();
        }
        let result = read_outcome(s);
        let phase = board_phase(&b);
        let mut pos = Position { vals: Vec::new(), phase, result };
        set_pos_vals(&mut pos, &b);
        Ok(pos)
    }

    /// The tapered score of this position under the weights `w`, positive
    /// where the first side stands better.
    pub fn score(&self, w: &[S]) -> (r: i64)
        requires
            self.wf(),
            w@.len() == NUM_PARAMS,
        ensures
            r == eval_spec(self@.vals, w@, self@.phase),
    {
        eval(self.vals.as_slice(), w, self.phase)
    }

    /// The feature values, one per slot.
    pub fn vals(&self) -> (r: &[i16])
        ensures
            r@.map_values(|v: i16| v as int) == self@.vals,
    {
        self.vals.as_slice()
    }

    /// The phase, from 0 (no pieces but pawns and kings) to `TPHASE`.
    pub fn phase(&self) -> (r: i16)
        ensures
            r == self@.phase,
    {
        self.phase
    }

    /// The game's result.
    pub fn result(&self) -> (r: Outcome)
        ensures
            r == self@.result,
    {
        self.result
    }
}

/// Sets the feature vector of `pos` from the twelve bitboards `b` (white
/// pawn to black king), whose sides each have a king; its phase and result
/// stay as they are.
pub fn set_pos_vals(pos: &mut Position, b: &Vec<u64>)
    requires
        kings_present(b@),
        0 <= old(pos)@.phase <= TPHASE,
    ensures
        final(pos)@ == (PositionView {
            vals: features_spec(b@),
            phase: old(pos)@.phase,
            result: old(pos)@.result,
        }),
        final(pos).wf(),
{
    pos.vals = extract(b);
    assert(pos@.vals =~= features_spec(b@));
}

/// A record whose board holds nothing but the two kings, and which ends with
/// a result annotation, parses, with every
/// feature zero and phase zero.
pub proof fn lemma_kings_only_record(s: Seq<u8>, b: Seq<u64>, end: int)
    requires
        board_spec(s) == Some((b, end)),
        kings_only(b),
        end < s.len(),
        has_annotation(s, end),
    ensures
        parse_spec(s) is Ok,
        parse_spec(s)->Ok_0.vals == Seq::new(NUM_PARAMS as nat, |i: int| 0int),
        parse_spec(s)->Ok_0.phase == 0,
{
    lemma_kings_only_features(b);
    assert(parse_spec(s)->Ok_0.vals =~= Seq::new(NUM_PARAMS as nat, |i: int| 0int));
}

/// The result label follows the record's last six bytes: the win annotation
/// gives a win (two half points), the loss annotation a loss (none), and
/// anything else a draw (one).
pub proof fn lemma_result_mapping(s: Seq<u8>)
    ensures
        s.len() >= 6 && s.subrange(s.len() - 6, s.len() as int) == win_token() ==> outcome_spec(s)
            == Outcome::Win && outcome_halves(outcome_spec(s)) == 2,
        s.len() >= 6 && s.subrange(s.len() - 6, s.len() as int) == loss_token() ==> outcome_spec(
            s,
        ) == Outcome::Loss && outcome_halves(outcome_spec(s)) == 0,
        !(s.len() >= 6 && s.subrange(s.len() - 6, s.len() as int) == win_token()) && !(s.len()
            >= 6 && s.subrange(s.len() - 6, s.len() as int) == loss_token()) ==> outcome_spec(s)
            == Outcome::Draw && outcome_halves(outcome_spec(s)) == 1,
{
    if s.len() >= 6 && s.subrange(s.len() - 6, s.len() as int) == loss_token() {
        assert(win_token()[1] != loss_token()[1]);
    }
}

} // verus!
