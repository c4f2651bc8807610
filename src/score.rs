use vstd::prelude::*;
use crate::consts::{NUM_PARAMS, TPHASE};
use vstd::string::StringExecFns;

verus! {

/// Integer division rounding toward zero, as Rust's `/` does.
pub open spec fn div_trunc(a: int, b: int) -> int
    recommends
        b > 0,
{
    if a >= 0 {
        a / b
    } else {
        -((-a) / b)
    }
}

/// Linear blend of a midgame and an endgame value by the phase.
pub open spec fn taper_spec(mg: int, eg: int, phase: int) -> int {
    div_trunc(phase * mg + (TPHASE - phase) * eg, TPHASE as int)
}

/// At full phase the blend is the midgame value, at phase zero the endgame
/// value, exactly: no rounding happens at either boundary.
pub proof fn lemma_taper_boundaries(mg: int, eg: int)
    ensures
        taper_spec(mg, eg, TPHASE as int) == mg,
        taper_spec(mg, eg, 0) == eg,
{
    assert(24 * mg + 0 * eg == 24 * mg) by (nonlinear_arith);
    assert(0 * mg + 24 * eg == 24 * eg) by (nonlinear_arith);
    assert((24 * mg) / 24 == mg) by (nonlinear_arith);
    assert((24 * eg) / 24 == eg) by (nonlinear_arith);
    assert((-(24 * mg)) / 24 == -mg) by (nonlinear_arith);
    assert((-(24 * eg)) / 24 == -eg) by (nonlinear_arith);
}

/// The decimal digit `d`.
pub open spec fn digit_char(d: int) -> char {
    if d == 0 { '0' }
    else if d == 1 { '1' }
    else if d == 2 { '2' }
    else if d == 3 { '3' }
    else if d == 4 { '4' }
    else if d == 5 { '5' }
    else if d == 6 { '6' }
    else if d == 7 { '7' }
    else if d == 8 { '8' }
    else { '9' }
}

/// The decimal digits of `n`, without leading zeros.
pub open spec fn digits(n: nat) -> Seq<char>
    decreases n,
{
    if n < 10 {
        seq![digit_char(n as int)]
    } else {
        digits(n / 10) + seq![digit_char((n % 10) as int)]
    }
}

/// `x` in decimal, with a minus sign when negative.
pub open spec fn decimal(x: int) -> Seq<char> {
    if x < 0 {
        seq!['-'] + digits((-x) as nat)
    } else {
        digits(x as nat)
    }
}

/// `t` right-aligned in a field of `w` characters.
pub open spec fn pad_left(t: Seq<char>, w: nat) -> Seq<char> {
    if t.len() >= w {
        t
    } else {
        Seq::new((w - t.len()) as nat, |i: int| ' ') + t
    }
}

/// A weight as `S(mg,eg)`, the midgame part right-aligned in three
/// characters and the endgame part in four.
pub open spec fn fancy_spec(s: S) -> Seq<char> {
    seq!['S', '('] + pad_left(decimal(s.0 as int), 3) + seq![','] + pad_left(
        decimal(s.1 as int),
        4,
    ) + seq![')']
}

fn digit_str(d: u32) -> (r: &'static str)
    requires
        d < 10,
    ensures
        r@ == seq![digit_char(d as int)],
{
    proof {
        reveal_strlit("0");
        reveal_strlit("1");
        reveal_strlit("2");
        reveal_strlit("3");
        reveal_strlit("4");
        reveal_strlit("5");
        reveal_strlit("6");
        reveal_strlit("7");
        reveal_strlit("8");
        reveal_strlit("9");
    }
    match d {
        0 => "0",
        1 => "1",
        2 => "2",
        3 => "3",
        4 => "4",
        5 => "5",
        6 => "6",
        7 => "7",
        8 => "8",
        _ => "9",
    }
}

fn digits_string(n: u32) -> (r: String)
    ensures
        r@ == digits(n as nat),
    decreases n,
{
    if n < 10 {
        String::from_str(digit_str(n))
    } else {
        let mut t = digits_string(n / 10);
        t.append(digit_str(n % 10));
        t
    }
}

fn decimal_string(x: i16) -> (r: String)
    ensures
        r@ == decimal(x as int),
{
    proof {
        reveal_strlit("-");
    }
    if x < 0 {
        let mut t = String::from_str("-");
        let d = digits_string((-(x as i32)) as u32);
        t.append(d.as_str());
        t
    } else {
        digits_string(x as u32)
    }
}

fn append_padded(out: &mut String, x: i16, w: usize)
    ensures
        final(out)@ == old(out)@ + pad_left(decimal(x as int), w as nat),
{
    proof {
        reveal_strlit(" ");
    }
    let d = decimal_string(x);
    let n = d.as_str().unicode_len();
    let ghost start = out@;
    if n < w {
        let mut i: usize = n;
        while i < w
            invariant
                n <= i <= w,
                out@ == start + Seq::new((i - n) as nat, |j: int| ' '),
            decreases w - i,
        {
            proof {
                reveal_strlit(" ");
            }
            out.append(" ");
            i += 1;
            assert(out@ =~= start + Seq::new((i - n) as nat, |j: int| ' '));
        }
    }
    out.append(d.as_str());
    assert(out@ =~= start + pad_left(decimal(x as int), w as nat));
}

/// A tapered weight: a midgame and an endgame value.
#[derive(Clone, Copy, Debug, Default)]
pub struct S(pub i16, pub i16);

/// The midgame (`false`) or endgame (`true`) part of a weight.
pub open spec fn part_spec(s: S, endgame: bool) -> i16 {
    if endgame {
        s.1
    } else {
        s.0
    }
}

/// A weight with one part replaced.
pub open spec fn with_part_spec(s: S, endgame: bool, v: i16) -> S {
    if endgame {
        S(s.0, v)
    } else {
        S(v, s.1)
    }
}

impl S {
    /// This weight as `S(mg,eg)`, the parts right-aligned in three and four
    /// characters.
    pub fn fancy(&self) -> (r: String)
        ensures
            r@ == fancy_spec(*self),
    {
        proof {
            reveal_strlit("S(");
            reveal_strlit(",");
            reveal_strlit(")");
        }
        let mut out = String::from_str("S(");
        append_padded(&mut out, self.0, 3);
        out.append(",");
        append_padded(&mut out, self.1, 4);
        out.append(")");
        assert(out@ =~= fancy_spec(*self));
        out
    }

    /// The starting weights: material values for pawn, knight, bishop, rook
    /// and queen, zero for every other feature.
    pub fn init() -> (r: Vec<S>)
        ensures
            r@.len() == NUM_PARAMS,
            r@[0] == S(100, 100),
            r@[1] == S(300, 300),
            r@[2] == S(300, 300),
            r@[3] == S(500, 500),
            r@[4] == S(900, 900),
            forall|i: int| 5 <= i < NUM_PARAMS ==> #[trigger] r@[i] == S(0, 0),
    {
        let mut r: Vec<S> = Vec::new();
        r.push(S(100, 100));
        r.push(S(300, 300));
        r.push(S(300, 300));
        r.push(S(500, 500));
        r.push(S(900, 900));
        while r.len() < NUM_PARAMS
            invariant
                5 <= r@.len() <= NUM_PARAMS,
                r@[0] == S(100, 100),
                r@[1] == S(300, 300),
                r@[2] == S(300, 300),
                r@[3] == S(500, 500),
                r@[4] == S(900, 900),
                forall|i: int| 5 <= i < r@.len() ==> #[trigger] r@[i] == S(0, 0),
            decreases NUM_PARAMS - r@.len(),
        {
            r.push(S(0, 0));
        }
        r
    }

    /// Both parts one: the initial step of every weight.
    pub fn ones() -> (r: S)
        ensures
            r == S(1, 1),
    {
        S(1, 1)
    }

    /// The midgame (`false`) or endgame (`true`) part.
    pub fn part(self, endgame: bool) -> (r: i16)
        ensures
            r == part_spec(self, endgame),
    {
        if endgame {
            self.1
        } else {
            self.0
        }
    }

    /// This weight with one part replaced by `v`.
    pub fn with_part(self, endgame: bool, v: i16) -> (r: S)
        ensures
            r == with_part_spec(self, endgame, v),
    {
        if endgame {
            S(self.0, v)
        } else {
            S(v, self.1)
        }
    }

    pub fn taper(self, phase: i16) -> (r: i32)
        requires
            0 <= phase <= TPHASE,
        ensures
            r == taper_spec(self.0 as int, self.1 as int, phase as int),
            phase == TPHASE ==> r == self.0,
            phase == 0 ==> r == self.1,
    {
        proof {
            lemma_taper_boundaries(self.0 as int, self.1 as int);
        }
        let p = phase as i32;
        assert(-32768 * 24 <= p * self.0 as i32 <= 32767 * 24) by (nonlinear_arith)
            requires 0 <= p <= 24, -32768 <= self.0 <= 32767;
        assert(-32768 * 24 <= (TPHASE - p) * self.1 as i32 <= 32767 * 24) by (nonlinear_arith)
            requires 0 <= p <= 24, -32768 <= self.1 <= 32767;
        (p * self.0 as i32 + (TPHASE - p) * self.1 as i32) / TPHASE
    }
}

/// Sum over the slots below `n` of feature value times one part of its weight.
pub open spec fn dot(vals: Seq<int>, w: Seq<S>, endgame: bool, n: int) -> int
    decreases n,
{
    if n <= 0 {
        0
    } else {
        dot(vals, w, endgame, n - 1) + vals[n - 1] * part_spec(w[n - 1], endgame) as int
    }
}

/// The tapered score of a feature vector under the weights `w` at `phase`.
pub open spec fn eval_spec(vals: Seq<int>, w: Seq<S>, phase: int) -> int {
    taper_spec(dot(vals, w, false, vals.len() as int), dot(vals, w, true, vals.len() as int), phase)
}

/// At full phase the score is the midgame dot product, at phase zero the
/// endgame dot product, exactly.
pub proof fn lemma_eval_boundaries(vals: Seq<int>, w: Seq<S>)
    ensures
        eval_spec(vals, w, TPHASE as int) == dot(vals, w, false, vals.len() as int),
        eval_spec(vals, w, 0) == dot(vals, w, true, vals.len() as int),
{
    lemma_taper_boundaries(
        dot(vals, w, false, vals.len() as int),
        dot(vals, w, true, vals.len() as int),
    );
}

proof fn lemma_dot_bound(vals: Seq<int>, w: Seq<S>, endgame: bool, n: int)
    requires
        0 <= n <= vals.len(),
        n <= w.len(),
        forall|i: int| 0 <= i < vals.len() ==> -32768 <= #[trigger] vals[i] <= 32767,
    ensures
        -n * 0x4000_0000 <= dot(vals, w, endgame, n) <= n * 0x4000_0000,
    decreases n,
{
    if n > 0 {
        lemma_dot_bound(vals, w, endgame, n - 1);
        let a = vals[n - 1];
        let b = part_spec(w[n - 1], endgame) as int;
        assert(-0x4000_0000 <= a * b <= 0x4000_0000) by (nonlinear_arith)
            requires -32768 <= a <= 32767, -32768 <= b <= 32767;
    }
}

/// The midgame and endgame dot products of `vals` with `w`.
pub fn dots(vals: &[i16], w: &[S]) -> (r: (i64, i64))
    requires
        vals@.len() == w@.len(),
        vals@.len() <= 1000,
    ensures
        r.0 == dot(vals@.map_values(|v: i16| v as int), w@, false, vals@.len() as int),
        r.1 == dot(vals@.map_values(|v: i16| v as int), w@, true, vals@.len() as int),
{
    let ghost iv = vals@.map_values(|v: i16| v as int);
    let mut mg: i64 = 0;
    let mut eg: i64 = 0;
    let mut i: usize = 0;
    while i < vals.len()
        invariant
            i <= vals@.len(),
            vals@.len() == w@.len(),
            vals@.len() <= 1000,
            iv == vals@.map_values(|v: i16| v as int),
            mg == dot(iv, w@, false, i as int),
            eg == dot(iv, w@, true, i as int),
        decreases vals@.len() - i,
    {
        proof {
            lemma_dot_bound(iv, w@, false, i as int);
            lemma_dot_bound(iv, w@, true, i as int);
        }
        let v = vals[i] as i64;
        let m = w[i].0 as i64;
        let e = w[i].1 as i64;
        assert(-0x4000_0000 <= v * m <= 0x4000_0000 && -0x4000_0000 <= v * e <= 0x4000_0000)
            by (nonlinear_arith)
            requires -32768 <= v <= 32767, -32768 <= m <= 32767, -32768 <= e <= 32767;
        mg = mg + v * m;
        eg = eg + v * e;
        i += 1;
    }
    (mg, eg)
}

/// The tapered score of `vals` under the weights `w` at `phase`.
pub fn eval(vals: &[i16], w: &[S], phase: i16) -> (r: i64)
    requires
        vals@.len() == w@.len(),
        vals@.len() <= 1000,
        0 <= phase <= TPHASE,
    ensures
        r == eval_spec(vals@.map_values(|v: i16| v as int), w@, phase as int),
{
    let ghost iv = vals@.map_values(|v: i16| v as int);
    proof {
        lemma_dot_bound(iv, w@, false, vals@.len() as int);
        lemma_dot_bound(iv, w@, true, vals@.len() as int);
    }
    let (mg, eg) = dots(vals, w);
    let p = phase as i64;
    assert(-24 * 1000 * 0x4000_0000 <= p * mg <= 24 * 1000 * 0x4000_0000) by (nonlinear_arith)
        requires 0 <= p <= 24, -1000 * 0x4000_0000 <= mg <= 1000 * 0x4000_0000;
    assert(-24 * 1000 * 0x4000_0000 <= (24 - p) * eg <= 24 * 1000 * 0x4000_0000)
        by (nonlinear_arith)
        requires 0 <= p <= 24, -1000 * 0x4000_0000 <= eg <= 1000 * 0x4000_0000;
    (p * mg + (24 - p) * eg) / 24
}

proof fn lemma_dot_single(vals: Seq<int>, w: Seq<S>, endgame: bool, n: int, j: int)
    requires
        0 <= j,
        0 <= n <= w.len(),
        forall|i: int| 0 <= i < w.len() && i != j ==> #[trigger] w[i] == S(0, 0),
    ensures
        dot(vals, w, endgame, n) == if n > j { vals[j] * part_spec(w[j], endgame) as int } else { 0 },
    decreases n,
{
    if n > 0 {
        lemma_dot_single(vals, w, endgame, n - 1, j);
        if n - 1 != j {
            assert(w[n - 1] == S(0, 0));
            assert(vals[n - 1] * 0 == 0) by (nonlinear_arith);
        }
    }
}

/// Where the only weight that is not zero is a positive one on slot `j`,
/// and the features hold one more such piece for the first side, the score
/// is positive at every phase.
pub proof fn lemma_single_weight_positive(vals: Seq<int>, w: Seq<S>, j: int, phase: int)
    requires
        0 <= j < vals.len(),
        vals.len() == w.len(),
        vals[j] == 1,
        w[j].0 > 0,
        w[j].1 > 0,
        forall|i: int| 0 <= i < w.len() && i != j ==> #[trigger] w[i] == S(0, 0),
        0 <= phase <= TPHASE,
    ensures
        eval_spec(vals, w, phase) > 0,
{
    lemma_dot_single(vals, w, false, vals.len() as int, j);
    lemma_dot_single(vals, w, true, vals.len() as int, j);
    let mg = w[j].0 as int;
    let eg = w[j].1 as int;
    assert(phase * mg + (24 - phase) * eg >= 24) by (nonlinear_arith)
        requires 0 <= phase <= 24, mg >= 1, eg >= 1;
}

} // verus!
