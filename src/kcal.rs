use vstd::prelude::*;

verus! {

/// Where the search for the logistic scale constant stands: which error it
/// waits for next.
#[derive(Clone, Copy, Debug, PartialEq, Eq, Structural)]
pub enum KStage {
    /// The error one step below the start.
    Low,
    /// The error one step above the start.
    High,
    /// The error at the start.
    Centre,
    /// The error one step further in the chosen direction.
    Walk,
    /// The search is over.
    Done,
}

/// What the search is: its start, its step size, the signed step of the
/// chosen direction, the best point so far and its error, the error below
/// the start, how many steps it has walked and may walk, and its stage.
pub struct KView {
    pub k0: int,
    pub step: int,
    pub delta: int,
    pub k: int,
    pub best: u64,
    pub low: u64,
    pub walked: int,
    pub max_walk: int,
    pub stage: KStage,
}

/// The point whose error the search needs next (meaningless once done).
pub open spec fn probe_spec(t: KView) -> int {
    match t.stage {
        KStage::Low => t.k0 - t.step,
        KStage::High => t.k0 + t.step,
        KStage::Centre => t.k0,
        _ => t.k + t.delta,
    }
}

/// The search after the error `err` at its probe point is known. The
/// direction is the one in which the error falls (upward on a tie); the
/// walk goes on while the error keeps falling and stops at the first step
/// that does not lower it, or after `max_walk` steps.
pub open spec fn kcal_record_spec(t: KView, err: u64) -> KView {
    match t.stage {
        KStage::Low => KView { low: err, stage: KStage::High, ..t },
        KStage::High => KView {
            delta: if t.low >= err { t.step } else { -t.step },
            stage: KStage::Centre,
            ..t
        },
        KStage::Centre => KView {
            k: t.k0,
            best: err,
            stage: if t.max_walk == 0 { KStage::Done } else { KStage::Walk },
            ..t
        },
        KStage::Walk => if err < t.best {
            KView {
                k: t.k + t.delta,
                best: err,
                walked: t.walked + 1,
                stage: if t.walked + 1 >= t.max_walk { KStage::Done } else { KStage::Walk },
                ..t
            }
        } else {
            KView { stage: KStage::Done, ..t }
        },
        KStage::Done => t,
    }
}

/// A fresh search from `k0` with step `step`, walking at most `max_walk` steps.
pub open spec fn kcal_start(k0: int, step: int, max_walk: int) -> KView {
    KView {
        k0,
        step,
        delta: step,
        k: k0,
        best: 0,
        low: 0,
        walked: 0,
        max_walk,
        stage: KStage::Low,
    }
}

/// Whether every point the search can probe fits in an `i64`.
pub open spec fn kcal_fits(k0: int, step: int, max_walk: int) -> bool {
    &&& step > 0
    &&& max_walk >= 0
    &&& i64::MIN <= k0 - step * (max_walk + 1)
    &&& k0 + step * (max_walk + 1) <= i64::MAX
}

/// Search state well formed: the walk so far lies between the start and
/// `max_walk` steps away from it.
pub open spec fn kcal_wf(t: KView) -> bool {
    &&& kcal_fits(t.k0, t.step, t.max_walk)
    &&& t.delta == t.step || t.delta == -t.step
    &&& 0 <= t.walked <= t.max_walk
    &&& t.k == t.k0 + t.walked * t.delta
    &&& t.stage == KStage::Walk ==> t.walked < t.max_walk
    &&& (t.stage == KStage::Low || t.stage == KStage::High || t.stage == KStage::Centre) ==> t.walked
        == 0 && t.k == t.k0
}

/// `f` falls strictly up to `m` and rises strictly from `m` on.
pub open spec fn unimodal(f: spec_fn(int) -> u64, m: int) -> bool {
    &&& forall|a: int, b: int| a < b <= m ==> #[trigger] f(a) > #[trigger] f(b)
    &&& forall|a: int, b: int| m <= a < b ==> #[trigger] f(a) < #[trigger] f(b)
}

/// The search after at most `n` errors, each the error curve `f` at the
/// point the search asks for.
pub open spec fn drive(t: KView, f: spec_fn(int) -> u64, n: nat) -> KView
    decreases n,
{
    if n == 0 || t.stage == KStage::Done {
        t
    } else {
        drive(kcal_record_spec(t, f(probe_spec(t))), f, (n - 1) as nat)
    }
}

/// The walk so far, on the curve `f` with its minimum at `m`: the best
/// error is the curve at the best point, the last step did not raise the
/// error (or, before any step, the direction is the falling one), and the
/// walk is within one step of `m` on the side it came from.
pub open spec fn walk_inv(t: KView, f: spec_fn(int) -> u64, m: int) -> bool {
    &&& kcal_wf(t)
    &&& t.best == f(t.k)
    &&& t.walked > 0 ==> f(t.k) <= f(t.k - t.delta)
    &&& t.walked == 0 ==> f(t.k0 - t.delta) >= f(t.k0 + t.delta)
    &&& t.delta > 0 ==> t.k < m + t.step
    &&& t.delta < 0 ==> t.k > m - t.step
}

proof fn lemma_walk(t: KView, f: spec_fn(int) -> u64, m: int, n: nat)
    requires
        unimodal(f, m),
        walk_inv(t, f, m),
        t.stage == KStage::Walk,
        t.step * (t.max_walk - 1) >= if t.k0 >= m { t.k0 - m } else { m - t.k0 },
        n >= t.max_walk - t.walked,
    ensures
        drive(t, f, n).stage == KStage::Done,
        m - t.step < drive(t, f, n).k < m + t.step,
    decreases n,
{
    let s = t.step;
    let d = t.delta;
    let k = t.k;
    let err = f(k + d);
    let t2 = kcal_record_spec(t, err);
    assert(n > 0);
    if err < t.best {
        // The step lowered the error, so it was taken toward `m`.
        if d > 0 {
            if k >= m {
                assert(f(k) < f(k + d));
            }
        } else {
            if k <= m {
                assert(f(k + d) > f(k));
            }
        }
        let w = t.walked + 1;
        let big = s * t.max_walk;
        assert(t2.k == t.k0 + w * d) by (nonlinear_arith)
            requires t2.k == t.k + d, t.k == t.k0 + t.walked * d, w == t.walked + 1;
        if d > 0 {
            assert(w * d == w * s) by (nonlinear_arith) requires d == s;
        } else {
            assert(w * d == -(w * s)) by (nonlinear_arith) requires d == -s;
        }
        assert(s * (t.max_walk - 1) + s == big) by (nonlinear_arith) requires big == s * t.max_walk;
        assert(w < t.max_walk) by (nonlinear_arith)
            requires w * s < big, big == s * t.max_walk, s > 0;
        assert(walk_inv(t2, f, m));
        lemma_walk(t2, f, m, (n - 1) as nat);
    } else {
        // The step did not lower the error: `m` lies within one step.
        if d > 0 {
            if k + d <= m {
                assert(f(k) > f(k + d));
            }
        } else {
            if k + d >= m {
                assert(f(k + d) < f(k));
            }
        }
        assert(drive(t, f, n) == drive(t2, f, (n - 1) as nat));
    }
}

/// On an error curve that falls strictly to its minimum `m` and rises
/// strictly after it, a search allowed enough steps stops after at most
/// `max_walk + 3` errors, within one step of `m`.
pub proof fn lemma_finds_minimum(k0: int, step: int, max_walk: int, f: spec_fn(int) -> u64, m: int)
    requires
        kcal_fits(k0, step, max_walk),
        unimodal(f, m),
        max_walk >= 1,
        step * (max_walk - 1) >= if k0 >= m { k0 - m } else { m - k0 },
    ensures
        drive(kcal_start(k0, step, max_walk), f, (max_walk + 3) as nat).stage == KStage::Done,
        m - step < drive(kcal_start(k0, step, max_walk), f, (max_walk + 3) as nat).k < m + step,
{
    let t0 = kcal_start(k0, step, max_walk);
    let t1 = kcal_record_spec(t0, f(k0 - step));
    let t2 = kcal_record_spec(t1, f(k0 + step));
    let t3 = kcal_record_spec(t2, f(k0));
    assert(t3.stage == KStage::Walk);
    assert(0 * t3.delta == 0);
    if t3.delta > 0 {
        if k0 >= m + step {
            assert(f(k0 - step) < f(k0 + step));
        }
    } else {
        if k0 <= m - step {
            assert(f(k0 + step) < f(k0 - step));
        }
    }
    assert(walk_inv(t3, f, m));
    lemma_walk(t3, f, m, max_walk as nat);
    assert(drive(t0, f, (max_walk + 3) as nat) == drive(t1, f, (max_walk + 2) as nat));
    assert(drive(t1, f, (max_walk + 2) as nat) == drive(t2, f, (max_walk + 1) as nat));
    assert(drive(t2, f, (max_walk + 1) as nat) == drive(t3, f, max_walk as nat));
}

/// Line search for the logistic scale constant that minimises the error.
pub struct KSearch {
    k0: i64,
    step: i64,
    delta: i64,
    k: i64,
    best: u64,
    low: u64,
    walked: u64,
    max_walk: u64,
    stage: KStage,
}

impl View for KSearch {
    type V = KView;

    closed spec fn view(&self) -> KView {
        KView {
            k0: self.k0 as int,
            step: self.step as int,
            delta: self.delta as int,
            k: self.k as int,
            best: self.best,
            low: self.low,
            walked: self.walked as int,
            max_walk: self.max_walk as int,
            stage: self.stage,
        }
    }
}

proof fn lemma_walk_fits(t: KView)
    requires
        kcal_wf(t),
        t.walked < t.max_walk,
    ensures
        i64::MIN <= t.k + t.delta <= i64::MAX,
        t.k + t.delta == t.k0 + (t.walked + 1) * t.delta,
{
    let s = t.step;
    let w = t.walked;
    let n = t.max_walk;
    assert(s * (w + 1) <= s * (n + 1)) by (nonlinear_arith)
        requires s > 0, w < n;
    assert(s * (w + 1) >= 0) by (nonlinear_arith)
        requires s > 0, w >= 0;
    assert((w + 1) * t.delta == w * t.delta + t.delta) by (nonlinear_arith);
    if t.delta == s {
        assert((w + 1) * t.delta == s * (w + 1)) by (nonlinear_arith)
            requires t.delta == s;
    } else {
        assert((w + 1) * t.delta == -(s * (w + 1))) by (nonlinear_arith)
            requires t.delta == -s;
    }
}

impl KSearch {
    /// Starts a search from `k0` with step `step`, walking at most
    /// `max_walk` steps.
    pub fn new(k0: i64, step: i64, max_walk: u64) -> (r: KSearch)
        requires
            kcal_fits(k0 as int, step as int, max_walk as int),
        ensures
            r@ == kcal_start(k0 as int, step as int, max_walk as int),
            kcal_wf(r@),
    {
        KSearch { k0, step, delta: step, k: k0, best: 0, low: 0, walked: 0, max_walk, stage: KStage::Low }
    }

    /// The point whose error is needed next, or `None` once the search is over.
    pub fn probe(&self) -> (r: Option<i64>)
        requires
            kcal_wf(self@),
        ensures
            self@.stage == KStage::Done <==> r is None,
            r is Some ==> r->0 == probe_spec(self@),
    {
        proof {
            let s = self@.step;
            let n = self@.max_walk;
            assert(s * (n + 1) >= s) by (nonlinear_arith)
                requires s > 0, n >= 0;
            if self@.stage == KStage::Walk {
                lemma_walk_fits(self@);
            }
        }
        match self.stage {
            KStage::Low => Some(self.k0 - self.step),
            KStage::High => Some(self.k0 + self.step),
            KStage::Centre => Some(self.k0),
            KStage::Walk => Some(self.k + self.delta),
            KStage::Done => None,
        }
    }

    /// Takes the error at the probe point.
    pub fn record(&mut self, err: u64)
        requires
            kcal_wf(old(self)@),
        ensures
            final(self)@ == kcal_record_spec(old(self)@, err),
            kcal_wf(final(self)@),
    {
        match self.stage {
            KStage::Low => {
                self.low = err;
                self.stage = KStage::High;
            },
            KStage::High => {
                self.delta = if self.low >= err { self.step } else { -self.step };
                self.stage = KStage::Centre;
            },
            KStage::Centre => {
                self.k = self.k0;
                self.best = err;
                self.stage = if self.max_walk == 0 { KStage::Done } else { KStage::Walk };
            },
            KStage::Walk => {
                if err < self.best {
                    proof {
                        lemma_walk_fits(self@);
                    }
                    self.k = self.k + self.delta;
                    self.best = err;
                    self.walked = self.walked + 1;
                    self.stage = if self.walked >= self.max_walk { KStage::Done } else { KStage::Walk };
                } else {
                    self.stage = KStage::Done;
                }
            },
            KStage::Done => {},
        }
    }

    /// The best point found so far; the result once the search is over.
    pub fn k(&self) -> (r: i64)
        ensures
            r == self@.k,
    {
        self.k
    }

    /// Whether the search is over.
    pub fn is_done(&self) -> (r: bool)
        ensures
            r == (self@.stage == KStage::Done),
    {
        self.stage == KStage::Done
    }
}

} // verus!
