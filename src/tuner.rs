use vstd::prelude::*;
use crate::score::{part_spec, with_part_spec, S};

verus! {

/// What the tuner is: the weights under trial, the direction cache, the best
/// error so far, the component under trial (weight `index`, midgame or
/// endgame part), whether the opposite step is being tried, the value the
/// component had before the trial, whether this epoch improved, the best
/// error when this epoch started, and whether the search is over.
pub struct TunerView {
    pub params: Seq<S>,
    pub cache: Seq<S>,
    pub best: u64,
    pub index: int,
    pub endgame: bool,
    pub backward: bool,
    pub base: i16,
    pub improved: bool,
    pub epoch_best: u64,
    pub done: bool,
}

pub open spec fn in_i16(x: int) -> bool {
    -32768 <= x <= 32767
}

/// The component under trial set to `v`.
pub open spec fn set_current(t: TunerView, v: int) -> Seq<S> {
    t.params.update(t.index, with_part_spec(t.params[t.index], t.endgame, v as i16))
}

/// Starts the trial of the current component: its cached step, or the
/// opposite step where the cached one would leave the range of `i16`.
pub open spec fn start_trial(t: TunerView) -> TunerView {
    let v = part_spec(t.params[t.index], t.endgame) as int;
    let d = part_spec(t.cache[t.index], t.endgame) as int;
    if in_i16(v + d) {
        TunerView { params: set_current(t, v + d), base: v as i16, backward: false, ..t }
    } else {
        TunerView { params: set_current(t, v - d), base: v as i16, backward: true, ..t }
    }
}

/// Moves on to the next component (midgame part, then endgame part, weight
/// by weight). After the last one a new epoch starts if this one improved;
/// otherwise the search is over.
pub open spec fn advance(t: TunerView) -> TunerView {
    if !t.endgame {
        start_trial(TunerView { endgame: true, ..t })
    } else if t.index + 1 < t.params.len() {
        start_trial(TunerView { index: t.index + 1, endgame: false, ..t })
    } else if t.improved {
        start_trial(TunerView { index: 0, endgame: false, improved: false, epoch_best: t.best, ..t })
    } else {
        TunerView { index: 0, endgame: false, done: true, ..t }
    }
}

/// The current component put back to its value before the trial.
pub open spec fn restore(t: TunerView) -> TunerView {
    TunerView { params: set_current(t, t.base as int), ..t }
}

/// The cache with the current component's direction reversed.
pub open spec fn flip_current(t: TunerView) -> Seq<S> {
    let d = part_spec(t.cache[t.index], t.endgame) as int;
    t.cache.update(t.index, with_part_spec(t.cache[t.index], t.endgame, (-d) as i16))
}

/// The tuner after the error `err` of its current weights is known. An
/// error below the best keeps the step (and, for the opposite step,
/// reverses the cached direction). Otherwise a cached step is followed by
/// the opposite one, and an opposite step is undone.
pub open spec fn record_spec(t: TunerView, err: u64) -> TunerView {
    if t.done {
        t
    } else if err < t.best {
        advance(
            TunerView {
                best: err,
                improved: true,
                cache: if t.backward { flip_current(t) } else { t.cache },
                ..t
            },
        )
    } else if !t.backward && in_i16(
        t.base - part_spec(t.cache[t.index], t.endgame),
    ) {
        TunerView {
            params: set_current(t, t.base - part_spec(t.cache[t.index], t.endgame)),
            backward: true,
            ..t
        }
    } else {
        advance(restore(t))
    }
}

/// The tuner after the errors `errs`, in order.
pub open spec fn run_spec(t: TunerView, errs: Seq<u64>) -> TunerView
    decreases errs.len(),
{
    if errs.len() == 0 {
        t
    } else {
        run_spec(record_spec(t, errs[0]), errs.drop_first())
    }
}

/// Well formed: one cached direction, 1 or -1, per weight part, and the
/// component under trial is its value before the trial moved by the step
/// being tried.
pub open spec fn tuner_wf(t: TunerView) -> bool {
    &&& tuner_shape(t)
    &&& epoch_progress(t)
    &&& !t.done ==> part_spec(t.params[t.index], t.endgame) as int == t.base + if t.backward {
        -part_spec(t.cache[t.index], t.endgame)
    } else {
        part_spec(t.cache[t.index], t.endgame) as int
    }
}

/// Within an epoch the best error has not grown since the epoch started,
/// and the epoch counts as improved exactly when it has fallen.
pub open spec fn epoch_progress(t: TunerView) -> bool {
    &&& t.best <= t.epoch_best
    &&& t.improved <==> t.best < t.epoch_best
}

/// One cached direction, 1 or -1, per weight part, and a component under
/// trial that exists.
pub open spec fn tuner_shape(t: TunerView) -> bool {
    &&& t.params.len() == t.cache.len()
    &&& t.params.len() > 0
    &&& 0 <= t.index < t.params.len()
    &&& forall|i: int|
        0 <= i < t.cache.len() ==> (#[trigger] t.cache[i].0 == 1 || t.cache[i].0 == -1) && (
        t.cache[i].1 == 1 || t.cache[i].1 == -1)
}

/// The best error never grows, whatever errors come in.
pub proof fn lemma_best_never_increases(t: TunerView, errs: Seq<u64>)
    ensures
        run_spec(t, errs).best <= t.best,
    decreases errs.len(),
{
    if errs.len() > 0 {
        lemma_best_never_increases(record_spec(t, errs[0]), errs.drop_first());
    }
}

/// Coordinate-descent search over the weights: one weight part at a time
/// is moved by one, kept where the error falls and undone where it does
/// not, until a whole epoch brings no improvement.
pub struct Tuner {
    params: Vec<S>,
    cache: Vec<S>,
    best: u64,
    index: usize,
    endgame: bool,
    backward: bool,
    base: i16,
    improved: bool,
    epoch_best: u64,
    done: bool,
}

impl View for Tuner {
    type V = TunerView;

    closed spec fn view(&self) -> TunerView {
        TunerView {
            params: self.params@,
            cache: self.cache@,
            best: self.best,
            index: self.index as int,
            endgame: self.endgame,
            backward: self.backward,
            base: self.base,
            improved: self.improved,
            epoch_best: self.epoch_best,
            done: self.done,
        }
    }
}

impl Tuner {
    /// Starts from the weights `params`, whose error is `best`, with every
    /// cached direction +1, and sets up the first trial.
    pub fn new(params: Vec<S>, best: u64) -> (r: Tuner)
        requires
            params@.len() > 0,
        ensures
            tuner_wf(r@),
            r@ == start_trial(
                TunerView {
                    params: params@,
                    cache: Seq::new(params@.len(), |i: int| S(1, 1)),
                    best,
                    index: 0,
                    endgame: false,
                    backward: false,
                    base: 0,
                    improved: false,
                    epoch_best: best,
                    done: false,
                },
            ),
    {
        let mut cache: Vec<S> = Vec::new();
        let mut i: usize = 0;
        while i < params.len()
            invariant
                i <= params@.len(),
                cache@ == Seq::new(i as nat, |j: int| S(1, 1)),
            decreases params@.len() - i,
        {
            cache.push(S::ones());
            i += 1;
            assert(cache@ =~= Seq::new(i as nat, |j: int| S(1, 1)));
        }
        let mut t = Tuner {
            params,
            cache,
            best,
            index: 0,
            endgame: false,
            backward: false,
            base: 0,
            improved: false,
            epoch_best: best,
            done: false,
        };
        t.start_trial();
        t
    }

    fn set_current(&mut self, v: i16)
        requires
            old(self).index < old(self).params@.len(),
        ensures
            final(self)@ == (TunerView { params: set_current(old(self)@, v as int), ..old(self)@ }),
    {
        let w = self.params[self.index].with_part(self.endgame, v);
        self.params.set(self.index, w);
    }

    fn start_trial(&mut self)
        requires
            old(self).params@.len() == old(self).cache@.len(),
            old(self).index < old(self).params@.len(),
            forall|i: int|
                0 <= i < old(self).cache@.len() ==> (#[trigger] old(self).cache@[i].0 == 1
                    || old(self).cache@[i].0 == -1) && (old(self).cache@[i].1 == 1
                    || old(self).cache@[i].1 == -1),
        ensures
            final(self)@ == start_trial(old(self)@),
    {
        let v = self.params[self.index].part(self.endgame);
        let d = self.cache[self.index].part(self.endgame);
        if (v as i32) + (d as i32) <= 32767 && (v as i32) + (d as i32) >= -32768 {
            self.set_current(v + d);
            self.backward = false;
        } else {
            self.set_current(v - d);
            self.backward = true;
        }
        self.base = v;
    }

    fn advance(&mut self)
        requires
            tuner_shape(old(self)@),
        ensures
            final(self)@ == advance(old(self)@),
    {
        if !self.endgame {
            self.endgame = true;
            self.start_trial();
        } else if self.index < self.params.len() - 1 {
            self.index = self.index + 1;
            self.endgame = false;
            self.start_trial();
        } else if self.improved {
            self.index = 0;
            self.endgame = false;
            self.improved = false;
            self.epoch_best = self.best;
            self.start_trial();
        } else {
            self.index = 0;
            self.endgame = false;
            self.done = true;
        }
    }

    /// Takes the error of the current weights and sets up the next trial.
    /// Returns whether the search goes on; once it is over the weights are
    /// the best found and stay as they are.
    pub fn record(&mut self, err: u64) -> (more: bool)
        requires
            tuner_wf(old(self)@),
        ensures
            final(self)@ == record_spec(old(self)@, err),
            tuner_wf(final(self)@),
            final(self)@.best <= old(self)@.best,
            more == !final(self)@.done,
    {
        proof {
            lemma_record_wf(self@, err);
        }
        if self.done {
            return false;
        }
        let d = self.cache[self.index].part(self.endgame);
        if err < self.best {
            self.best = err;
            self.improved = true;
            if self.backward {
                let c = self.cache[self.index].with_part(self.endgame, -d);
                self.cache.set(self.index, c);
            }
            assert(tuner_shape(self@)) by {
                assert(self@.params.len() == self@.cache.len());
                assert(self@.params.len() > 0);
                assert(0 <= self@.index < self@.params.len());
                assert forall|i: int| 0 <= i < self@.cache.len() implies (
                #[trigger] self@.cache[i].0 == 1 || self@.cache[i].0 == -1) && (self@.cache[i].1
                    == 1 || self@.cache[i].1 == -1) by {
                    if i != self.index {
                        assert(self@.cache[i] == old(self)@.cache[i]);
                    }
                }
            }
            self.advance();
        } else if !self.backward && (self.base as i32) - (d as i32) >= -32768 && (self.base as i32)
            - (d as i32) <= 32767 {
            self.set_current(self.base - d);
            self.backward = true;
        } else {
            let b = self.base;
            self.set_current(b);
            assert(self@.cache == old(self)@.cache);
            self.advance();
        }
        !self.done
    }

    /// The weights to evaluate next (the best found, once the search is over).
    pub fn weights(&self) -> (r: &[S])
        ensures
            r@ == self@.params,
    {
        self.params.as_slice()
    }

    /// The best error so far.
    pub fn best(&self) -> (r: u64)
        ensures
            r == self@.best,
    {
        self.best
    }

    /// The component under trial: the weight's index and whether it is the
    /// endgame part.
    pub fn cursor(&self) -> (r: (usize, bool))
        ensures
            r.0 == self@.index,
            r.1 == self@.endgame,
    {
        (self.index, self.endgame)
    }

    /// Whether the search is over.
    pub fn is_done(&self) -> (r: bool)
        ensures
            r == self@.done,
    {
        self.done
    }
}

proof fn lemma_start_trial_wf(t: TunerView)
    requires
        t.params.len() == t.cache.len(),
        t.params.len() > 0,
        0 <= t.index < t.params.len(),
        forall|i: int|
            0 <= i < t.cache.len() ==> (#[trigger] t.cache[i].0 == 1 || t.cache[i].0 == -1) && (
            t.cache[i].1 == 1 || t.cache[i].1 == -1),
        !t.done,
        epoch_progress(t),
    ensures
        tuner_wf(start_trial(t)),
{
}

proof fn lemma_advance_wf(t: TunerView)
    requires
        t.params.len() == t.cache.len(),
        t.params.len() > 0,
        0 <= t.index < t.params.len(),
        forall|i: int|
            0 <= i < t.cache.len() ==> (#[trigger] t.cache[i].0 == 1 || t.cache[i].0 == -1) && (
            t.cache[i].1 == 1 || t.cache[i].1 == -1),
        !t.done,
        epoch_progress(t),
    ensures
        tuner_wf(advance(t)),
{
    if !t.endgame {
        lemma_start_trial_wf(TunerView { endgame: true, ..t });
    } else if t.index + 1 < t.params.len() {
        lemma_start_trial_wf(TunerView { index: t.index + 1, endgame: false, ..t });
    } else if t.improved {
        lemma_start_trial_wf(
            TunerView { index: 0, endgame: false, improved: false, epoch_best: t.best, ..t },
        );
    }
}

proof fn lemma_record_wf(t: TunerView, err: u64)
    requires
        tuner_wf(t),
    ensures
        tuner_wf(record_spec(t, err)),
        record_spec(t, err).best <= t.best,
{
    if !t.done {
        if err < t.best {
            let t2 = TunerView {
                best: err,
                improved: true,
                cache: if t.backward { flip_current(t) } else { t.cache },
                ..t
            };
            assert forall|i: int| 0 <= i < t2.cache.len() implies (#[trigger] t2.cache[i].0 == 1
                || t2.cache[i].0 == -1) && (t2.cache[i].1 == 1 || t2.cache[i].1 == -1) by {
                if i != t.index {
                    assert(t2.cache[i] == t.cache[i]);
                }
            }
            lemma_advance_wf(t2);
        } else if !t.backward && in_i16(t.base - part_spec(t.cache[t.index], t.endgame)) {
        } else {
            lemma_advance_wf(restore(t));
        }
    }
}

/// Whatever errors come in, the tuner stays well formed: within every epoch
/// the best error never rises above its value at the epoch's start, and the
/// epoch counts as improved exactly when the best error has fallen below it.
pub proof fn lemma_epoch_progress(t: TunerView, errs: Seq<u64>)
    requires
        tuner_wf(t),
    ensures
        tuner_wf(run_spec(t, errs)),
        epoch_progress(run_spec(t, errs)),
    decreases errs.len(),
{
    if errs.len() > 0 {
        lemma_record_wf(t, errs[0]);
        lemma_epoch_progress(record_spec(t, errs[0]), errs.drop_first());
    }
}

} // verus!
