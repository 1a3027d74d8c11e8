//! The run over the stages of a preset: which stage comes next, what is
//! recorded of each applied stage, and when the run stops.

use vstd::prelude::*;

use crate::error::Error;
use crate::preset::{stage_has_trigger, strings, Preset, Stage, StageResult};

verus! {

/// Whether a failure of the stage lets the run go on.
pub open spec fn continues_on_error(stage: Stage) -> bool {
    stage.continue_if_err == Some(true)
}

/// Whether one of `triggers` is a trigger of the stage.
pub open spec fn stage_selected(stage: Stage, triggers: Seq<Seq<char>>) -> bool {
    exists|t: int| 0 <= t < triggers.len() && #[trigger] stage_has_trigger(stage, triggers[t])
}

/// The positions, below `n` and in increasing order, of the stages that one
/// of `triggers` selects.
pub open spec fn selected_upto(stages: Seq<Stage>, triggers: Seq<Seq<char>>, n: int) -> Seq<int>
    decreases n,
{
    if n <= 0 {
        Seq::empty()
    } else if stage_selected(stages[n - 1], triggers) {
        selected_upto(stages, triggers, n - 1).push(n - 1)
    } else {
        selected_upto(stages, triggers, n - 1)
    }
}

/// The state of a run.
pub struct RunState {
    pub stages: Seq<Stage>,
    pub triggers: Seq<Seq<char>>,
    pub next: int,
    pub stopped: bool,
    pub results: Seq<StageResult>,
}

/// The recorded result `r` is that of stage `stage`.
pub open spec fn result_of(r: StageResult, stage: Stage) -> bool {
    r.name@ == stage.name@ && r.is_success == (r.err is None)
}

/// What holds of every run: the stages below `next` that the triggers
/// select have been applied, in order, each with its result; every failed
/// stage but the last allowed the run to go on; and the run has stopped
/// exactly when the last applied stage failed without allowing that.
pub open spec fn run_invariant(s: RunState) -> bool {
    let applied = selected_upto(s.stages, s.triggers, s.next);
    &&& 0 <= s.next <= s.stages.len()
    &&& s.results.len() == applied.len()
    &&& forall|k: int| 0 <= k < s.results.len() ==> #[trigger] result_of(s.results[k], s.stages[applied[k]])
    &&& forall|k: int| 0 <= k < s.results.len() - 1 ==> (#[trigger] s.results[k]).is_success
        || continues_on_error(s.stages[applied[k]])
    &&& s.stopped == (s.results.len() > 0 && !s.results.last().is_success && !continues_on_error(
        s.stages[applied.last()],
    ))
}

/// When no stage in `[a, b)` is selected, the selected positions below `b`
/// are those below `a`.
proof fn lemma_selected_skip(stages: Seq<Stage>, triggers: Seq<Seq<char>>, a: int, b: int)
    requires
        0 <= a <= b,
        forall|j: int| a <= j < b ==> !#[trigger] stage_selected(stages[j], triggers),
    ensures
        selected_upto(stages, triggers, b) == selected_upto(stages, triggers, a),
    decreases b - a,
{
    if b > a {
        lemma_selected_skip(stages, triggers, a, b - 1);
        assert(!stage_selected(stages[b - 1], triggers));
    }
}

/// A run over the stages of a preset, driven by whoever applies the stages:
/// ask for the next stage, apply it, record its outcome.
pub struct StageRun<'a> {
    preset: &'a Preset,
    triggers: Vec<String>,
    next: usize,
    stopped: bool,
    results: Vec<StageResult>,
}

impl<'a> View for StageRun<'a> {
    type V = RunState;

    closed spec fn view(&self) -> RunState {
        RunState {
            stages: self.preset.stages@,
            triggers: strings(self.triggers@),
            next: self.next as int,
            stopped: self.stopped,
            results: self.results@,
        }
    }
}

impl<'a> StageRun<'a> {
    /// The preset whose stages are run.
    pub closed spec fn spec_preset(&self) -> Preset {
        *self.preset
    }

    /// The position of the next stage to apply: the first stage from the
    /// current position on that the triggers select; none once the run has
    /// stopped or no such stage is left.
    pub fn next_stage(&self) -> (res: Option<usize>)
        requires
            run_invariant(self@),
        ensures
            match res {
                Some(i) => {
                    &&& !self@.stopped
                    &&& self@.next <= i < self@.stages.len()
                    &&& stage_selected(self@.stages[i as int], self@.triggers)
                    &&& forall|j: int| self@.next <= j < i ==> !#[trigger] stage_selected(
                        self@.stages[j],
                        self@.triggers,
                    )
                },
                None => self@.stopped || forall|j: int| self@.next <= j < self@.stages.len()
                    ==> !#[trigger] stage_selected(self@.stages[j], self@.triggers),
            },
    {
        if self.stopped {
            return None;
        }
        let stages = &self.preset.stages;
        let mut i = self.next;
        while i < stages.len()
            invariant
                self.next <= i <= stages@.len(),
                !self.stopped,
                stages@ == self@.stages,
                forall|j: int| self@.next <= j < i ==> !#[trigger] stage_selected(self@.stages[j], self@.triggers),
            decreases stages@.len() - i,
        {
            if self.selects(&stages[i]) {
                return Some(i);
            }
            i = i + 1;
        }
        None
    }

    /// Whether one of the run's triggers is a trigger of `stage`.
    fn selects(&self, stage: &Stage) -> (res: bool)
        ensures
            res == stage_selected(*stage, self@.triggers),
    {
        let mut t: usize = 0;
        while t < self.triggers.len()
            invariant
                t <= self.triggers@.len(),
                forall|u: int| 0 <= u < t ==> !#[trigger] stage_has_trigger(*stage, strings(self.triggers@)[u]),
            decreases self.triggers@.len() - t,
        {
            if stage.has_trigger(self.triggers[t].as_str()) {
                assert(stage_has_trigger(*stage, strings(self.triggers@)[t as int]));
                return true;
            }
            t = t + 1;
        }
        false
    }

    /// Records the outcome of applying the stage at `index`, which took
    /// `time` milliseconds; a failure stops the run unless the stage lets it
    /// go on.
    pub fn record(&mut self, index: usize, time: u128, outcome: Result<(), Error>)
        requires
            run_invariant(old(self)@),
            !old(self)@.stopped,
            old(self)@.next <= index < old(self)@.stages.len(),
            stage_selected(old(self)@.stages[index as int], old(self)@.triggers),
            forall|j: int| old(self)@.next <= j < index ==> !#[trigger] stage_selected(
                old(self)@.stages[j],
                old(self)@.triggers,
            ),
        ensures
            run_invariant(final(self)@),
            final(self)@.stages == old(self)@.stages,
            final(self)@.triggers == old(self)@.triggers,
            final(self)@.next == index + 1,
            final(self)@.stopped == (outcome is Err && !continues_on_error(old(self)@.stages[index as int])),
            final(self)@.results.len() == old(self)@.results.len() + 1,
            final(self)@.results.drop_last() == old(self)@.results,
            final(self)@.results.last().name@ == old(self)@.stages[index as int].name@,
            final(self)@.results.last().time == time,
            final(self)@.results.last().is_success == (outcome is Ok),
            final(self)@.results.last().err == match outcome {
                Ok(_) => None,
                Err(e) => Some(e),
            },
    {
        let ghost old_state = self@;
        proof {
            assert(index < self.preset.stages.len());
        }
        let stage = &self.preset.stages[index];
        let continue_if_err = match stage.continue_if_err {
            Some(c) => c,
            None => false,
        };
        let (is_success, err) = match outcome {
            Ok(()) => (true, None),
            Err(e) => (false, Some(e)),
        };
        let result = StageResult { name: stage.name.clone(), time, is_success, err };
        self.results.push(result);
        self.next = index + 1;
        self.stopped = !is_success && !continue_if_err;
        proof {
            let st = old_state.stages;
            let tr = old_state.triggers;
            lemma_selected_skip(st, tr, old_state.next, index as int);
            assert(selected_upto(st, tr, index + 1) == selected_upto(st, tr, old_state.next).push(index as int));
            let applied = selected_upto(st, tr, index + 1);
            assert(self@.results.drop_last() =~= old_state.results);
            assert forall|k: int| 0 <= k < self@.results.len() implies #[trigger] result_of(
                self@.results[k],
                st[applied[k]],
            ) by {
                if k < old_state.results.len() {
                    assert(self@.results[k] == old_state.results[k]);
                }
            }
            assert forall|k: int| 0 <= k < self@.results.len() - 1 implies (#[trigger] self@.results[k]).is_success
                || continues_on_error(st[applied[k]]) by {
                assert(self@.results[k] == old_state.results[k]);
                if k < old_state.results.len() - 1 {
                } else {
                    assert(!old_state.stopped);
                }
            }
        }
    }

    /// The results recorded so far, one per applied stage, in order.
    pub fn results(&self) -> (res: &Vec<StageResult>)
        ensures
            res@ == self@.results,
    {
        &self.results
    }

    /// Ends the run, giving the recorded results.
    pub fn into_results(self) -> (res: Vec<StageResult>)
        ensures
            res@ == self@.results,
    {
        self.results
    }
}

impl Preset {
    /// A run over the stages that one of `with_trigger` selects, about to
    /// start at the first stage.
    pub fn run<'a>(&'a self, with_trigger: Vec<&str>) -> (res: StageRun<'a>)
        ensures
            run_invariant(res@),
            res@.stages == self.stages@,
            res@.triggers == with_trigger@.map_values(|t: &str| t@),
            res@.next == 0,
            !res@.stopped,
            res@.results.len() == 0,
            res.spec_preset() == *self,
    {
        let mut triggers: Vec<String> = Vec::new();
        let mut i: usize = 0;
        while i < with_trigger.len()
            invariant
                i <= with_trigger@.len(),
                strings(triggers@) == with_trigger@.take(i as int).map_values(|t: &str| t@),
            decreases with_trigger@.len() - i,
        {
            let ghost before = triggers@;
            triggers.push(with_trigger[i].to_owned());
            proof {
                assert(with_trigger@.take(i + 1).map_values(|t: &str| t@) =~= with_trigger@.take(
                    i as int,
                ).map_values(|t: &str| t@).push(with_trigger@[i as int]@));
                assert(strings(triggers@) =~= strings(before).push(with_trigger@[i as int]@));
            }
            i = i + 1;
        }
        proof {
            assert(with_trigger@.take(with_trigger@.len() as int) =~= with_trigger@);
        }
        StageRun { preset: self, triggers, next: 0, stopped: false, results: Vec::new() }
    }

    /// A run over the stages triggered by `apply`.
    pub fn apply<'a>(&'a self) -> (res: StageRun<'a>)
        ensures
            run_invariant(res@),
            res@.stages == self.stages@,
            res@.triggers == seq!["apply"@],
            res@.next == 0,
            !res@.stopped,
            res@.results.len() == 0,
            res.spec_preset() == *self,
    {
        let res = self.run(vec!["apply"]);
        assert(res@.triggers =~= seq!["apply"@]);
        res
    }

    /// A run over the stages triggered by `unapply`.
    pub fn unapply<'a>(&'a self) -> (res: StageRun<'a>)
        ensures
            run_invariant(res@),
            res@.stages == self.stages@,
            res@.triggers == seq!["unapply"@],
            res@.next == 0,
            !res@.stopped,
            res@.results.len() == 0,
            res.spec_preset() == *self,
    {
        let res = self.run(vec!["unapply"]);
        assert(res@.triggers =~= seq!["unapply"@]);
        res
    }
}

/// The selected positions below `n` are selected, below `n`, and in
/// increasing order.
proof fn lemma_selected_upto_facts(stages: Seq<Stage>, triggers: Seq<Seq<char>>, n: int)
    requires
        0 <= n <= stages.len(),
    ensures
        forall|k: int| 0 <= k < selected_upto(stages, triggers, n).len() ==> {
            let j = #[trigger] selected_upto(stages, triggers, n)[k];
            0 <= j < n && stage_selected(stages[j], triggers)
        },
        forall|k: int, l: int| 0 <= k < l < selected_upto(stages, triggers, n).len()
            ==> #[trigger] selected_upto(stages, triggers, n)[k] < #[trigger] selected_upto(stages, triggers, n)[l],
    decreases n,
{
    if n > 0 {
        lemma_selected_upto_facts(stages, triggers, n - 1);
        let p = selected_upto(stages, triggers, n - 1);
        let cur = selected_upto(stages, triggers, n);
        if stage_selected(stages[n - 1], triggers) {
            assert(cur == p.push(n - 1));
            assert forall|k: int| 0 <= k < cur.len() implies {
                let j = #[trigger] cur[k];
                0 <= j < n && stage_selected(stages[j], triggers)
            } by {
                if k < p.len() {
                    assert(cur[k] == p[k]);
                }
            }
            assert forall|k: int, l: int| 0 <= k < l < cur.len() implies #[trigger] cur[k] < #[trigger] cur[l] by {
                assert(cur[k] == p[k]);
                if l < p.len() {
                    assert(cur[l] == p[l]);
                }
            }
        } else {
            assert(cur == p);
        }
    }
}

/// Every result of a run is that of a stage that one of the run's triggers
/// selects, the results come in the order of the stages, and no stage has
/// two results; every failed stage but the last allowed the run to go on.
pub proof fn lemma_run_results(s: RunState)
    requires
        run_invariant(s),
    ensures
        forall|k: int| 0 <= k < s.results.len() ==> exists|j: int| {
            &&& 0 <= j < s.next
            &&& stage_selected(s.stages[j], s.triggers)
            &&& #[trigger] s.results[k].name@ == s.stages[j].name@
            &&& j == selected_upto(s.stages, s.triggers, s.next)[k]
        },
        forall|k: int, l: int| 0 <= k < l < s.results.len() ==> #[trigger] selected_upto(s.stages, s.triggers, s.next)[k]
            < #[trigger] selected_upto(s.stages, s.triggers, s.next)[l],
        forall|k: int| 0 <= k < s.results.len() - 1 && !(#[trigger] s.results[k]).is_success
            ==> continues_on_error(s.stages[selected_upto(s.stages, s.triggers, s.next)[k]]),
{
    lemma_selected_upto_facts(s.stages, s.triggers, s.next);
    let applied = selected_upto(s.stages, s.triggers, s.next);
    assert forall|k: int| 0 <= k < s.results.len() implies exists|j: int| {
        &&& 0 <= j < s.next
        &&& stage_selected(s.stages[j], s.triggers)
        &&& #[trigger] s.results[k].name@ == s.stages[j].name@
        &&& j == selected_upto(s.stages, s.triggers, s.next)[k]
    } by {
        assert(result_of(s.results[k], s.stages[applied[k]]));
        let j = applied[k];
        assert(0 <= j < s.next && stage_selected(s.stages[j], s.triggers));
    }
}

} // verus!
