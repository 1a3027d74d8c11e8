//! Decisions of the command-line front end: whether the user confirmed a
//! re-application, and the figures of the final report.

use vstd::prelude::*;

use crate::config::Config;
use crate::preset::{Preset, StageResult};
use crate::run::{run_invariant, StageRun};

verus! {

/// A character that Unicode counts as white space.
pub open spec fn is_white_space(c: char) -> bool {
    let u = c as int;
    ||| 0x9 <= u <= 0xD
    ||| u == 0x20
    ||| u == 0x85
    ||| u == 0xA0
    ||| u == 0x1680
    ||| 0x2000 <= u <= 0x200A
    ||| u == 0x2028
    ||| u == 0x2029
    ||| u == 0x202F
    ||| u == 0x205F
    ||| u == 0x3000
}

/// `s` without its leading white space.
pub open spec fn trim_start_of(s: Seq<char>) -> Seq<char>
    decreases s.len(),
{
    if s.len() > 0 && is_white_space(s[0]) {
        trim_start_of(s.subrange(1, s.len() as int))
    } else {
        s
    }
}

/// `s` without its trailing white space.
pub open spec fn trim_end_of(s: Seq<char>) -> Seq<char>
    decreases s.len(),
{
    if s.len() > 0 && is_white_space(s.last()) {
        trim_end_of(s.drop_last())
    } else {
        s
    }
}

/// `s` without its leading and trailing white space.
pub open spec fn trim_of(s: Seq<char>) -> Seq<char> {
    trim_end_of(trim_start_of(s))
}

/// The lower-case form of a text, by the Unicode case mapping.
pub uninterp spec fn lowercased(s: Seq<char>) -> Seq<char>;

/// A text made only of white space trims to nothing.
pub proof fn lemma_white_space_trims_to_empty(s: Seq<char>)
    ensures
        (forall|i: int| 0 <= i < s.len() ==> is_white_space(#[trigger] s[i])) ==> trim_of(s).len() == 0,
{
    if forall|i: int| 0 <= i < s.len() ==> is_white_space(#[trigger] s[i]) {
        lemma_trim_start_white_space(s);
    }
}

/// Trimming the start of a text made only of white space leaves nothing.
proof fn lemma_trim_start_white_space(s: Seq<char>)
    requires
        forall|i: int| 0 <= i < s.len() ==> is_white_space(#[trigger] s[i]),
    ensures
        trim_start_of(s).len() == 0,
    decreases s.len(),
{
    if s.len() > 0 {
        let t = s.subrange(1, s.len() as int);
        assert forall|i: int| 0 <= i < t.len() implies is_white_space(#[trigger] t[i]) by {
            assert(t[i] == s[i + 1]);
        }
        assert(is_white_space(s[0]));
        lemma_trim_start_white_space(t);
    }
}

/// Calls `str::trim`: the text without the leading and trailing characters
/// that have the Unicode `White_Space` property.
#[verifier::external_body]
fn trim_text(s: &str) -> (res: &str)
    ensures
        res@ == trim_of(s@),
{
    s.trim()
}

/// Calls `str::to_lowercase`: the text with each character mapped to its
/// lower-case form; the mapping itself is left unstated, except that the
/// empty text stays empty (there is no character to map).
#[verifier::external_body]
fn lowercase_text(s: &str) -> (res: String)
    ensures
        res@ == lowercased(s@),
        s@.len() == 0 ==> res@.len() == 0,
{
    s.to_lowercase()
}

/// Whether the answer to the question whether to apply a preset again is a
/// yes: `y` or `yes` in any case, with white space around it.
pub fn reapply_confirmed(answer: &str) -> (res: bool)
    ensures
        res == confirms(answer@),
        trim_of(answer@).len() == 0 ==> !res,
        (forall|i: int| 0 <= i < answer@.len() ==> is_white_space(#[trigger] answer@[i])) ==> !res,
{
    proof {
        lemma_white_space_trims_to_empty(answer@);
    }
    let lower = lowercase_text(trim_text(answer));
    proof {
        reveal_strlit("y");
        reveal_strlit("yes");
    }
    lower == "y".to_owned() || lower == "yes".to_owned()
}

/// The time the stages of a report took, in total.
pub open spec fn total_time(results: Seq<StageResult>) -> int
    decreases results.len(),
{
    if results.len() == 0 {
        0
    } else {
        total_time(results.drop_last()) + results.last().time
    }
}

/// The number of stages of a report that succeeded.
pub open spec fn success_count(results: Seq<StageResult>) -> int
    decreases results.len(),
{
    if results.len() == 0 {
        0
    } else {
        success_count(results.drop_last()) + if results.last().is_success {
            1int
        } else {
            0int
        }
    }
}

/// The total time of the first stages is at most that of all of them.
proof fn lemma_total_time_prefix(results: Seq<StageResult>, i: int)
    requires
        0 <= i <= results.len(),
    ensures
        0 <= total_time(results.take(i)) <= total_time(results),
    decreases results.len() - i,
{
    if i < results.len() {
        lemma_total_time_prefix(results, i + 1);
        assert(results.take(i + 1).drop_last() =~= results.take(i));
    } else {
        assert(results.take(i) =~= results);
    }
    lemma_total_time_nonnegative(results.take(i));
}

/// A total time is never negative.
proof fn lemma_total_time_nonnegative(results: Seq<StageResult>)
    ensures
        total_time(results) >= 0,
    decreases results.len(),
{
    if results.len() > 0 {
        lemma_total_time_nonnegative(results.drop_last());
    }
}

/// The figures of the report of a run.
pub struct RunSummary {
    pub total_time: u128,
    pub success_count: usize,
    pub stage_count: usize,
}

impl RunSummary {
    /// Whether every applied stage succeeded.
    pub fn all_succeeded(&self) -> (res: bool)
        ensures
            res == (self.success_count == self.stage_count),
    {
        self.success_count == self.stage_count
    }
}

/// The total time, the number of successful stages and the number of
/// stages of a run's results.
pub fn summarize(results: &[StageResult]) -> (res: RunSummary)
    requires
        total_time(results@) <= u128::MAX,
    ensures
        res.total_time == total_time(results@),
        res.success_count == success_count(results@),
        res.stage_count == results@.len(),
{
    let mut total: u128 = 0;
    let mut successes: usize = 0;
    let mut i: usize = 0;
    while i < results.len()
        invariant
            i <= results@.len(),
            total_time(results@) <= u128::MAX,
            total == total_time(results@.take(i as int)),
            successes == success_count(results@.take(i as int)),
            successes <= i,
        decreases results@.len() - i,
    {
        proof {
            assert(results@.take(i + 1).drop_last() =~= results@.take(i as int));
            lemma_total_time_prefix(results@, i + 1);
        }
        total = total + results[i].time;
        if results[i].is_success {
            successes = successes + 1;
        }
        i = i + 1;
    }
    proof {
        assert(results@.take(results@.len() as int) =~= results@);
    }
    RunSummary { total_time: total, success_count: successes, stage_count: results.len() }
}

/// Whether an answer to the question whether to apply a preset again is a
/// yes.
pub open spec fn confirms(answer: Seq<char>) -> bool {
    lowercased(trim_of(answer)) == "y"@ || lowercased(trim_of(answer)) == "yes"@
}

/// How a preset about to be applied stands in the configuration.
pub enum Registration {
    /// The preset is recorded already; the user answered `answer` to the
    /// question whether to apply it again.
    Known { answer: String },
    /// The preset is new; its backup directory `backup_dir` has been created.
    New { backup_dir: String },
}

/// Begins applying `preset`: a declined re-application gives no run and
/// leaves the configuration as it was; a confirmed one gives the run of the
/// preset's `apply` stages; a new preset is first recorded with its backup
/// directory, then gives that run.
pub fn begin_apply<'a>(preset: &'a Preset, conf: &mut Config, registration: Registration) -> (res: Option<
    StageRun<'a>,
>)
    ensures
        match registration {
            Registration::Known { answer } => {
                &&& *final(conf) == *old(conf)
                &&& confirms(answer@) ==> res is Some
                &&& !confirms(answer@) ==> res is None
            },
            Registration::New { backup_dir } => {
                &&& res is Some
                &&& final(conf).presets@.contains_key(preset.id@)
                &&& final(conf).presets@[preset.id@].name@ == preset.name@
                &&& final(conf).presets@[preset.id@].backup matches Some(b) && b@ == backup_dir@
                &&& forall|k: Seq<char>| k != preset.id@ ==> (#[trigger] final(conf).presets@.contains_key(k)
                    == old(conf).presets@.contains_key(k))
                &&& forall|k: Seq<char>| k != preset.id@ && old(conf).presets@.contains_key(k)
                    ==> #[trigger] final(conf).presets@[k] == old(conf).presets@[k]
            },
        },
        res matches Some(r) ==> {
            &&& run_invariant(r@)
            &&& r@.stages == preset.stages@
            &&& r@.triggers == seq!["apply"@]
            &&& r@.next == 0
            &&& !r@.stopped
            &&& r@.results.len() == 0
            &&& r.spec_preset() == *preset
        },
{
    match registration {
        Registration::Known { answer } => {
            if reapply_confirmed(answer.as_str()) {
                Some(preset.apply())
            } else {
                None
            }
        },
        Registration::New { backup_dir } => {
            let _ = conf.save_preset(preset.id.as_str(), preset.name.as_str(), backup_dir.as_str());
            Some(preset.apply())
        },
    }
}

/// The total time of one result is that result's time.
pub proof fn lemma_total_time_single(r: StageResult)
    ensures
        total_time(seq![r]) == r.time,
{
    assert(seq![r].drop_last() =~= Seq::<StageResult>::empty());
    assert(total_time(Seq::<StageResult>::empty()) == 0);
    assert(seq![r].last() == r);
}

/// The total time of two runs of results one after the other is the sum of
/// their total times: each stage's time is counted once.
pub proof fn lemma_total_time_concat(a: Seq<StageResult>, b: Seq<StageResult>)
    ensures
        total_time(a + b) == total_time(a) + total_time(b),
    decreases b.len(),
{
    if b.len() == 0 {
        assert(a + b =~= a);
    } else {
        lemma_total_time_concat(a, b.drop_last());
        assert((a + b).drop_last() =~= a + b.drop_last());
    }
}

/// Adding a result adds its time to the total.
pub proof fn lemma_total_time_push(rs: Seq<StageResult>, r: StageResult)
    ensures
        total_time(rs.push(r)) == total_time(rs) + r.time,
{
    lemma_total_time_concat(rs, seq![r]);
    lemma_total_time_single(r);
    assert(rs + seq![r] =~= rs.push(r));
}

/// One result counts as a success exactly when it succeeded.
pub proof fn lemma_success_count_single(r: StageResult)
    ensures
        success_count(seq![r]) == if r.is_success {
            1int
        } else {
            0int
        },
{
    assert(seq![r].drop_last() =~= Seq::<StageResult>::empty());
    assert(success_count(Seq::<StageResult>::empty()) == 0);
    assert(seq![r].last() == r);
}

/// The successes of two runs of results one after the other add up, and
/// there are never more successes than results.
pub proof fn lemma_success_count_concat(a: Seq<StageResult>, b: Seq<StageResult>)
    ensures
        success_count(a + b) == success_count(a) + success_count(b),
        0 <= success_count(b) <= b.len(),
    decreases b.len(),
{
    if b.len() == 0 {
        assert(a + b =~= a);
    } else {
        lemma_success_count_concat(a, b.drop_last());
        assert((a + b).drop_last() =~= a + b.drop_last());
    }
}

} // verus!
