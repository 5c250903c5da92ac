//! The report model and its aggregation. Per-exercise outcomes are folded,
//! in discovery order, into a sequence of results and one set of statistics;
//! the statistics always balance with the result sequence they summarize.

use vstd::prelude::*;

use vstd::arithmetic::div_mod::lemma_fundamental_div_mod;
use vstd::arithmetic::div_mod::lemma_mod_division_less_than_divisor;

verus! {

/// The graded outcome of one exercise: its identifying name, whether the
/// toolchain passed it, and the elapsed wall-clock seconds measured from the
/// start of its compile step.
#[derive(Debug)]
pub struct ExerciseOutcome {
    pub name: String,
    pub success: bool,
    pub elapsed_secs: u64,
}

/// One line of the report: an exercise's name and its pass/fail verdict.
#[derive(Debug)]
pub struct ExerciseResult {
    pub name: String,
    pub result: bool,
}

/// The aggregate counters of a grading run.
#[derive(Clone, Copy, PartialEq, Eq, Structural, Debug)]
pub struct Statistics {
    pub total_exercations: usize,
    pub total_succeeds: usize,
    pub total_failures: usize,
    pub total_time: u64,
}

/// The root artifact of a grading run: the per-exercise results in discovery
/// order, and the statistics that summarize them.
#[derive(Debug)]
pub struct GradeResult {
    pub exercises: Vec<ExerciseResult>,
    pub statistics: Statistics,
}

impl Statistics {
    /// The counters balance: the successes and failures partition the total.
    pub open spec fn wf(self) -> bool {
        self.total_exercations == self.total_succeeds + self.total_failures
    }
}

impl GradeResult {
    /// The statistics agree with the result sequence they summarize.
    pub open spec fn wf(self) -> bool {
        self.statistics.wf() && self.statistics.total_exercations == self.exercises@.len()
    }
}

/// How many outcomes of a batch succeeded.
pub open spec fn spec_succeeds(os: Seq<ExerciseOutcome>) -> int
    decreases os.len(),
{
    if os.len() == 0 {
        0
    } else {
        spec_succeeds(os.drop_last()) + if os.last().success {
            1int
        } else {
            0int
        }
    }
}

/// How many outcomes of a batch failed.
pub open spec fn spec_failures(os: Seq<ExerciseOutcome>) -> int
    decreases os.len(),
{
    if os.len() == 0 {
        0
    } else {
        spec_failures(os.drop_last()) + if os.last().success {
            0int
        } else {
            1int
        }
    }
}

/// The sum of the per-exercise elapsed seconds of a batch.
pub open spec fn spec_total_time(os: Seq<ExerciseOutcome>) -> int
    decreases os.len(),
{
    if os.len() == 0 {
        0
    } else {
        spec_total_time(os.drop_last()) + os.last().elapsed_secs
    }
}

/// In every batch the successes and failures partition the outcomes: their
/// counts are non-negative and sum to the batch's length.
pub proof fn lemma_succeeds_failures_partition(os: Seq<ExerciseOutcome>)
    ensures
        spec_succeeds(os) + spec_failures(os) == os.len(),
        0 <= spec_succeeds(os),
        0 <= spec_failures(os),
    decreases os.len(),
{
    if os.len() > 0 {
        lemma_succeeds_failures_partition(os.drop_last());
    }
}

/// The elapsed time of every prefix of a batch is non-negative and no more
/// than the whole batch's elapsed time.
pub proof fn lemma_time_prefix_bound(os: Seq<ExerciseOutcome>, i: int)
    requires
        0 <= i <= os.len(),
    ensures
        0 <= spec_total_time(os.subrange(0, i)) <= spec_total_time(os),
    decreases os.len() - i,
{
    if i == os.len() {
        assert(os.subrange(0, i) =~= os);
        lemma_time_nonneg(os);
    } else {
        lemma_time_prefix_bound(os, i + 1);
        assert(os.subrange(0, i + 1).drop_last() =~= os.subrange(0, i));
        lemma_time_nonneg(os.subrange(0, i));
    }
}

/// The elapsed time of a batch is non-negative.
pub proof fn lemma_time_nonneg(os: Seq<ExerciseOutcome>)
    ensures
        0 <= spec_total_time(os),
    decreases os.len(),
{
    if os.len() > 0 {
        lemma_time_nonneg(os.drop_last());
    }
}

/// Fold a batch of outcomes, in order, into the final report. The statistics
/// are accumulated one outcome at a time and provably equal the counts and
/// the time sum over the full result sequence.
pub fn grade_all_exercises(outcomes: &Vec<ExerciseOutcome>) -> (r: GradeResult)
    requires
        spec_total_time(outcomes@) <= u64::MAX,
    ensures
        r.wf(),
        r.exercises@.len() == outcomes@.len(),
        forall|i: int|
            0 <= i < outcomes@.len() ==> (#[trigger] r.exercises@[i]).name@ == outcomes@[i].name@
                && r.exercises@[i].result == outcomes@[i].success,
        r.statistics.total_exercations == outcomes@.len(),
        r.statistics.total_succeeds == spec_succeeds(outcomes@),
        r.statistics.total_failures == spec_failures(outcomes@),
        r.statistics.total_time == spec_total_time(outcomes@),
{
    let n = outcomes.len();
    let mut exercises: Vec<ExerciseResult> = Vec::new();
    let mut succeeds: usize = 0;
    let mut failures: usize = 0;
    let mut time: u64 = 0;
    let mut i: usize = 0;
    proof {
        assert(outcomes@.subrange(0, 0) =~= Seq::<ExerciseOutcome>::empty());
    }
    while i < n
        invariant
            n == outcomes@.len(),
            i <= n,
            exercises@.len() == i,
            forall|j: int|
                0 <= j < i ==> (#[trigger] exercises@[j]).name@ == outcomes@[j].name@
                    && exercises@[j].result == outcomes@[j].success,
            succeeds == spec_succeeds(outcomes@.subrange(0, i as int)),
            failures == spec_failures(outcomes@.subrange(0, i as int)),
            time == spec_total_time(outcomes@.subrange(0, i as int)),
            spec_total_time(outcomes@) <= u64::MAX,
        decreases n - i,
    {
        proof {
            lemma_succeeds_failures_partition(outcomes@.subrange(0, i as int));
            lemma_time_prefix_bound(outcomes@, i + 1);
            assert(outcomes@.subrange(0, i + 1).drop_last() =~= outcomes@.subrange(0, i as int));
            assert(outcomes@.subrange(0, i + 1).last() == outcomes@[i as int]);
        }
        let o = &outcomes[i];
        if o.success {
            succeeds += 1;
        } else {
            failures += 1;
        }
        time += o.elapsed_secs;
        exercises.push(ExerciseResult { name: o.name.clone(), result: o.success });
        i += 1;
    }
    proof {
        assert(outcomes@.subrange(0, n as int) =~= outcomes@);
        lemma_succeeds_failures_partition(outcomes@);
    }
    GradeResult {
        exercises,
        statistics: Statistics {
            total_exercations: n,
            total_succeeds: succeeds,
            total_failures: failures,
            total_time: time,
        },
    }
}

/// Wrap one graded outcome in a report whose totals are exactly one.
pub fn grade_single_exercise(outcome: ExerciseOutcome) -> (r: GradeResult)
    ensures
        r.wf(),
        r.exercises@.len() == 1,
        r.exercises@[0].name@ == outcome.name@,
        r.exercises@[0].result == outcome.success,
        r.statistics.total_exercations == 1,
        r.statistics.total_succeeds == if outcome.success {
            1int
        } else {
            0int
        },
        r.statistics.total_failures == if outcome.success {
            0int
        } else {
            1int
        },
        r.statistics.total_time == outcome.elapsed_secs,
{
    let success = outcome.success;
    let time = outcome.elapsed_secs;
    let mut exercises: Vec<ExerciseResult> = Vec::new();
    exercises.push(ExerciseResult { name: outcome.name, result: success });
    GradeResult {
        exercises,
        statistics: Statistics {
            total_exercations: 1,
            total_succeeds: if success {
                1
            } else {
                0
            },
            total_failures: if success {
                0
            } else {
                1
            },
            total_time: time,
        },
    }
}

/// The pass rate in hundredths of a percent — the two-decimal percentage
/// scaled by one hundred — rounding half up; exactly zero when nothing was
/// graded.
pub fn pass_rate_centi_percent(succeeds: usize, total: usize) -> (r: u64)
    requires
        succeeds <= total,
    ensures
        total == 0 ==> r == 0,
        total > 0 ==> r == (10000 * succeeds + total as int / 2) / total as int,
        r <= 10000,
{
    if total == 0 {
        return 0;
    }
    let s: u128 = succeeds as u128;
    let t: u128 = total as u128;
    let num: u128 = 10000 * s + t / 2;
    let q: u128 = num / t;
    proof {
        let si = succeeds as int;
        let ti = total as int;
        let h = ti / 2;
        let numi = 10000 * si + h;
        let qi = numi / ti;
        lemma_fundamental_div_mod(ti, 2);
        lemma_mod_division_less_than_divisor(ti, 2);
        lemma_fundamental_div_mod(numi, ti);
        lemma_mod_division_less_than_divisor(numi, ti);
        assert(ti * qi <= numi);
        assert(numi <= 10000 * ti + h);
        vstd::arithmetic::div_mod::lemma_div_pos_is_pos(numi, ti);
        assert(qi <= 10000) by (nonlinear_arith)
            requires
                ti >= 1,
                ti * qi <= 10000 * ti + h,
                2 * h <= ti,
                0 <= h,
        ;
        assert(num == numi);
        assert(q == qi);
    }
    q as u64
}

} // verus!
