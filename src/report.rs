//! What a run reports: preflight checks, counts and the overall verdict.
use vstd::prelude::*;
use crate::model::{CheckResult, ExecutedCase};

verus! {

/// The number of failed checks among `checks`.
pub open spec fn failed_checks(checks: Seq<CheckResult>) -> nat
    decreases checks.len(),
{
    if checks.len() == 0 {
        0
    } else {
        failed_checks(checks.drop_last()) + if checks.last().ok {
            0nat
        } else {
            1nat
        }
    }
}

/// The number of cases among `cases` that met their expectation.
pub open spec fn passed_cases(cases: Seq<ExecutedCase>) -> nat
    decreases cases.len(),
{
    if cases.len() == 0 {
        0
    } else {
        passed_cases(cases.drop_last()) + if cases.last().passed {
            1nat
        } else {
            0nat
        }
    }
}

proof fn lemma_passed_cases_bound(cases: Seq<ExecutedCase>)
    ensures
        passed_cases(cases) <= cases.len(),
        passed_cases(cases) == cases.len() <==> forall|i: int|
            0 <= i < cases.len() ==> (#[trigger] cases[i]).passed,
    decreases cases.len(),
{
    if cases.len() > 0 {
        lemma_passed_cases_bound(cases.drop_last());
        if passed_cases(cases) == cases.len() {
            assert forall|i: int| 0 <= i < cases.len() implies (#[trigger] cases[i]).passed by {
                if i < cases.len() - 1 {
                    assert(cases.drop_last()[i] == cases[i]);
                }
            }
        }
        if forall|i: int| 0 <= i < cases.len() ==> (#[trigger] cases[i]).passed {
            assert forall|i: int| 0 <= i < cases.len() - 1 implies (#[trigger] cases.drop_last()[
                i
            ]).passed by {
                assert(cases.drop_last()[i] == cases[i]);
            }
        }
    }
}

proof fn lemma_failed_checks_zero(checks: Seq<CheckResult>)
    ensures
        failed_checks(checks) == 0 <==> forall|i: int|
            0 <= i < checks.len() ==> (#[trigger] checks[i]).ok,
    decreases checks.len(),
{
    if checks.len() > 0 {
        lemma_failed_checks_zero(checks.drop_last());
        if failed_checks(checks) == 0 {
            assert forall|i: int| 0 <= i < checks.len() implies (#[trigger] checks[i]).ok by {
                if i < checks.len() - 1 {
                    assert(checks.drop_last()[i] == checks[i]);
                }
            }
        }
        if forall|i: int| 0 <= i < checks.len() ==> (#[trigger] checks[i]).ok {
            assert forall|i: int| 0 <= i < checks.len() - 1 implies (#[trigger] checks.drop_last()[
                i
            ]).ok by {
                assert(checks.drop_last()[i] == checks[i]);
            }
        }
    }
}

/// The counts of a run.
#[derive(Debug, Clone, Copy)]
pub struct RunSummary {
    pub checks_failed: usize,
    pub generated_edge_cases: usize,
    pub executed_cases: usize,
    pub case_passed: usize,
    pub case_failed: usize,
}

/// Counts the failed checks, the generated and executed cases, and the
/// executed cases that met and that missed their expectation.
pub fn summarize(checks: &[CheckResult], generated: usize, executed: &[ExecutedCase]) -> (r:
    RunSummary)
    ensures
        r.checks_failed == failed_checks(checks@),
        r.generated_edge_cases == generated,
        r.executed_cases == executed@.len(),
        r.case_passed == passed_cases(executed@),
        r.case_failed == executed@.len() - passed_cases(executed@),
{
    let mut failed: usize = 0;
    let mut i: usize = 0;
    while i < checks.len()
        invariant
            0 <= i <= checks@.len(),
            failed == failed_checks(checks@.take(i as int)),
            failed <= i,
        decreases checks.len() - i,
    {
        assert(checks@.take(i as int + 1).drop_last() =~= checks@.take(i as int));
        if !checks[i].ok {
            failed = failed + 1;
        }
        i = i + 1;
    }
    assert(checks@.take(i as int) =~= checks@);
    let mut passed: usize = 0;
    let mut j: usize = 0;
    while j < executed.len()
        invariant
            0 <= j <= executed@.len(),
            passed == passed_cases(executed@.take(j as int)),
            passed <= j,
        decreases executed.len() - j,
    {
        assert(executed@.take(j as int + 1).drop_last() =~= executed@.take(j as int));
        if executed[j].passed {
            passed = passed + 1;
        }
        j = j + 1;
    }
    assert(executed@.take(j as int) =~= executed@);
    RunSummary {
        checks_failed: failed,
        generated_edge_cases: generated,
        executed_cases: executed.len(),
        case_passed: passed,
        case_failed: executed.len() - passed,
    }
}

/// Whether some check of `checks` failed.
pub open spec fn any_check_failed(checks: Seq<CheckResult>) -> bool {
    exists|i: int| 0 <= i < checks.len() && !(#[trigger] checks[i]).ok
}

/// Whether some case of `cases` missed its expectation.
pub open spec fn any_case_missed(cases: Seq<ExecutedCase>) -> bool {
    exists|i: int| 0 <= i < cases.len() && !(#[trigger] cases[i]).passed
}

/// Whether a run fails: some check failed or some case missed its
/// expectation.
pub fn run_failed(checks: &[CheckResult], executed: &[ExecutedCase]) -> (r: bool)
    ensures
        r == (any_check_failed(checks@) || any_case_missed(executed@)),
{
    let s = summarize(checks, 0, executed);
    proof {
        lemma_failed_checks_zero(checks@);
        lemma_passed_cases_bound(executed@);
    }
    s.checks_failed > 0 || s.case_failed > 0
}

/// The preflight check that a directory a run needs exists.
pub fn directory_check(name: &'static str, path: String, exists: bool) -> (r: CheckResult)
    ensures
        r.name@ == name@,
        r.ok == exists,
        r.detail@ == path@,
        exists ==> (r.hint is None),
        !exists ==> (r.hint matches Some(h) && h@ == "Run `anchor build` first"@),
{
    if exists {
        CheckResult::pass(name, path)
    } else {
        CheckResult::fail(name, path, String::from_str("Run `anchor build` first"))
    }
}

} // verus!
