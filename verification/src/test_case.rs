use vstd::prelude::*;
use std::io::Write;
use crate::logger::Logger;

verus! {

/// The closed set of outcomes a test-case body can report.
#[derive(Debug, Clone, Copy, PartialEq, Eq, Structural)]
pub enum TestCaseStatus {
    Passed,
    Failed,
    Skipped,
    Unknown,
}

/// One named, independently executable check: a display title, the criteria
/// text describing the behavior being verified, and a body that performs
/// the check against a fresh `Logger` and reports a `TestCaseStatus`.
///
/// A `TestCase` is built once, read-only afterwards, and consumed by the
/// runner; its body is called exactly once.
pub struct TestCase<F> {
    pub title: &'static str,
    pub criteria: &'static str,
    pub body: F,
}

impl<F> TestCase<F> {
    pub fn new(title: &'static str, criteria: &'static str, body: F) -> (r: TestCase<F>)
        ensures
            r.title == title,
            r.criteria == criteria,
            r.body == body,
    {
        TestCase { title, criteria, body }
    }
}

/// The record produced for each executed test case: the case's texts copied
/// over, the elapsed time of its body in nanoseconds, and the status the
/// body reported.
#[derive(Debug, Clone, Copy)]
pub struct TestCaseResults {
    pub title: &'static str,
    pub criteria: &'static str,
    pub duration: u64,
    pub status: TestCaseStatus,
}

/// The body of a test case can be invoked on any freshly created `Logger`.
pub open spec fn body_callable<F: FnOnce(&mut Logger) -> TestCaseStatus>(f: F) -> bool {
    forall|lg: &mut Logger| mut_ref_current(lg).is_fresh() ==> call_requires(f, (lg,))
}

/// `status` is an outcome that the body `f`, handed a fresh `Logger`, can
/// report.
pub open spec fn possible_outcome<F: FnOnce(&mut Logger) -> TestCaseStatus>(
    f: F,
    status: TestCaseStatus,
) -> bool {
    exists|lg: &mut Logger|
        mut_ref_current(lg).is_fresh() && #[trigger] call_ensures(f, (lg,), status)
}

/// One result record belongs to one test case: the texts are copied from
/// the case, and the status is one its body can report from a fresh
/// `Logger`.
pub open spec fn matches_case<F: FnOnce(&mut Logger) -> TestCaseStatus>(
    tc: TestCase<F>,
    r: TestCaseResults,
) -> bool {
    &&& r.title == tc.title
    &&& r.criteria == tc.criteria
    &&& possible_outcome(tc.body, r.status)
}

/// The results stand in one-to-one order-preserving correspondence with the
/// test cases that produced them.
pub open spec fn results_match<F: FnOnce(&mut Logger) -> TestCaseStatus>(
    tests: Seq<TestCase<F>>,
    results: Seq<TestCaseResults>,
) -> bool {
    &&& results.len() == tests.len()
    &&& forall|i: int| 0 <= i < tests.len() ==> matches_case(tests[i], #[trigger] results[i])
}

/// Every body in the sequence can be invoked on a fresh `Logger`.
pub open spec fn all_bodies_callable<F: FnOnce(&mut Logger) -> TestCaseStatus>(
    tests: Seq<TestCase<F>>,
) -> bool {
    forall|i: int| 0 <= i < tests.len() ==> body_callable(#[trigger] tests[i].body)
}

/// Relies on time::precise_time_ns: reads a high-resolution monotonic
/// clock, in nanoseconds since an unspecified epoch. Nothing is promised
/// of a single reading; callers guard the subtraction of two readings.
#[verifier::external_body]
fn clock_ns() -> u64 {
    time::precise_time_ns()
}

/// Relies on std::io::Stdout's writeln: prints the header line naming the
/// case about to run.
#[verifier::external_body]
fn print_case_header(title: &str, criteria: &str) {
    let _ = writeln!(std::io::stdout(), "Test: {} ({})", title, criteria);
}

/// Relies on std::io::Stdout's writeln: prints the four counters recorded
/// by a case's `Logger`.
#[verifier::external_body]
fn print_logger_counts(pass: u64, fail: u64, warn: u64, info: u64) {
    let _ = writeln!(std::io::stdout(), "{} PASS  {} FAIL  {} WARN  {} INFO", pass, fail, warn, info);
}

/// Relies on std::io::Stdout's writeln: prints the criteria text followed
/// by the case's status marker.
#[verifier::external_body]
fn print_case_status(criteria: &str, mark: &str) {
    let _ = writeln!(std::io::stdout(), "{} ... {}", criteria, mark);
}

/// The view of the one-glyph marker printed for each status.
pub open spec fn spec_status_marker(status: TestCaseStatus) -> Seq<char> {
    match status {
        TestCaseStatus::Passed => "✅"@,
        TestCaseStatus::Failed => "❌"@,
        TestCaseStatus::Skipped => "❗"@,
        TestCaseStatus::Unknown => "⁉️"@,
    }
}

/// The fixed visual marker for a status: one of four mutually distinct
/// glyphs, mapped one-to-one onto the four variants.
pub fn status_marker(status: TestCaseStatus) -> (r: &'static str)
    ensures
        r@ == spec_status_marker(status),
{
    match status {
        TestCaseStatus::Passed => "✅",
        TestCaseStatus::Failed => "❌",
        TestCaseStatus::Skipped => "❗",
        TestCaseStatus::Unknown => "⁉️",
    }
}

/// Distinct statuses are marked by distinct glyphs.
pub proof fn lemma_status_markers_distinct(a: TestCaseStatus, b: TestCaseStatus)
    ensures
        a != b ==> spec_status_marker(a) != spec_status_marker(b),
{
    reveal_strlit("✅");
    reveal_strlit("❌");
    reveal_strlit("❗");
    reveal_strlit("⁉️");
    assert("✅"@[0] != "❌"@[0]);
    assert("✅"@[0] != "❗"@[0]);
    assert("✅"@[0] != "⁉️"@[0]);
    assert("❌"@[0] != "❗"@[0]);
    assert("❌"@[0] != "⁉️"@[0]);
    assert("❗"@[0] != "⁉️"@[0]);
}

/// Run one test case to completion: print its header, hand its body a
/// fresh `Logger`, time the body with a monotonic clock, print the logger
/// counts and the status marker, and return the single result record.
///
/// A body that reports `Failed` is a normal outcome, not an error; the
/// logger counts are informational and never override the body's status.
/// A clock pair that would give a negative elapsed time is clamped to 0.
pub fn run_test<F: FnOnce(&mut Logger) -> TestCaseStatus>(test: TestCase<F>) -> (r: Vec<
    TestCaseResults,
>)
    requires
        body_callable(test.body),
    ensures
        r@.len() == 1,
        matches_case(test, r@[0]),
{
    print_case_header(test.title, test.criteria);
    let mut logger = Logger::new();
    let starting_time: u64 = clock_ns();
    let status = (test.body)(&mut logger);
    let ending_time: u64 = clock_ns();
    print_logger_counts(
        logger.get_num_pass(),
        logger.get_num_fail(),
        logger.get_num_warn(),
        logger.get_num_info(),
    );
    let mark: &'static str = status_marker(status);
    print_case_status(test.criteria, mark);
    let duration: u64 = if ending_time >= starting_time {
        ending_time - starting_time
    } else {
        0
    };
    let mut results: Vec<TestCaseResults> = Vec::new();
    results.push(
        TestCaseResults { title: test.title, criteria: test.criteria, duration, status },
    );
    results
}

/// Run a sequence of test cases strictly in order, each through
/// `run_test` with its own fresh `Logger`, and return one result per case
/// in the input order.
pub fn run_tests<F: FnOnce(&mut Logger) -> TestCaseStatus>(tests: Vec<TestCase<F>>) -> (r: Vec<
    TestCaseResults,
>)
    requires
        all_bodies_callable(tests@),
    ensures
        results_match(tests@, r@),
{
    let ghost all_tests: Seq<TestCase<F>> = tests@;
    let mut tests = tests;
    let mut results: Vec<TestCaseResults> = Vec::new();
    while tests.len() > 0
        invariant
            all_bodies_callable(all_tests),
            results@.len() + tests@.len() == all_tests.len(),
            tests@ == all_tests.subrange(results@.len() as int, all_tests.len() as int),
            forall|i: int|
                0 <= i < results@.len() ==> matches_case(all_tests[i], #[trigger] results@[i]),
        decreases tests@.len(),
    {
        let ghost done: int = results@.len() as int;
        assert(tests@[0] == all_tests[done]);
        let test = tests.remove(0);
        let mut batch = run_test(test);
        let item = batch.remove(0);
        results.push(item);
        proof {
            assert(tests@ =~= all_tests.subrange(done + 1, all_tests.len() as int));
        }
    }
    results
}

/// A suite: any value that can yield its own ordered sequence of test
/// cases, consuming itself in the process. Implementors say in
/// `spec_tests` which cases `tests` hands out.
pub trait Testable<F>: Sized {
    /// The sequence of test cases this suite stands for.
    spec fn spec_tests(self) -> Seq<TestCase<F>>;

    /// Yield the suite's test cases, in order, consuming the suite.
    fn tests(self) -> (r: Vec<TestCase<F>>)
        ensures
            r@ == self.spec_tests(),
    ;
}

/// The simplest suite: a plain ordered group of test cases.
pub struct TestSuite<F> {
    pub cases: Vec<TestCase<F>>,
}

impl<F> Testable<F> for TestSuite<F> {
    open spec fn spec_tests(self) -> Seq<TestCase<F>> {
        self.cases@
    }

    fn tests(self) -> (r: Vec<TestCase<F>>) {
        self.cases
    }
}

/// Run every test case that one suite yields, in the suite's order.
pub fn run_tests_from_class<F: FnOnce(&mut Logger) -> TestCaseStatus, T: Testable<F>>(
    test_class: T,
) -> (r: Vec<TestCaseResults>)
    requires
        all_bodies_callable(test_class.spec_tests()),
    ensures
        results_match(test_class.spec_tests(), r@),
{
    run_tests(test_class.tests())
}

/// The concatenation, in registration order, of the test cases of a
/// sequence of suites.
pub open spec fn all_suite_tests<F, T: Testable<F>>(classes: Seq<T>) -> Seq<TestCase<F>>
    decreases classes.len(),
{
    if classes.len() == 0 {
        Seq::empty()
    } else {
        all_suite_tests(classes.drop_last()) + classes.last().spec_tests()
    }
}

/// Run every test case of every registered suite: the caller supplies the
/// suites as an ordered sequence, and the results come back in the same
/// order, suite by suite, case by case.
pub fn run_tests_from_classes<F: FnOnce(&mut Logger) -> TestCaseStatus, T: Testable<F>>(
    test_classes: Vec<T>,
) -> (r: Vec<TestCaseResults>)
    requires
        all_bodies_callable(all_suite_tests(test_classes@)),
    ensures
        results_match(all_suite_tests(test_classes@), r@),
{
    let ghost all_classes: Seq<T> = test_classes@;
    let mut test_classes = test_classes;
    let mut results: Vec<TestCaseResults> = Vec::new();
    proof {
        assert(all_classes.subrange(0, all_classes.len() as int) =~= all_classes);
    }
    while test_classes.len() > 0
        invariant
            all_bodies_callable(all_suite_tests(all_classes)),
            test_classes@.len() <= all_classes.len(),
            test_classes@ == all_classes.subrange(
                all_classes.len() - test_classes@.len(),
                all_classes.len() as int,
            ),
            results_match(
                all_suite_tests(all_classes.take(all_classes.len() - test_classes@.len())),
                results@,
            ),
        decreases test_classes@.len(),
    {
        let ghost done: int = all_classes.len() - test_classes@.len();
        assert(test_classes@[0] == all_classes[done]);
        let test_class = test_classes.remove(0);
        proof {
            lemma_all_suite_tests_step(all_classes, done);
            lemma_all_suite_tests_prefix(all_classes, done);
        }
        let batch = run_tests_from_class(test_class);
        let ghost batch_view: Seq<TestCaseResults> = batch@;
        let ghost results_before: Seq<TestCaseResults> = results@;
        proof {
            assert(results_before + batch_view.take(0) =~= results_before);
        }
        let mut j: usize = 0;
        while j < batch.len()
            invariant
                j <= batch@.len(),
                batch@ == batch_view,
                results@ == results_before + batch_view.take(j as int),
            decreases batch@.len() - j,
        {
            let item = batch[j];
            results.push(item);
            proof {
                assert(results@ =~= results_before + batch_view.take(j as int + 1));
            }
            j += 1;
        }
        proof {
            assert(results@ =~= results_before + batch_view);
            assert(test_classes@ =~= all_classes.subrange(done + 1, all_classes.len() as int));
            lemma_results_match_concat(
                all_suite_tests(all_classes.take(done)),
                all_classes[done].spec_tests(),
                results_before,
                batch_view,
            );
        }
    }
    proof {
        assert(all_classes.take(all_classes.len() as int) =~= all_classes);
    }
    results
}

/// Taking one more suite extends the flattened test sequence by exactly
/// that suite's cases.
proof fn lemma_all_suite_tests_step<F, T: Testable<F>>(classes: Seq<T>, i: int)
    requires
        0 <= i < classes.len(),
    ensures
        all_suite_tests(classes.take(i + 1)) == all_suite_tests(classes.take(i))
            + classes[i].spec_tests(),
{
    assert(classes.take(i + 1).drop_last() =~= classes.take(i));
    assert(classes.take(i + 1).last() == classes[i]);
}

/// Every body of a prefix's flattened cases is callable when every body of
/// the whole flattened sequence is.
proof fn lemma_all_suite_tests_prefix<F: FnOnce(&mut Logger) -> TestCaseStatus, T: Testable<F>>(
    classes: Seq<T>,
    i: int,
)
    requires
        0 <= i <= classes.len(),
        all_bodies_callable(all_suite_tests(classes)),
    ensures
        all_bodies_callable(all_suite_tests(classes.take(i))),
        forall|j: int|
            i <= j < classes.len() ==> all_bodies_callable(#[trigger] classes[j].spec_tests()),
    decreases classes.len() - i,
{
    if i < classes.len() {
        lemma_all_suite_tests_step(classes, i);
        lemma_all_suite_tests_prefix(classes, i + 1);
        assert(classes.take(classes.len() as int) =~= classes);
        assert forall|k: int| 0 <= k < all_suite_tests(classes.take(i)).len() implies body_callable(
            #[trigger] all_suite_tests(classes.take(i))[k].body,
        ) by {
            assert(all_suite_tests(classes.take(i + 1))[k] == all_suite_tests(classes.take(i))[k]);
        }
        assert forall|k: int| 0 <= k < classes[i].spec_tests().len() implies body_callable(
            #[trigger] classes[i].spec_tests()[k].body,
        ) by {
            let n: int = all_suite_tests(classes.take(i)).len() as int;
            assert(all_suite_tests(classes.take(i + 1))[n + k] == classes[i].spec_tests()[k]);
        }
    } else {
        assert(classes.take(i) =~= classes);
    }
}

/// Results that match two test sequences, concatenated in order, match the
/// concatenation of the sequences.
proof fn lemma_results_match_concat<F: FnOnce(&mut Logger) -> TestCaseStatus>(
    t1: Seq<TestCase<F>>,
    t2: Seq<TestCase<F>>,
    r1: Seq<TestCaseResults>,
    r2: Seq<TestCaseResults>,
)
    requires
        results_match(t1, r1),
        results_match(t2, r2),
    ensures
        results_match(t1 + t2, r1 + r2),
{
    assert forall|i: int| 0 <= i < (t1 + t2).len() implies matches_case(
        (t1 + t2)[i],
        #[trigger] (r1 + r2)[i],
    ) by {
        if i < t1.len() {
            assert((t1 + t2)[i] == t1[i]);
            assert((r1 + r2)[i] == r1[i]);
        } else {
            assert((t1 + t2)[i] == t2[i - t1.len()]);
            assert((r1 + r2)[i] == r2[i - t1.len()]);
        }
    }
}

/// How many results in the sequence carry the given status.
pub open spec fn count_status(s: Seq<TestCaseResults>, status: TestCaseStatus) -> int
    decreases s.len(),
{
    if s.len() == 0 {
        0
    } else {
        count_status(s.drop_last(), status) + if s.last().status == status {
            1int
        } else {
            0int
        }
    }
}

/// The sum of the durations of all results in the sequence, in nanoseconds.
pub open spec fn duration_sum(s: Seq<TestCaseResults>) -> int
    decreases s.len(),
{
    if s.len() == 0 {
        0
    } else {
        duration_sum(s.drop_last()) + s.last().duration
    }
}

/// A status that counts as a failure of the whole run: `Failed` or
/// `Unknown`. `Skipped` never does.
pub open spec fn is_failing(status: TestCaseStatus) -> bool {
    status == TestCaseStatus::Failed || status == TestCaseStatus::Unknown
}

/// Some result in the sequence has status `Failed` or `Unknown`.
pub open spec fn has_failure(s: Seq<TestCaseResults>) -> bool {
    exists|i: int| 0 <= i < s.len() && is_failing(#[trigger] s[i].status)
}

/// The aggregate figures the reporter prints: one tally per status, the
/// number of cases, and the summed duration in nanoseconds.
#[derive(Debug, Clone, Copy)]
pub struct RunTally {
    pub pass: u64,
    pub fail: u64,
    pub skip: u64,
    pub unknown: u64,
    pub total_count: usize,
    pub total_duration: u128,
}

/// A status count never drops below zero and never exceeds the length.
pub proof fn lemma_count_status_bounds(s: Seq<TestCaseResults>, status: TestCaseStatus)
    ensures
        0 <= count_status(s, status) <= s.len(),
    decreases s.len(),
{
    if s.len() > 0 {
        lemma_count_status_bounds(s.drop_last(), status);
    }
}

/// The four status counts partition the sequence: they add up to its
/// length.
pub proof fn lemma_counts_partition(s: Seq<TestCaseResults>)
    ensures
        count_status(s, TestCaseStatus::Passed) + count_status(s, TestCaseStatus::Failed)
            + count_status(s, TestCaseStatus::Skipped) + count_status(s, TestCaseStatus::Unknown)
            == s.len(),
    decreases s.len(),
{
    if s.len() > 0 {
        lemma_counts_partition(s.drop_last());
    }
}

/// The failure counts are positive exactly when some result has status
/// `Failed` or `Unknown`.
pub proof fn lemma_failure_count_iff(s: Seq<TestCaseResults>)
    ensures
        (count_status(s, TestCaseStatus::Failed) + count_status(s, TestCaseStatus::Unknown) > 0)
            <==> has_failure(s),
    decreases s.len(),
{
    lemma_count_status_bounds(s, TestCaseStatus::Failed);
    lemma_count_status_bounds(s, TestCaseStatus::Unknown);
    if s.len() > 0 {
        lemma_failure_count_iff(s.drop_last());
        lemma_count_status_bounds(s.drop_last(), TestCaseStatus::Failed);
        lemma_count_status_bounds(s.drop_last(), TestCaseStatus::Unknown);
        if has_failure(s.drop_last()) {
            let i = choose|i: int|
                0 <= i < s.drop_last().len() && is_failing(#[trigger] s.drop_last()[i].status);
            assert(s[i] == s.drop_last()[i]);
            assert(is_failing(s[i].status));
        }
        if is_failing(s.last().status) {
            assert(is_failing(s[s.len() - 1].status));
        }
        if has_failure(s) {
            let i = choose|i: int| 0 <= i < s.len() && is_failing(#[trigger] s[i].status);
            if i < s.len() - 1 {
                assert(s.drop_last()[i] == s[i]);
            }
        }
    }
}

/// The duration sum never drops below zero.
pub proof fn lemma_duration_sum_nonneg(s: Seq<TestCaseResults>)
    ensures
        duration_sum(s) >= 0,
    decreases s.len(),
{
    if s.len() > 0 {
        lemma_duration_sum_nonneg(s.drop_last());
    }
}

/// The duration sum of a sequence fits in its length times the largest
/// single duration.
proof fn lemma_duration_sum_bound(s: Seq<TestCaseResults>)
    ensures
        duration_sum(s) <= s.len() * u64::MAX,
    decreases s.len(),
{
    if s.len() > 0 {
        lemma_duration_sum_bound(s.drop_last());
        assert(s.len() * u64::MAX == (s.len() - 1) * u64::MAX + u64::MAX) by (nonlinear_arith);
    }
}

/// Fold an ordered result sequence into its aggregate tallies, in input
/// order.
pub fn aggregate(stats: &Vec<TestCaseResults>) -> (r: RunTally)
    ensures
        r.pass == count_status(stats@, TestCaseStatus::Passed),
        r.fail == count_status(stats@, TestCaseStatus::Failed),
        r.skip == count_status(stats@, TestCaseStatus::Skipped),
        r.unknown == count_status(stats@, TestCaseStatus::Unknown),
        r.total_count == stats@.len(),
        r.total_duration == duration_sum(stats@),
{
    let mut tally = RunTally {
        pass: 0,
        fail: 0,
        skip: 0,
        unknown: 0,
        total_count: 0,
        total_duration: 0,
    };
    let mut i: usize = 0;
    proof {
        assert(stats@.take(0) =~= Seq::<TestCaseResults>::empty());
    }
    while i < stats.len()
        invariant
            i <= stats@.len(),
            tally.pass == count_status(stats@.take(i as int), TestCaseStatus::Passed),
            tally.fail == count_status(stats@.take(i as int), TestCaseStatus::Failed),
            tally.skip == count_status(stats@.take(i as int), TestCaseStatus::Skipped),
            tally.unknown == count_status(stats@.take(i as int), TestCaseStatus::Unknown),
            tally.total_count == i,
            tally.total_duration == duration_sum(stats@.take(i as int)),
        decreases stats@.len() - i,
    {
        proof {
            assert(stats@.take(i + 1).drop_last() =~= stats@.take(i as int));
            assert(stats@.take(i + 1).last() == stats@[i as int]);
            lemma_count_status_bounds(stats@.take(i as int), TestCaseStatus::Passed);
            lemma_count_status_bounds(stats@.take(i as int), TestCaseStatus::Failed);
            lemma_count_status_bounds(stats@.take(i as int), TestCaseStatus::Skipped);
            lemma_count_status_bounds(stats@.take(i as int), TestCaseStatus::Unknown);
            lemma_duration_sum_nonneg(stats@.take(i as int));
            lemma_duration_sum_bound(stats@.take(i as int));
            assert(stats@.take(i as int).len() * u64::MAX <= (usize::MAX as int) * u64::MAX)
                by (nonlinear_arith)
                requires
                    stats@.take(i as int).len() <= usize::MAX as int,
            ;
        }
        match stats[i].status {
            TestCaseStatus::Passed => tally.pass = tally.pass + 1,
            TestCaseStatus::Failed => tally.fail = tally.fail + 1,
            TestCaseStatus::Skipped => tally.skip = tally.skip + 1,
            TestCaseStatus::Unknown => tally.unknown = tally.unknown + 1,
        }
        tally.total_count = tally.total_count + 1;
        tally.total_duration = tally.total_duration + stats[i].duration as u128;
        i = i + 1;
    }
    proof {
        assert(stats@.take(stats@.len() as int) =~= stats@);
    }
    tally
}

/// Relies on std::io::Stdout's writeln: prints the visual separator that
/// opens the report.
#[verifier::external_body]
fn print_separator() {
    let _ = writeln!(std::io::stdout(), "\n---\n");
}

/// Relies on std::io::Stdout's writeln: prints one report line with a
/// result's title, duration and criteria text.
#[verifier::external_body]
fn print_result_line(title: &str, duration: u64, criteria: &str) {
    let _ = writeln!(std::io::stdout(), "{} ({} Nanosecond(s)): {}", title, duration, criteria);
}

/// Relies on std::io::Stdout's writeln: prints the total number of cases
/// run and their summed duration.
#[verifier::external_body]
fn print_run_totals(total_count: usize, total_duration: u128) {
    let _ = writeln!(
        std::io::stdout(),
        "\nRan {} Test Case(s) in {} Nanosecond(s)",
        total_count,
        total_duration,
    );
}

/// Relies on std::io::Stdout's writeln: prints the four aggregate status
/// tallies, each under its label.
#[verifier::external_body]
fn print_tally_counts(pass: u64, fail: u64, skip: u64, unknown: u64) {
    let _ = writeln!(
        std::io::stdout(),
        "{} Passed  {} Failed  {} Skipped  {} Unknown",
        pass,
        fail,
        skip,
        unknown,
    );
}

/// The message text printed for a result in the aggregate report: one arm
/// per status, each carrying the criteria text unchanged. The uniformity
/// across the statuses is deliberate; the status itself is conveyed by the
/// per-case marker and by the tallies, never by this text.
pub fn report_message(status: TestCaseStatus, criteria: &'static str) -> (r: &'static str)
    ensures
        r == criteria,
{
    match status {
        TestCaseStatus::Passed => criteria,
        TestCaseStatus::Failed => criteria,
        TestCaseStatus::Skipped => criteria,
        TestCaseStatus::Unknown => criteria,
    }
}

/// Print the report (a separator, one line per result in input order,
/// the totals, and the four status tallies) and return the run's boolean
/// failure signal: `true` exactly when some result has status `Failed`
/// or `Unknown`. Skipped cases never make it `true`.
pub fn statify(stats: &Vec<TestCaseResults>) -> (r: bool)
    ensures
        r == has_failure(stats@),
        r == (count_status(stats@, TestCaseStatus::Failed) + count_status(
            stats@,
            TestCaseStatus::Unknown,
        ) > 0),
{
    print_separator();
    let tally = aggregate(stats);
    let mut i: usize = 0;
    while i < stats.len()
        invariant
            i <= stats@.len(),
        decreases stats@.len() - i,
    {
        let message: &'static str = report_message(stats[i].status, stats[i].criteria);
        print_result_line(stats[i].title, stats[i].duration, message);
        i = i + 1;
    }
    print_run_totals(tally.total_count, tally.total_duration);
    print_tally_counts(tally.pass, tally.fail, tally.skip, tally.unknown);
    proof {
        lemma_failure_count_iff(stats@);
        lemma_count_status_bounds(stats@, TestCaseStatus::Failed);
        lemma_count_status_bounds(stats@, TestCaseStatus::Unknown);
    }
    tally.fail > 0 || tally.unknown > 0
}

/// The body's contract pins its outcome down to the single status
/// `status`, whatever fresh `Logger` it is handed.
pub open spec fn determines<F: FnOnce(&mut Logger) -> TestCaseStatus>(
    f: F,
    status: TestCaseStatus,
) -> bool {
    forall|lg: &mut Logger, st: TestCaseStatus|
        mut_ref_current(lg).is_fresh() && #[trigger] call_ensures(f, (lg,), st) ==> st == status
}

/// A body that always reports `Passed` and hands its `Logger` back
/// untouched yields a `Passed` result, and every `Logger` it hands back
/// still has all four counts at zero.
pub proof fn lemma_immediate_pass<F: FnOnce(&mut Logger) -> TestCaseStatus>(
    f: F,
    status: TestCaseStatus,
)
    requires
        forall|lg: &mut Logger, st: TestCaseStatus|
            #[trigger] call_ensures(f, (lg,), st) ==> st == TestCaseStatus::Passed && mut_ref_future(
                lg,
            ) == mut_ref_current(lg),
        possible_outcome(f, status),
    ensures
        status == TestCaseStatus::Passed,
        forall|lg: &mut Logger, st: TestCaseStatus|
            mut_ref_current(lg).is_fresh() && #[trigger] call_ensures(f, (lg,), st) ==> mut_ref_future(
                lg,
            ).is_fresh(),
{
}

/// Two result sequences for the same test cases, such as one from a
/// suite's run and one from a manual `run_tests` of the same cases, agree
/// on every title and criteria, and on the status of every case whose
/// body determines it.
pub proof fn lemma_runs_agree<F: FnOnce(&mut Logger) -> TestCaseStatus>(
    tests: Seq<TestCase<F>>,
    r1: Seq<TestCaseResults>,
    r2: Seq<TestCaseResults>,
)
    requires
        results_match(tests, r1),
        results_match(tests, r2),
    ensures
        r1.len() == r2.len(),
        forall|i: int|
            0 <= i < tests.len() ==> #[trigger] r1[i].title == r2[i].title && r1[i].criteria
                == r2[i].criteria,
        forall|i: int, st: TestCaseStatus|
            0 <= i < tests.len() && #[trigger] determines(tests[i].body, st) ==> r1[i].status == st
                && r2[i].status == st,
{
    assert forall|i: int, st: TestCaseStatus|
        0 <= i < tests.len() && #[trigger] determines(tests[i].body, st) implies r1[i].status == st
        && r2[i].status == st by {
        assert(matches_case(tests[i], r1[i]));
        assert(matches_case(tests[i], r2[i]));
    }
}

} // verus!
