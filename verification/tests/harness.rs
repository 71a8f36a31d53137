use polish::logger::Logger;
use polish::test_case::{
    aggregate, report_message, run_test, run_tests, run_tests_from_class, run_tests_from_classes,
    status_marker, statify, TestCase, TestCaseResults, TestCaseStatus, TestSuite, Testable,
};

#[test]
fn logger_starts_at_zero() {
    let lg = Logger::new();
    assert_eq!(lg.get_num_pass(), 0);
    assert_eq!(lg.get_num_fail(), 0);
    assert_eq!(lg.get_num_warn(), 0);
    assert_eq!(lg.get_num_info(), 0);
}

#[test]
fn logger_counters_are_independent() {
    let mut lg = Logger::new();
    lg.increment_pass();
    lg.increment_pass();
    lg.increment_fail();
    lg.increment_warn();
    lg.increment_warn();
    lg.increment_warn();
    lg.increment_info();
    assert_eq!(lg.get_num_pass(), 2);
    assert_eq!(lg.get_num_fail(), 1);
    assert_eq!(lg.get_num_warn(), 3);
    assert_eq!(lg.get_num_info(), 1);
}

#[test]
fn test_case_new_copies_fields() {
    let tc = TestCase::new("a title", "a criteria", |_lg: &mut Logger| TestCaseStatus::Passed);
    assert_eq!(tc.title, "a title");
    assert_eq!(tc.criteria, "a criteria");
}

#[test]
fn single_case_returns_one_result() {
    let tc = TestCase::new("one", "runs once", |_lg: &mut Logger| TestCaseStatus::Skipped);
    let results = run_test(tc);
    assert_eq!(results.len(), 1);
    assert_eq!(results[0].title, "one");
    assert_eq!(results[0].criteria, "runs once");
    assert_eq!(results[0].status, TestCaseStatus::Skipped);
}

#[test]
fn immediate_pass_with_untouched_logger() {
    let tc = TestCase::new("quick", "passes without logging", |lg: &mut Logger| {
        assert_eq!(lg.get_num_pass(), 0);
        assert_eq!(lg.get_num_fail(), 0);
        assert_eq!(lg.get_num_warn(), 0);
        assert_eq!(lg.get_num_info(), 0);
        TestCaseStatus::Passed
    });
    let results = run_test(tc);
    assert_eq!(results.len(), 1);
    assert_eq!(results[0].status, TestCaseStatus::Passed);
}

#[test]
fn each_case_gets_its_own_fresh_logger() {
    let noisy: TestCase<fn(&mut Logger) -> TestCaseStatus> =
        TestCase::new("noisy", "logs a lot", |lg: &mut Logger| {
            lg.increment_pass();
            lg.increment_fail();
            TestCaseStatus::Passed
        });
    let quiet: TestCase<fn(&mut Logger) -> TestCaseStatus> =
        TestCase::new("quiet", "sees clean counters", |lg: &mut Logger| {
            if lg.get_num_pass() == 0 && lg.get_num_fail() == 0 {
                TestCaseStatus::Passed
            } else {
                TestCaseStatus::Failed
            }
        });
    let cases: Vec<TestCase<fn(&mut Logger) -> TestCaseStatus>> = vec![noisy, quiet];
    let results = run_tests(cases);
    assert_eq!(results.len(), 2);
    assert_eq!(results[1].status, TestCaseStatus::Passed);
}

#[test]
fn run_tests_keeps_length_and_order() {
    let cases: Vec<TestCase<fn(&mut Logger) -> TestCaseStatus>> = vec![
        TestCase::new("first", "c1", |_lg: &mut Logger| TestCaseStatus::Passed),
        TestCase::new("second", "c2", |_lg: &mut Logger| TestCaseStatus::Failed),
        TestCase::new("third", "c3", |_lg: &mut Logger| TestCaseStatus::Unknown),
    ];
    let results = run_tests(cases);
    assert_eq!(results.len(), 3);
    assert_eq!(results[0].title, "first");
    assert_eq!(results[1].title, "second");
    assert_eq!(results[2].title, "third");
    assert_eq!(results[0].criteria, "c1");
    assert_eq!(results[1].criteria, "c2");
    assert_eq!(results[2].criteria, "c3");
    assert_eq!(results[0].status, TestCaseStatus::Passed);
    assert_eq!(results[1].status, TestCaseStatus::Failed);
    assert_eq!(results[2].status, TestCaseStatus::Unknown);
}

#[test]
fn empty_run_yields_empty_results_and_false_signal() {
    let results = run_tests(Vec::<TestCase<fn(&mut Logger) -> TestCaseStatus>>::new());
    assert_eq!(results.len(), 0);
    assert!(!statify(&results));
    let tally = aggregate(&results);
    assert_eq!(tally.total_count, 0);
    assert_eq!(tally.total_duration, 0);
    assert_eq!(tally.pass, 0);
    assert_eq!(tally.fail, 0);
    assert_eq!(tally.skip, 0);
    assert_eq!(tally.unknown, 0);
}

#[test]
fn statify_false_on_passed_and_skipped_only() {
    let results = vec![
        TestCaseResults {
            title: "a",
            criteria: "ca",
            duration: 5,
            status: TestCaseStatus::Passed,
        },
        TestCaseResults {
            title: "b",
            criteria: "cb",
            duration: 7,
            status: TestCaseStatus::Skipped,
        },
    ];
    assert!(!statify(&results));
}

#[test]
fn statify_true_on_a_failed_result() {
    let results = vec![
        TestCaseResults {
            title: "a",
            criteria: "ca",
            duration: 1,
            status: TestCaseStatus::Passed,
        },
        TestCaseResults {
            title: "b",
            criteria: "cb",
            duration: 2,
            status: TestCaseStatus::Failed,
        },
    ];
    assert!(statify(&results));
}

#[test]
fn statify_true_on_an_unknown_result() {
    let results = vec![TestCaseResults {
        title: "u",
        criteria: "cu",
        duration: 3,
        status: TestCaseStatus::Unknown,
    }];
    assert!(statify(&results));
}

#[test]
fn three_statuses_tally_one_each() {
    let cases = vec![
        TestCase::new("p", "cp", (|_lg: &mut Logger| TestCaseStatus::Passed)
            as fn(&mut Logger) -> TestCaseStatus),
        TestCase::new("f", "cf", |_lg: &mut Logger| TestCaseStatus::Failed),
        TestCase::new("s", "cs", |_lg: &mut Logger| TestCaseStatus::Skipped),
    ];
    let results = run_tests(cases);
    let tally = aggregate(&results);
    assert_eq!(tally.pass, 1);
    assert_eq!(tally.fail, 1);
    assert_eq!(tally.skip, 1);
    assert_eq!(tally.unknown, 0);
    assert_eq!(tally.total_count, 3);
    assert!(statify(&results));
}

#[test]
fn tally_sums_durations_and_counts() {
    let results = vec![
        TestCaseResults {
            title: "a",
            criteria: "ca",
            duration: 10,
            status: TestCaseStatus::Passed,
        },
        TestCaseResults {
            title: "b",
            criteria: "cb",
            duration: 32,
            status: TestCaseStatus::Passed,
        },
        TestCaseResults {
            title: "c",
            criteria: "cc",
            duration: 0,
            status: TestCaseStatus::Failed,
        },
    ];
    let tally = aggregate(&results);
    assert_eq!(tally.total_count, 3);
    assert_eq!(tally.total_duration, 42);
    assert_eq!(tally.pass, 2);
    assert_eq!(tally.fail, 1);
}

#[test]
fn busy_body_still_completes_with_its_status() {
    let tc = TestCase::new("busy", "takes a while", |_lg: &mut Logger| {
        let mut acc: u64 = 0;
        let mut i: u64 = 0;
        while i < 100_000 {
            acc = acc.wrapping_mul(31).wrapping_add(i);
            i += 1;
        }
        let _ = acc;
        TestCaseStatus::Passed
    });
    let results = run_test(tc);
    assert_eq!(results[0].status, TestCaseStatus::Passed);
}

#[test]
fn suite_run_matches_manual_run() {
    let cases_a: Vec<TestCase<fn(&mut Logger) -> TestCaseStatus>> = vec![
        TestCase::new("alpha", "first check", |_lg: &mut Logger| TestCaseStatus::Passed),
        TestCase::new("beta", "second check", |_lg: &mut Logger| TestCaseStatus::Failed),
    ];
    let cases_b: Vec<TestCase<fn(&mut Logger) -> TestCaseStatus>> = vec![
        TestCase::new("alpha", "first check", |_lg: &mut Logger| TestCaseStatus::Passed),
        TestCase::new("beta", "second check", |_lg: &mut Logger| TestCaseStatus::Failed),
    ];
    let suite = TestSuite { cases: cases_a };
    let from_class = run_tests_from_class(suite);
    let manual_suite = TestSuite { cases: cases_b };
    let manual = run_tests(manual_suite.tests());
    assert_eq!(from_class.len(), manual.len());
    for i in 0..manual.len() {
        assert_eq!(from_class[i].title, manual[i].title);
        assert_eq!(from_class[i].criteria, manual[i].criteria);
        assert_eq!(from_class[i].status, manual[i].status);
    }
}

#[test]
fn registered_suites_run_in_order() {
    let first = TestSuite {
        cases: vec![TestCase::new("s1a", "c", (|_lg: &mut Logger| TestCaseStatus::Passed)
            as fn(&mut Logger) -> TestCaseStatus)],
    };
    let second = TestSuite {
        cases: vec![
            TestCase::new("s2a", "c", (|_lg: &mut Logger| TestCaseStatus::Skipped)
                as fn(&mut Logger) -> TestCaseStatus),
            TestCase::new("s2b", "c", |_lg: &mut Logger| TestCaseStatus::Failed),
        ],
    };
    let results = run_tests_from_classes(vec![first, second]);
    assert_eq!(results.len(), 3);
    assert_eq!(results[0].title, "s1a");
    assert_eq!(results[1].title, "s2a");
    assert_eq!(results[2].title, "s2b");
    assert_eq!(results[0].status, TestCaseStatus::Passed);
    assert_eq!(results[1].status, TestCaseStatus::Skipped);
    assert_eq!(results[2].status, TestCaseStatus::Failed);
    assert!(statify(&results));
}

#[test]
fn no_registered_suites_no_results() {
    let results =
        run_tests_from_classes(Vec::<TestSuite<fn(&mut Logger) -> TestCaseStatus>>::new());
    assert_eq!(results.len(), 0);
    assert!(!statify(&results));
}

#[test]
fn markers_are_distinct_and_fixed() {
    assert_eq!(status_marker(TestCaseStatus::Passed), "✅");
    assert_eq!(status_marker(TestCaseStatus::Failed), "❌");
    assert_eq!(status_marker(TestCaseStatus::Skipped), "❗");
    assert_eq!(status_marker(TestCaseStatus::Unknown), "⁉️");
    assert_ne!(status_marker(TestCaseStatus::Passed), status_marker(TestCaseStatus::Failed));
    assert_ne!(status_marker(TestCaseStatus::Passed), status_marker(TestCaseStatus::Skipped));
    assert_ne!(status_marker(TestCaseStatus::Passed), status_marker(TestCaseStatus::Unknown));
    assert_ne!(status_marker(TestCaseStatus::Failed), status_marker(TestCaseStatus::Skipped));
    assert_ne!(status_marker(TestCaseStatus::Failed), status_marker(TestCaseStatus::Unknown));
    assert_ne!(status_marker(TestCaseStatus::Skipped), status_marker(TestCaseStatus::Unknown));
}

#[test]
fn body_can_read_and_bump_its_logger() {
    let tc = TestCase::new("logging body", "counts go up", |lg: &mut Logger| {
        lg.increment_pass();
        lg.increment_info();
        if lg.get_num_pass() == 1 && lg.get_num_info() == 1 {
            TestCaseStatus::Passed
        } else {
            TestCaseStatus::Failed
        }
    });
    let results = run_test(tc);
    assert_eq!(results[0].status, TestCaseStatus::Passed);
}

#[test]
fn report_message_is_the_criteria_for_every_status() {
    assert_eq!(report_message(TestCaseStatus::Passed, "does a thing"), "does a thing");
    assert_eq!(report_message(TestCaseStatus::Failed, "does a thing"), "does a thing");
    assert_eq!(report_message(TestCaseStatus::Skipped, "does a thing"), "does a thing");
    assert_eq!(report_message(TestCaseStatus::Unknown, "does a thing"), "does a thing");
}
