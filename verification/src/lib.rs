//! A minimal test-execution harness: run named test cases strictly in
//! order, hand each a fresh `Logger`, record the status and elapsed time
//! of every body, and fold the ordered results into a printed report with
//! a single boolean failure signal.

pub mod logger;
pub mod test_case;
