use vstd::prelude::*;

verus! {

/// A per-execution recorder of four independent counters: pass, fail, warn
/// and info. One `Logger` is created for each test-case execution; its
/// counters start at zero and only ever grow.
pub struct Logger {
    num_pass: u64,
    num_fail: u64,
    num_warn: u64,
    num_info: u64,
}

impl Logger {
    pub closed spec fn pass_count(self) -> u64 {
        self.num_pass
    }

    pub closed spec fn fail_count(self) -> u64 {
        self.num_fail
    }

    pub closed spec fn warn_count(self) -> u64 {
        self.num_warn
    }

    pub closed spec fn info_count(self) -> u64 {
        self.num_info
    }

    /// All four counters are zero: the state of a freshly created `Logger`.
    pub open spec fn is_fresh(self) -> bool {
        self.pass_count() == 0 && self.fail_count() == 0 && self.warn_count() == 0
            && self.info_count() == 0
    }

    pub fn new() -> (r: Logger)
        ensures
            r.is_fresh(),
    {
        Logger { num_pass: 0, num_fail: 0, num_warn: 0, num_info: 0 }
    }

    pub fn increment_pass(&mut self)
        requires
            old(self).pass_count() < u64::MAX,
        ensures
            final (self).pass_count() == old(self).pass_count() + 1,
            final (self).fail_count() == old(self).fail_count(),
            final (self).warn_count() == old(self).warn_count(),
            final (self).info_count() == old(self).info_count(),
    {
        self.num_pass = self.num_pass + 1;
    }

    pub fn increment_fail(&mut self)
        requires
            old(self).fail_count() < u64::MAX,
        ensures
            final (self).pass_count() == old(self).pass_count(),
            final (self).fail_count() == old(self).fail_count() + 1,
            final (self).warn_count() == old(self).warn_count(),
            final (self).info_count() == old(self).info_count(),
    {
        self.num_fail = self.num_fail + 1;
    }

    pub fn increment_warn(&mut self)
        requires
            old(self).warn_count() < u64::MAX,
        ensures
            final (self).pass_count() == old(self).pass_count(),
            final (self).fail_count() == old(self).fail_count(),
            final (self).warn_count() == old(self).warn_count() + 1,
            final (self).info_count() == old(self).info_count(),
    {
        self.num_warn = self.num_warn + 1;
    }

    pub fn increment_info(&mut self)
        requires
            old(self).info_count() < u64::MAX,
        ensures
            final (self).pass_count() == old(self).pass_count(),
            final (self).fail_count() == old(self).fail_count(),
            final (self).warn_count() == old(self).warn_count(),
            final (self).info_count() == old(self).info_count() + 1,
    {
        self.num_info = self.num_info + 1;
    }

    pub fn get_num_pass(&self) -> (r: u64)
        ensures
            r == self.pass_count(),
    {
        self.num_pass
    }

    pub fn get_num_fail(&self) -> (r: u64)
        ensures
            r == self.fail_count(),
    {
        self.num_fail
    }

    pub fn get_num_warn(&self) -> (r: u64)
        ensures
            r == self.warn_count(),
    {
        self.num_warn
    }

    pub fn get_num_info(&self) -> (r: u64)
        ensures
            r == self.info_count(),
    {
        self.num_info
    }
}

} // verus!
