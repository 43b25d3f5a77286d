use vstd::prelude::*;
use vstd::string::*;
use crate::error::{ErrorView, QueryError};
use crate::text::{join3, nat_text, nat_to_text};

verus! {

/// The most that a query may use of each resource; `None` sets no limit.
#[derive(Debug, Clone, Copy, PartialEq, Eq, Structural)]
pub struct ResourceLimits {
    pub max_memory_bytes: Option<u64>,
    pub max_temp_spill_bytes: Option<u64>,
    pub max_scan_rows: Option<u64>,
}

/// The limits that limit nothing.
pub open spec fn no_limits() -> ResourceLimits {
    ResourceLimits { max_memory_bytes: None, max_temp_spill_bytes: None, max_scan_rows: None }
}

impl ResourceLimits {
    /// No limit on anything.
    pub fn unlimited() -> (r: Self)
        ensures
            r == no_limits(),
    {
        ResourceLimits { max_memory_bytes: None, max_temp_spill_bytes: None, max_scan_rows: None }
    }

    pub fn with_memory(self, bytes: u64) -> (r: Self)
        ensures
            r == (ResourceLimits { max_memory_bytes: Some(bytes), ..self }),
    {
        ResourceLimits { max_memory_bytes: Some(bytes), ..self }
    }

    pub fn with_temp_spill(self, bytes: u64) -> (r: Self)
        ensures
            r == (ResourceLimits { max_temp_spill_bytes: Some(bytes), ..self }),
    {
        ResourceLimits { max_temp_spill_bytes: Some(bytes), ..self }
    }

    pub fn with_scan_rows(self, rows: u64) -> (r: Self)
        ensures
            r == (ResourceLimits { max_scan_rows: Some(rows), ..self }),
    {
        ResourceLimits { max_scan_rows: Some(rows), ..self }
    }
}

impl Default for ResourceLimits {
    fn default() -> (r: Self)
        ensures
            r == no_limits(),
    {
        ResourceLimits::unlimited()
    }
}

/// What a query has used so far.
#[derive(Debug, Clone, Copy, PartialEq, Eq, Structural)]
pub struct ResourceUsageSnapshot {
    pub memory_bytes: u64,
    pub temp_spill_bytes: u64,
    pub scan_rows: u64,
}

/// The counters of a query that has used nothing.
pub open spec fn no_usage() -> ResourceUsageSnapshot {
    ResourceUsageSnapshot { memory_bytes: 0, temp_spill_bytes: 0, scan_rows: 0 }
}

#[derive(Debug)]
struct ResourceCounters {
    memory_bytes: u64,
    temp_spill_bytes: u64,
    scan_rows: u64,
}

impl ResourceCounters {
    spec fn view(&self) -> ResourceUsageSnapshot {
        ResourceUsageSnapshot {
            memory_bytes: self.memory_bytes,
            temp_spill_bytes: self.temp_spill_bytes,
            scan_rows: self.scan_rows,
        }
    }

    fn new() -> (r: Self)
        ensures
            r@ == no_usage(),
    {
        ResourceCounters { memory_bytes: 0, temp_spill_bytes: 0, scan_rows: 0 }
    }

    fn snapshot(&self) -> (r: ResourceUsageSnapshot)
        ensures
            r == self@,
    {
        ResourceUsageSnapshot {
            memory_bytes: self.memory_bytes,
            temp_spill_bytes: self.temp_spill_bytes,
            scan_rows: self.scan_rows,
        }
    }
}

/// Whether `n` lies over the limit.
pub open spec fn over(n: int, limit: Option<u64>) -> bool {
    match limit {
        Some(max) => n > max,
        None => false,
    }
}

/// What is said of a count that lies over its limit.
pub open spec fn limit_message(name: Seq<char>, n: u64, max: u64) -> Seq<char> {
    name + " exceeded: "@ + nat_text(n as nat) + " > "@ + nat_text(max as nat)
}

/// What comes of a count, where `name` is the limit that it is held against.
pub open spec fn limit_error(name: Seq<char>, n: u64, limit: Option<u64>) -> Option<ErrorView> {
    match limit {
        Some(max) => if n > max {
            Some(ErrorView::ResourceLimit(limit_message(name, n, max)))
        } else {
            None
        },
        None => None,
    }
}

/// The error of a result, where it is one.
pub open spec fn error_of(r: Result<(), QueryError>) -> Option<ErrorView> {
    match r {
        Ok(_) => None,
        Err(e) => Some(e@),
    }
}

/// What contracts say about a query's context. Times are milliseconds on a clock that the caller
/// reads.
pub struct ContextView {
    pub cancelled: bool,
    pub deadline: Option<u64>,
    pub timeout: Option<u64>,
    pub limits: ResourceLimits,
    pub usage: ResourceUsageSnapshot,
}

/// What a check at the time `now` finds: a cancelled query first, then one past its deadline.
pub open spec fn check_error(c: ContextView, now: u64) -> Option<ErrorView> {
    if c.cancelled {
        Some(ErrorView::Cancelled)
    } else {
        match c.deadline {
            Some(d) => if now >= d {
                Some(ErrorView::QueryTimeout(match c.timeout { Some(t) => t, None => 0 }))
            } else {
                None
            },
            None => None,
        }
    }
}

/// The limits, the deadline and the counters of one query.
#[derive(Debug)]
pub struct QueryContext {
    cancelled: bool,
    deadline: Option<u64>,
    timeout: Option<u64>,
    limits: ResourceLimits,
    counters: ResourceCounters,
}

impl QueryContext {
    pub closed spec fn view(&self) -> ContextView {
        ContextView {
            cancelled: self.cancelled,
            deadline: self.deadline,
            timeout: self.timeout,
            limits: self.limits,
            usage: self.counters@,
        }
    }

    pub fn new() -> (r: Self)
        ensures
            r@ == (ContextView {
                cancelled: false,
                deadline: None,
                timeout: None,
                limits: no_limits(),
                usage: no_usage(),
            }),
    {
        QueryContext {
            cancelled: false,
            deadline: None,
            timeout: None,
            limits: ResourceLimits::unlimited(),
            counters: ResourceCounters::new(),
        }
    }

    /// A context whose deadline lies `timeout` behind the time `now`.
    pub fn with_timeout(timeout: u64, now: u64) -> (r: Self)
        requires
            now + timeout <= u64::MAX,
        ensures
            r@ == (ContextView {
                cancelled: false,
                deadline: Some((now + timeout) as u64),
                timeout: Some(timeout),
                limits: no_limits(),
                usage: no_usage(),
            }),
    {
        QueryContext {
            cancelled: false,
            deadline: Some(now + timeout),
            timeout: Some(timeout),
            limits: ResourceLimits::unlimited(),
            counters: ResourceCounters::new(),
        }
    }

    pub fn with_limits(limits: ResourceLimits) -> (r: Self)
        ensures
            r@ == (ContextView { cancelled: false, deadline: None, timeout: None, limits, usage: no_usage() }),
    {
        QueryContext { cancelled: false, deadline: None, timeout: None, limits, counters: ResourceCounters::new() }
    }

    pub fn builder() -> (r: QueryContextBuilder)
        ensures
            r.timeout is None,
            r.limits == no_limits(),
    {
        QueryContextBuilder::default()
    }

    pub fn cancel(&mut self)
        ensures
            final(self)@ == (ContextView { cancelled: true, ..old(self)@ }),
    {
        self.cancelled = true;
    }

    pub fn is_cancelled(&self) -> (r: bool)
        ensures
            r == self@.cancelled,
    {
        self.cancelled
    }

    pub fn deadline(&self) -> (r: Option<u64>)
        ensures
            r == self@.deadline,
    {
        self.deadline
    }

    pub fn timeout(&self) -> (r: Option<u64>)
        ensures
            r == self@.timeout,
    {
        self.timeout
    }

    pub fn limits(&self) -> (r: ResourceLimits)
        ensures
            r == self@.limits,
    {
        self.limits
    }

    pub fn usage(&self) -> (r: ResourceUsageSnapshot)
        ensures
            r == self@.usage,
    {
        self.counters.snapshot()
    }

    /// Fails where the query has been cancelled, or where `now` is not before its deadline.
    pub fn check(&self, now: u64) -> (r: Result<(), QueryError>)
        ensures
            match r {
                Ok(_) => check_error(self@, now) is None,
                Err(e) => check_error(self@, now) == Some(e@),
            },
    {
        if self.cancelled {
            return Err(QueryError::Cancelled);
        }
        match self.deadline {
            Some(d) => {
                if now >= d {
                    let ms: u64 = match self.timeout {
                        Some(t) => t,
                        None => 0,
                    };
                    Err(QueryError::QueryTimeout(ms))
                } else {
                    Ok(())
                }
            },
            None => Ok(()),
        }
    }

    fn check_limit(n: u64, limit: Option<u64>, name: &str) -> (r: Result<(), QueryError>)
        ensures
            error_of(r) == limit_error(name@, n, limit),
    {
        match limit {
            Some(max) => {
                if n > max {
                    let left = join3(name, " exceeded: ", nat_to_text(n as u128).as_str());
                    Err(QueryError::ResourceLimit(join3(left.as_str(), " > ", nat_to_text(max as u128).as_str())))
                } else {
                    Ok(())
                }
            },
            None => Ok(()),
        }
    }

    pub fn account_scan_row(&mut self) -> (r: Result<(), QueryError>)
        requires
            old(self)@.usage.scan_rows < u64::MAX,
        ensures
            final(self)@ == (ContextView {
                usage: ResourceUsageSnapshot {
                    scan_rows: (old(self)@.usage.scan_rows + 1) as u64,
                    ..old(self)@.usage
                },
                ..old(self)@
            }),
            error_of(r) == limit_error("max_scan_rows"@, final(self)@.usage.scan_rows, old(self)@.limits.max_scan_rows),
    {
        self.account_scan_rows(1)
    }

    /// Counts rows that were read. They stay counted where they exceed the limit.
    pub fn account_scan_rows(&mut self, rows: u64) -> (r: Result<(), QueryError>)
        requires
            old(self)@.usage.scan_rows + rows <= u64::MAX,
        ensures
            final(self)@ == (ContextView {
                usage: ResourceUsageSnapshot {
                    scan_rows: (old(self)@.usage.scan_rows + rows) as u64,
                    ..old(self)@.usage
                },
                ..old(self)@
            }),
            error_of(r) == limit_error("max_scan_rows"@, final(self)@.usage.scan_rows, old(self)@.limits.max_scan_rows),
    {
        let n: u64 = self.counters.scan_rows + rows;
        self.counters.scan_rows = n;
        Self::check_limit(n, self.limits.max_scan_rows, "max_scan_rows")
    }

    /// Counts memory that was taken. It stays counted where it exceeds the limit.
    pub fn account_memory(&mut self, bytes: u64) -> (r: Result<(), QueryError>)
        requires
            old(self)@.usage.memory_bytes + bytes <= u64::MAX,
        ensures
            final(self)@ == (ContextView {
                usage: ResourceUsageSnapshot {
                    memory_bytes: (old(self)@.usage.memory_bytes + bytes) as u64,
                    ..old(self)@.usage
                },
                ..old(self)@
            }),
            error_of(r) == limit_error("max_memory_bytes"@, final(self)@.usage.memory_bytes, old(self)@.limits.max_memory_bytes),
    {
        let n: u64 = self.counters.memory_bytes + bytes;
        self.counters.memory_bytes = n;
        Self::check_limit(n, self.limits.max_memory_bytes, "max_memory_bytes")
    }

    /// Takes memory off the count, at most all of it.
    pub fn release_memory(&mut self, bytes: u64)
        ensures
            final(self)@ == (ContextView {
                usage: ResourceUsageSnapshot {
                    memory_bytes: if old(self)@.usage.memory_bytes >= bytes {
                        (old(self)@.usage.memory_bytes - bytes) as u64
                    } else {
                        0
                    },
                    ..old(self)@.usage
                },
                ..old(self)@
            }),
    {
        self.counters.memory_bytes = if self.counters.memory_bytes >= bytes {
            self.counters.memory_bytes - bytes
        } else {
            0
        };
    }

    /// Counts bytes that were spilled. They stay counted where they exceed the limit.
    pub fn account_temp_spill(&mut self, bytes: u64) -> (r: Result<(), QueryError>)
        requires
            old(self)@.usage.temp_spill_bytes + bytes <= u64::MAX,
        ensures
            final(self)@ == (ContextView {
                usage: ResourceUsageSnapshot {
                    temp_spill_bytes: (old(self)@.usage.temp_spill_bytes + bytes) as u64,
                    ..old(self)@.usage
                },
                ..old(self)@
            }),
            error_of(r) == limit_error("max_temp_spill_bytes"@, final(self)@.usage.temp_spill_bytes, old(self)@.limits.max_temp_spill_bytes),
    {
        let n: u64 = self.counters.temp_spill_bytes + bytes;
        self.counters.temp_spill_bytes = n;
        Self::check_limit(n, self.limits.max_temp_spill_bytes, "max_temp_spill_bytes")
    }

    /// Counts a step, and checks the context at every `period`-th of them.
    pub fn check_every(&self, counter: &mut u64, period: u64, now: u64) -> (r: Result<(), QueryError>)
        ensures
            *final(counter) == (if *old(counter) == u64::MAX { 0 } else { (*old(counter) + 1) as u64 }),
            ({
                let due = *final(counter) % (if period == 0 { 1u64 } else { period }) == 0;
                match r {
                    Ok(_) => !due || check_error(self@, now) is None,
                    Err(e) => due && check_error(self@, now) == Some(e@),
                }
            }),
    {
        *counter = if *counter == u64::MAX { 0 } else { *counter + 1 };
        let p: u64 = if period == 0 { 1 } else { period };
        if *counter % p == 0 {
            self.check(now)?;
        }
        Ok(())
    }
}

#[derive(Debug)]
pub struct QueryContextBuilder {
    pub timeout: Option<u64>,
    pub limits: ResourceLimits,
}

impl Default for QueryContextBuilder {
    fn default() -> (r: Self)
        ensures
            r.timeout is None,
            r.limits == no_limits(),
    {
        QueryContextBuilder { timeout: None, limits: ResourceLimits::unlimited() }
    }
}

impl QueryContextBuilder {
    pub fn timeout(self, t: u64) -> (r: Self)
        ensures
            r == (QueryContextBuilder { timeout: Some(t), ..self }),
    {
        QueryContextBuilder { timeout: Some(t), ..self }
    }

    pub fn max_memory_bytes(self, bytes: u64) -> (r: Self)
        ensures
            r == (QueryContextBuilder {
                limits: ResourceLimits { max_memory_bytes: Some(bytes), ..self.limits },
                ..self
            }),
    {
        let limits = self.limits.with_memory(bytes);
        QueryContextBuilder { limits, ..self }
    }

    pub fn max_temp_spill_bytes(self, bytes: u64) -> (r: Self)
        ensures
            r == (QueryContextBuilder {
                limits: ResourceLimits { max_temp_spill_bytes: Some(bytes), ..self.limits },
                ..self
            }),
    {
        let limits = self.limits.with_temp_spill(bytes);
        QueryContextBuilder { limits, ..self }
    }

    pub fn max_scan_rows(self, rows: u64) -> (r: Self)
        ensures
            r == (QueryContextBuilder { limits: ResourceLimits { max_scan_rows: Some(rows), ..self.limits }, ..self }),
    {
        let limits = self.limits.with_scan_rows(rows);
        QueryContextBuilder { limits, ..self }
    }

    pub fn limits(self, l: ResourceLimits) -> (r: Self)
        ensures
            r == (QueryContextBuilder { limits: l, ..self }),
    {
        QueryContextBuilder { limits: l, ..self }
    }

    /// The context, its timeout counted from the time `now`.
    pub fn build(self, now: u64) -> (r: QueryContext)
        requires
            self.timeout matches Some(t) ==> now + t <= u64::MAX,
        ensures
            r@ == (ContextView {
                cancelled: false,
                deadline: match self.timeout { Some(t) => Some((now + t) as u64), None => None },
                timeout: self.timeout,
                limits: self.limits,
                usage: no_usage(),
            }),
    {
        let deadline: Option<u64> = match self.timeout {
            Some(t) => Some(now + t),
            None => None,
        };
        QueryContext {
            cancelled: false,
            deadline,
            timeout: self.timeout,
            limits: self.limits,
            counters: ResourceCounters::new(),
        }
    }
}

/// Once cancelled, a query fails every check as cancelled, whatever the time.
pub proof fn law_cancelled_fails(c: ContextView, now: u64)
    requires
        c.cancelled,
    ensures
        check_error(c, now) == Some(ErrorView::Cancelled),
{
}

/// A query that has failed a check for its deadline fails every later one.
pub proof fn law_deadline_stays(c: ContextView, now: u64, later: u64)
    requires
        check_error(c, now) is Some,
        now <= later,
    ensures
        check_error(c, later) == check_error(c, now),
{
}

/// A count is refused exactly where it lies over its limit.
pub proof fn law_refused_over_limit(name: Seq<char>, n: u64, limit: Option<u64>)
    ensures
        limit_error(name, n, limit) is Some == over(n as int, limit),
{
}

/// A count over its limit stays over it however much is added.
pub proof fn law_over_stays(n: int, more: int, limit: Option<u64>)
    requires
        over(n, limit),
        more >= 0,
    ensures
        over(n + more, limit),
{
}

} // verus!
