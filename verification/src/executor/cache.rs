use vstd::prelude::*;
use vstd::string::*;
use vstd::utf8::encode_utf8;
use crate::error::ErrorView;
use crate::parser::ast::{Statement, StatementView};
use crate::parser::parser::{Parser, parse_fault, parse_text};

verus! {

/// How many statements the cache holds.
pub const STMT_CACHE_SIZE: usize = 256;

/// How many entries the log of slow queries holds.
pub const SLOW_LOG_SIZE: usize = 256;

pub const HASH_START: u64 = 0xcbf29ce484222325;

pub const HASH_FACTOR: u64 = 0x100000001b3;

/// One step of the hash: a byte is mixed in, then the state is multiplied.
pub open spec fn hash_step(h: u64, b: u8) -> u64 {
    (h ^ (b as u64)).wrapping_mul(HASH_FACTOR)
}

/// The hash of bytes.
pub open spec fn hash_bytes(b: Seq<u8>) -> u64
    decreases b.len(),
{
    if b.len() == 0 {
        HASH_START
    } else {
        hash_step(hash_bytes(b.drop_last()), b.last())
    }
}

/// The hash that statements are cached under.
pub open spec fn hash_of(sql: Seq<char>) -> u64 {
    hash_bytes(encode_utf8(sql))
}

fn hash_sql(sql: &str) -> (r: u64)
    ensures
        r == hash_of(sql@),
{
    let b = sql.as_bytes_vec();
    let mut h: u64 = HASH_START;
    let mut i: usize = 0;
    assert(b@.take(0).len() == 0);
    while i < b.len()
        invariant
            i <= b.len(),
            h == hash_bytes(b@.take(i as int)),
        decreases b.len() - i,
    {
        assert(b@.take(i + 1).drop_last() =~= b@.take(i as int));
        h = (h ^ (b[i] as u64)).wrapping_mul(HASH_FACTOR);
        i = i + 1;
    }
    assert(b@.take(b.len() as int) =~= b@);
    h
}

// ---- parsed statements

#[derive(Debug)]
struct CacheEntry {
    hash: u64,
    stmt: Statement,
}

/// The statements that were parsed last, the oldest first.
#[derive(Debug)]
pub struct StmtCache {
    entries: Vec<CacheEntry>,
}

/// The first entry under a hash.
pub open spec fn cached(c: Seq<(u64, StatementView)>, h: u64) -> Option<StatementView>
    decreases c.len(),
{
    if c.len() == 0 {
        None
    } else {
        match cached(c.drop_last(), h) {
            Some(s) => Some(s),
            None => if c.last().0 == h {
                Some(c.last().1)
            } else {
                None
            },
        }
    }
}

/// The cache with one more entry; where it is full, the oldest leaves.
pub open spec fn cache_put(c: Seq<(u64, StatementView)>, h: u64, s: StatementView) -> Seq<(u64, StatementView)> {
    if c.len() >= STMT_CACHE_SIZE {
        c.skip(1).push((h, s))
    } else {
        c.push((h, s))
    }
}

/// What a text is parsed to where the cache holds `c`, and what the cache holds then.
pub open spec fn parsed(c: Seq<(u64, StatementView)>, sql: Seq<char>) -> (Seq<(u64, StatementView)>, Option<StatementView>) {
    match cached(c, hash_of(sql)) {
        Some(s) => (c, Some(s)),
        None => match parse_text(sql) {
            Some(s) => (cache_put(c, hash_of(sql), s), Some(s)),
            None => (c, None),
        },
    }
}

impl StmtCache {
    pub closed spec fn view(&self) -> Seq<(u64, StatementView)> {
        Seq::new(self.entries@.len(), |i: int| (self.entries@[i].hash, self.entries@[i].stmt@))
    }

    pub fn new() -> (r: StmtCache)
        ensures
            r@ == Seq::<(u64, StatementView)>::empty(),
    {
        let r = StmtCache { entries: Vec::new() };
        assert(r@ =~= Seq::empty());
        r
    }

    fn get(&self, hash: u64) -> (r: Option<Statement>)
        ensures
            (match r { Some(s) => Some(s@), None => None }) == cached(self@, hash),
    {
        let mut i: usize = 0;
        assert(self@.take(0).len() == 0);
        while i < self.entries.len()
            invariant
                i <= self.entries.len(),
                cached(self@.take(i as int), hash) is None,
            decreases self.entries.len() - i,
        {
            assert(self@.take(i + 1).drop_last() =~= self@.take(i as int));
            assert(self@.take(i + 1).last() == (self.entries@[i as int].hash, self.entries@[i as int].stmt@));
            if self.entries[i].hash == hash {
                proof {
                    lemma_cached(self@, hash, i + 1);
                }
                return Some(self.entries[i].stmt.dup());
            }
            i = i + 1;
        }
        assert(self@.take(i as int) =~= self@);
        None
    }

    fn insert(&mut self, hash: u64, stmt: Statement)
        requires
            old(self)@.len() <= STMT_CACHE_SIZE,
        ensures
            final(self)@ == cache_put(old(self)@, hash, stmt@),
    {
        let ghost before = self@;
        if self.entries.len() >= STMT_CACHE_SIZE {
            self.entries.remove(0);
        }
        self.entries.push(CacheEntry { hash, stmt });
        assert(self@ =~= cache_put(before, hash, stmt@));
    }

    /// Parses a text, or gives the statement that the cache holds for it.
    pub fn parse(&mut self, sql: &str) -> (r: crate::error::Result<Statement>)
        requires
            old(self)@.len() <= STMT_CACHE_SIZE,
        ensures
            parsed(old(self)@, sql@) == (final(self)@, match r { Ok(s) => Some(s@), Err(_) => None }),
            r matches Err(e) ==> e@ == ErrorView::Parse(parse_fault(sql@)),
            final(self)@.len() <= STMT_CACHE_SIZE,
    {
        let h = hash_sql(sql);
        match self.get(h) {
            Some(s) => Ok(s),
            None => {
                let mut p = match Parser::new(sql) {
                    Ok(p) => p,
                    Err(e) => {
                        return Err(e);
                    },
                };
                match p.parse() {
                    Err(e) => Err(e),
                    Ok(s) => {
                        self.insert(h, s.dup());
                        Ok(s)
                    },
                }
            },
        }
    }
}

proof fn lemma_cached(c: Seq<(u64, StatementView)>, h: u64, n: int)
    requires
        0 <= n <= c.len(),
        cached(c.take(n), h) is Some,
    ensures
        cached(c, h) == cached(c.take(n), h),
    decreases c.len() - n,
{
    if n < c.len() {
        assert(c.take(n + 1).drop_last() =~= c.take(n));
        lemma_cached(c, h, n + 1);
    } else {
        assert(c.take(n) =~= c);
    }
}

/// The cache never holds more than it has room for.
pub proof fn law_cache_is_bounded(c: Seq<(u64, StatementView)>, sql: Seq<char>)
    requires
        c.len() <= STMT_CACHE_SIZE,
    ensures
        parsed(c, sql).0.len() <= STMT_CACHE_SIZE,
{
}

/// A text that was parsed is parsed to the same statement again, whatever the cache held.
pub proof fn law_parse_again(c: Seq<(u64, StatementView)>, sql: Seq<char>)
    requires
        c.len() <= STMT_CACHE_SIZE,
        parsed(c, sql).1 is Some,
    ensures
        parsed(parsed(c, sql).0, sql) == parsed(c, sql),
{
    let h = hash_of(sql);
    if cached(c, h) is None {
        let s = parse_text(sql)->0;
        let d = cache_put(c, h, s);
        if c.len() >= STMT_CACHE_SIZE {
            lemma_without_first(c, h);
            assert(d.drop_last() =~= c.skip(1));
        } else {
            assert(d.drop_last() =~= c);
        }
    }
}

proof fn lemma_without_first(c: Seq<(u64, StatementView)>, h: u64)
    requires
        c.len() > 0,
        cached(c, h) is None,
    ensures
        cached(c.skip(1), h) is None,
    decreases c.len(),
{
    if c.len() > 1 {
        lemma_without_first(c.drop_last(), h);
        assert(c.skip(1).drop_last() =~= c.drop_last().skip(1));
    } else {
        assert(c.skip(1).len() == 0);
    }
}

// ---- slow queries

/// A query that took long.
#[derive(Debug, Clone)]
pub struct SlowQueryEntry {
    pub sql: String,
    pub duration_micros: u64,
    pub txn_id: Option<u64>,
    pub timestamp_micros: u64,
}

/// What contracts say about a `SlowQueryEntry`.
pub struct SlowQueryView {
    pub sql: Seq<char>,
    pub duration_micros: u64,
    pub txn_id: Option<u64>,
    pub timestamp_micros: u64,
}

impl SlowQueryEntry {
    pub open spec fn view(&self) -> SlowQueryView {
        SlowQueryView {
            sql: self.sql@,
            duration_micros: self.duration_micros,
            txn_id: self.txn_id,
            timestamp_micros: self.timestamp_micros,
        }
    }
}

pub open spec fn slow_view(s: Seq<SlowQueryEntry>) -> Seq<SlowQueryView> {
    Seq::new(s.len(), |i: int| s[i]@)
}

/// The queries that took at least as long as a threshold, the oldest first.
#[derive(Debug)]
pub struct SlowLog {
    pub threshold_ms: Option<u64>,
    pub entries: Vec<SlowQueryEntry>,
}

/// The log after a query: it is there if it took the threshold at least, and where the log is full
/// the oldest entry leaves.
pub open spec fn slow_put(threshold: Option<u64>, log: Seq<SlowQueryView>, q: SlowQueryView) -> Seq<SlowQueryView> {
    match threshold {
        None => log,
        Some(t) => if q.duration_micros / 1000 < t {
            log
        } else if log.len() >= SLOW_LOG_SIZE {
            log.skip(1).push(q)
        } else {
            log.push(q)
        },
    }
}

impl SlowLog {
    pub fn new() -> (r: SlowLog)
        ensures
            r.threshold_ms is None,
            slow_view(r.entries@) == Seq::<SlowQueryView>::empty(),
    {
        let r = SlowLog { threshold_ms: None, entries: Vec::new() };
        assert(slow_view(r.entries@) =~= Seq::empty());
        r
    }

    pub fn maybe_record_slow_query(&mut self, sql: &str, elapsed_us: u64, txn_id: Option<u64>, now_us: u64)
        ensures
            final(self).threshold_ms == old(self).threshold_ms,
            slow_view(final(self).entries@) == slow_put(
                old(self).threshold_ms,
                slow_view(old(self).entries@),
                (SlowQueryView { sql: sql@, duration_micros: elapsed_us, txn_id, timestamp_micros: now_us }),
            ),
    {
        let ghost before = slow_view(self.entries@);
        let threshold = match self.threshold_ms {
            Some(t) => t,
            None => {
                return;
            },
        };
        if elapsed_us / 1000 < threshold {
            return;
        }
        let entry = SlowQueryEntry { sql: sql.to_string(), duration_micros: elapsed_us, txn_id, timestamp_micros: now_us };
        if self.entries.len() >= SLOW_LOG_SIZE {
            self.entries.remove(0);
        }
        self.entries.push(entry);
        assert(slow_view(self.entries@) =~= slow_put(self.threshold_ms, before, entry@));
    }
}

/// The log of slow queries never holds more than it has room for.
pub proof fn law_slow_log_is_bounded(threshold: Option<u64>, log: Seq<SlowQueryView>, q: SlowQueryView)
    requires
        log.len() <= SLOW_LOG_SIZE,
    ensures
        slow_put(threshold, log, q).len() <= SLOW_LOG_SIZE,
{
}

} // verus!
