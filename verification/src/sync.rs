//! Synchronization settings: mappings from PostgreSQL queries to local
//! tables, and the schedule on which the sync runs (all times in UTC).

use vstd::prelude::*;
use crate::db_error::{DbError, DbResult};
use crate::text::{str_eq, string_from_chars, push_str};

verus! {

/// How fetched rows are written to the local table.
#[derive(Debug, Clone, Copy, PartialEq, Eq, Structural)]
pub enum SyncStrategy {
    /// Empty the table, then insert.
    Replace,
    /// Insert without deleting.
    Append,
    /// `REPLACE INTO`: insert, replacing rows with the same key.
    Upsert,
}

/// Days of the week.
#[derive(Debug, Clone, Copy, PartialEq, Eq, Structural)]
pub enum Weekday {
    Mon,
    Tue,
    Wed,
    Thu,
    Fri,
    Sat,
    Sun,
}

impl Weekday {
    /// Monday is 0, Sunday is 6.
    pub open spec fn index(self) -> int {
        match self {
            Weekday::Mon => 0,
            Weekday::Tue => 1,
            Weekday::Wed => 2,
            Weekday::Thu => 3,
            Weekday::Fri => 4,
            Weekday::Sat => 5,
            Weekday::Sun => 6,
        }
    }

    pub fn num_days_from_monday(&self) -> (r: u32)
        ensures
            r == self.index(),
    {
        match self {
            Weekday::Mon => 0,
            Weekday::Tue => 1,
            Weekday::Wed => 2,
            Weekday::Thu => 3,
            Weekday::Fri => 4,
            Weekday::Sat => 5,
            Weekday::Sun => 6,
        }
    }
}

/// Column pairs `(query column, local column)`; no query column twice.
pub open spec fn pairs_map(ps: Seq<(String, String)>) -> Map<Seq<char>, Seq<char>>
    decreases ps.len(),
{
    if ps.len() == 0 {
        Map::empty()
    } else {
        pairs_map(ps.drop_last()).insert(ps.last().0@, ps.last().1@)
    }
}

pub open spec fn keys_distinct(ps: Seq<(String, String)>) -> bool {
    forall|i: int, j: int|
        0 <= i < ps.len() && 0 <= j < ps.len() && i != j ==> #[trigger] ps[i].0@ != #[trigger] ps[j].0@
}

proof fn lemma_pairs_map(ps: Seq<(String, String)>)
    requires
        keys_distinct(ps),
    ensures
        forall|k: Seq<char>| #[trigger]
            pairs_map(ps).contains_key(k) <==> exists|i: int| 0 <= i < ps.len() && ps[i].0@ == k,
        forall|i: int| 0 <= i < ps.len() ==> #[trigger] pairs_map(ps)[ps[i].0@] == ps[i].1@,
    decreases ps.len(),
{
    if ps.len() > 0 {
        let init = ps.drop_last();
        assert(keys_distinct(init)) by {
            assert forall|i: int, j: int|
                0 <= i < init.len() && 0 <= j < init.len() && i != j implies #[trigger] init[i].0@
                != #[trigger] init[j].0@ by {
                assert(init[i] == ps[i] && init[j] == ps[j]);
            }
        }
        lemma_pairs_map(init);
        assert forall|k: Seq<char>| #[trigger]
            pairs_map(ps).contains_key(k) implies exists|i: int| 0 <= i < ps.len() && ps[i].0@ == k by {
            if k != ps.last().0@ {
                assert(pairs_map(init).contains_key(k));
                let i = choose|i: int| 0 <= i < init.len() && init[i].0@ == k;
                assert(ps[i] == init[i]);
            } else {
                assert(ps[ps.len() - 1].0@ == k);
            }
        }
        assert forall|k: Seq<char>|
            (exists|i: int| 0 <= i < ps.len() && ps[i].0@ == k) implies #[trigger]
            pairs_map(ps).contains_key(k) by {
            let i = choose|i: int| 0 <= i < ps.len() && ps[i].0@ == k;
            if i < ps.len() - 1 {
                assert(init[i] == ps[i]);
                assert(pairs_map(init).contains_key(k));
            }
        }
        assert forall|i: int| 0 <= i < ps.len() implies #[trigger] pairs_map(ps)[ps[i].0@]
            == ps[i].1@ by {
            if i < ps.len() - 1 {
                assert(init[i] == ps[i]);
                assert(pairs_map(init)[init[i].0@] == init[i].1@);
            }
        }
    }
}

/// Which query columns go to which local columns.
#[derive(Debug)]
pub struct ColumnMap {
    pairs: Vec<(String, String)>,
}

impl View for ColumnMap {
    type V = Map<Seq<char>, Seq<char>>;

    closed spec fn view(&self) -> Map<Seq<char>, Seq<char>> {
        pairs_map(self.pairs@)
    }
}

impl ColumnMap {
    #[verifier::type_invariant]
    closed spec fn inv(self) -> bool {
        keys_distinct(self.pairs@)
    }

    pub fn new() -> (r: Self)
        ensures
            r@ == Map::<Seq<char>, Seq<char>>::empty(),
    {
        ColumnMap { pairs: Vec::new() }
    }

    fn position(&self, key: &str) -> (r: Option<usize>)
        ensures
            r matches Some(i) ==> i < self.pairs@.len() && self.pairs@[i as int].0@ == key@,
            r is None ==> forall|j: int|
                0 <= j < self.pairs@.len() ==> #[trigger] self.pairs@[j].0@ != key@,
    {
        let mut i: usize = 0;
        while i < self.pairs.len()
            invariant
                0 <= i <= self.pairs@.len(),
                forall|j: int| 0 <= j < i ==> #[trigger] self.pairs@[j].0@ != key@,
            decreases self.pairs.len() - i,
        {
            if str_eq(self.pairs[i].0.as_str(), key) {
                return Some(i);
            }
            i = i + 1;
        }
        None
    }

    /// Maps `key` to `value`, replacing an earlier mapping of `key`.
    pub fn insert(&mut self, key: String, value: String)
        ensures
            final(self)@ == old(self)@.insert(key@, value@),
    {
        proof {
            use_type_invariant(&*self);
            lemma_pairs_map(self.pairs@);
        }
        let mut ps: Vec<(String, String)> = Vec::new();
        std::mem::swap(&mut ps, &mut self.pairs);
        let ghost old_ps = ps@;
        let mut i: usize = 0;
        let mut found: Option<usize> = None;
        while i < ps.len()
            invariant
                0 <= i <= ps@.len(),
                ps@ == old_ps,
                found is None ==> forall|j: int| 0 <= j < i ==> #[trigger] ps@[j].0@ != key@,
                found matches Some(f) ==> f < ps@.len() && ps@[f as int].0@ == key@,
            decreases ps.len() - i,
        {
            if found.is_none() && str_eq(ps[i].0.as_str(), key.as_str()) {
                found = Some(i);
            }
            i = i + 1;
        }
        let ghost k = key@;
        let ghost v = value@;
        match found {
            Some(f) => {
                ps.set(f, (key, value));
                proof {
                    let n = ps@;
                    assert forall|a: int, b: int|
                        0 <= a < n.len() && 0 <= b < n.len() && a != b implies #[trigger] n[a].0@
                        != #[trigger] n[b].0@ by {
                        if a != f && b != f {
                            assert(n[a] == old_ps[a] && n[b] == old_ps[b]);
                        } else if a == f {
                            assert(n[b] == old_ps[b]);
                            assert(old_ps[f as int].0@ == k);
                        } else {
                            assert(n[a] == old_ps[a]);
                            assert(old_ps[f as int].0@ == k);
                        }
                    }
                    lemma_pairs_map(n);
                    assert(pairs_map(n) =~= pairs_map(old_ps).insert(k, v)) by {
                        assert forall|q: Seq<char>|
                            pairs_map(old_ps).insert(k, v).contains_key(q) implies pairs_map(
                            n,
                        ).contains_key(q) by {
                            if q != k {
                                assert(pairs_map(old_ps).contains_key(q));
                                let j = choose|j: int| 0 <= j < old_ps.len() && old_ps[j].0@ == q;
                                assert(n[j] == old_ps[j]);
                            } else {
                                assert(n[f as int].0@ == k);
                            }
                        }
                        assert forall|q: Seq<char>| pairs_map(n).contains_key(q) implies
                            pairs_map(old_ps).insert(k, v).contains_key(q) && pairs_map(n)[q]
                            == pairs_map(old_ps).insert(k, v)[q] by {
                            let j = choose|j: int| 0 <= j < n.len() && n[j].0@ == q;
                            if j != f {
                                assert(n[j] == old_ps[j]);
                                assert(pairs_map(old_ps)[old_ps[j].0@] == old_ps[j].1@);
                                assert(pairs_map(n)[n[j].0@] == n[j].1@);
                            } else {
                                assert(pairs_map(n)[n[j].0@] == n[j].1@);
                            }
                        }
                    }
                }
            },
            None => {
                ps.push((key, value));
                proof {
                    let n = ps@;
                    assert(n.drop_last() =~= old_ps);
                    assert forall|a: int, b: int|
                        0 <= a < n.len() && 0 <= b < n.len() && a != b implies #[trigger] n[a].0@
                        != #[trigger] n[b].0@ by {
                        if a < n.len() - 1 && b < n.len() - 1 {
                            assert(n[a] == old_ps[a] && n[b] == old_ps[b]);
                        } else if a < n.len() - 1 {
                            assert(n[a] == old_ps[a]);
                        } else if b < n.len() - 1 {
                            assert(n[b] == old_ps[b]);
                        }
                    }
                }
            },
        }
        self.pairs = ps;
    }

    /// The local column that `key` maps to.
    pub fn get(&self, key: &str) -> (r: Option<&String>)
        ensures
            r is Some <==> self@.contains_key(key@),
            r matches Some(v) ==> v@ == self@[key@],
    {
        proof {
            use_type_invariant(self);
            lemma_pairs_map(self.pairs@);
        }
        match self.position(key) {
            Some(i) => Some(&self.pairs[i].1),
            None => None,
        }
    }

    pub fn len(&self) -> (r: usize)
        ensures
            r == self@.len(),
    {
        proof {
            use_type_invariant(self);
            lemma_pairs_map(self.pairs@);
            lemma_pairs_map_len(self.pairs@);
        }
        self.pairs.len()
    }

    /// The `(query column, local column)` pairs in insertion order.
    pub fn pairs(&self) -> (r: &Vec<(String, String)>)
        ensures
            pairs_map(r@) == self@,
            keys_distinct(r@),
    {
        proof {
            use_type_invariant(self);
        }
        &self.pairs
    }
}

proof fn lemma_pairs_map_len(ps: Seq<(String, String)>)
    requires
        keys_distinct(ps),
    ensures
        pairs_map(ps).dom().finite(),
        pairs_map(ps).len() == ps.len(),
    decreases ps.len(),
{
    if ps.len() > 0 {
        let init = ps.drop_last();
        assert(keys_distinct(init)) by {
            assert forall|i: int, j: int|
                0 <= i < init.len() && 0 <= j < init.len() && i != j implies #[trigger] init[i].0@
                != #[trigger] init[j].0@ by {
                assert(init[i] == ps[i] && init[j] == ps[j]);
            }
        }
        lemma_pairs_map_len(init);
        lemma_pairs_map(init);
        assert(!pairs_map(init).contains_key(ps.last().0@)) by {
            if pairs_map(init).contains_key(ps.last().0@) {
                let i = choose|i: int| 0 <= i < init.len() && init[i].0@ == ps.last().0@;
                assert(ps[i] == init[i]);
            }
        }
    }
}

/// A mapping from the rows of a PostgreSQL query to a local table.
#[derive(Debug)]
pub struct SyncMapping {
    pub postgres_query: String,
    pub local_table: String,
    pub column_map: ColumnMap,
    pub strategy: SyncStrategy,
    pub unique_keys: Vec<String>,
}

impl SyncMapping {
    /// A mapping with no columns yet, upserting on `id`.
    pub fn new(postgres_query: &str, local_table: &str) -> (r: Self)
        ensures
            r.postgres_query@ == postgres_query@,
            r.local_table@ == local_table@,
            r.column_map@ == Map::<Seq<char>, Seq<char>>::empty(),
            r.strategy == SyncStrategy::Upsert,
            r.unique_keys@.len() == 1 && r.unique_keys@[0]@ == "id"@,
    {
        let mut keys: Vec<String> = Vec::new();
        keys.push(String::from_str("id"));
        SyncMapping {
            postgres_query: String::from_str(postgres_query),
            local_table: String::from_str(local_table),
            column_map: ColumnMap::new(),
            strategy: SyncStrategy::Upsert,
            unique_keys: keys,
        }
    }

    /// Writes query column `query_col` to local column `local_col`.
    pub fn map_column(self, query_col: &str, local_col: &str) -> (r: Self)
        ensures
            r.column_map@ == self.column_map@.insert(query_col@, local_col@),
            r.postgres_query == self.postgres_query,
            r.local_table == self.local_table,
            r.strategy == self.strategy,
            r.unique_keys == self.unique_keys,
    {
        let mut m = self;
        m.column_map.insert(String::from_str(query_col), String::from_str(local_col));
        m
    }

    /// Writes query column `column` to the local column of the same name.
    pub fn map_same(self, column: &str) -> (r: Self)
        ensures
            r.column_map@ == self.column_map@.insert(column@, column@),
            r.postgres_query == self.postgres_query,
            r.local_table == self.local_table,
            r.strategy == self.strategy,
            r.unique_keys == self.unique_keys,
    {
        self.map_column(column, column)
    }

    pub fn with_strategy(self, strategy: SyncStrategy) -> (r: Self)
        ensures
            r.strategy == strategy,
            r.column_map == self.column_map,
            r.postgres_query == self.postgres_query,
            r.local_table == self.local_table,
            r.unique_keys == self.unique_keys,
    {
        let mut m = self;
        m.strategy = strategy;
        m
    }

    pub fn with_unique_keys(self, keys: Vec<String>) -> (r: Self)
        ensures
            r.unique_keys == keys,
            r.strategy == self.strategy,
            r.column_map == self.column_map,
            r.postgres_query == self.postgres_query,
            r.local_table == self.local_table,
    {
        let mut m = self;
        m.unique_keys = keys;
        m
    }
}

/// When the sync runs.
#[derive(Debug, Clone)]
pub enum SyncSchedule {
    Manual,
    Interval { seconds: u64 },
    DailyAt { hour: u8, minute: u8 },
    Weekly { weekdays: Vec<Weekday>, hour: u8, minute: u8 },
    Cron { expression: String },
}

/// The description of a failed cron-expression parse, or `None` when the
/// expression parses. (What the `cron` crate's parser reports.)
pub uninterp spec fn cron_parse_error(expression: Seq<char>) -> Option<Seq<char>>;

/// A parsed cron schedule of the `cron` crate.
#[verifier::external_type_specification]
#[verifier::external_body]
pub struct ExCronSchedule(cron::Schedule);

/// Parses a cron expression.
///
/// Trusted: wraps `<cron::Schedule as FromStr>::from_str`; on failure the
/// error's `Display` text is returned. The outcome is named by
/// `cron_parse_error`, as the parser depends on the expression alone.
#[verifier::external_body]
fn parse_cron(expression: &str) -> (r: Result<cron::Schedule, String>)
    ensures
        r is Ok <==> cron_parse_error(expression@) is None,
        r matches Err(m) ==> cron_parse_error(expression@) == Some(m@),
{
    match <cron::Schedule as std::str::FromStr>::from_str(expression) {
        Ok(s) => Ok(s),
        Err(e) => Err(e.to_string()),
    }
}

/// An instant in UTC: whole seconds since 1970-01-01T00:00:00 and the
/// nanoseconds past them.
#[derive(Debug, Clone, Copy, PartialEq, Eq, Structural)]
pub struct Timestamp {
    pub secs: i64,
    pub nanos: u32,
}

/// The first day that dates can reach (-262143-01-01), counted from 1970-01-01.
pub const MIN_DAY: i64 = -96465293;

/// The last day that dates can reach (262142-12-31), counted from 1970-01-01.
pub const MAX_DAY: i64 = 95026236;

impl Timestamp {
    /// Within the range of calendar dates, and not inside a leap second.
    pub open spec fn wf(self) -> bool {
        &&& MIN_DAY * 86400 <= self.secs <= MAX_DAY * 86400 + 86399
        &&& self.nanos < 1_000_000_000
    }
}

/// The next instant of a cron schedule after the current time of the clock.
///
/// Trusted: wraps `cron::Schedule::upcoming(Utc).next()`. It reads the
/// clock, so nothing is promised of the instant returned.
#[verifier::external_body]
fn cron_upcoming(schedule: &cron::Schedule) -> (r: Option<Timestamp>) {
    match schedule.upcoming(chrono::Utc).next() {
        Some(t) => Some(Timestamp { secs: t.timestamp(), nanos: t.timestamp_subsec_nanos() }),
        None => None,
    }
}

/// A non-negative duration: whole seconds and the nanoseconds past them.
#[derive(Debug, Clone, Copy, PartialEq, Eq, Structural)]
pub struct Delay {
    pub secs: u64,
    pub nanos: u32,
}

/// The day of an instant (days since 1970-01-01, rounding down).
pub open spec fn day_of(secs: int) -> int {
    secs / 86400
}

/// The weekday of a day number: 1970-01-01 was a Thursday.
pub open spec fn weekday_of_day(day: int) -> int {
    (day + 3) % 7
}

/// Seconds since midnight of `hour:minute:00`.
pub open spec fn time_of_day(hour: u8, minute: u8) -> int {
    hour * 3600 + minute * 60
}

/// Validation of an `hour:minute` time: hours 0–23, minutes 0–59.
pub open spec fn time_error(hour: u8, minute: u8) -> Option<Seq<char>> {
    if hour > 23 {
        Some("Hour must be between 0 and 23"@)
    } else if minute > 59 {
        Some("Minute must be between 0 and 59"@)
    } else {
        None
    }
}

/// The error of a schedule that cannot run, or `None`.
pub open spec fn schedule_error(s: SyncSchedule) -> Option<Seq<char>> {
    match s {
        SyncSchedule::Manual => None,
        SyncSchedule::Interval { seconds } => if seconds == 0 {
            Some("Interval must be greater than 0 seconds"@)
        } else {
            None
        },
        SyncSchedule::DailyAt { hour, minute } => time_error(hour, minute),
        SyncSchedule::Weekly { weekdays, hour, minute } => if weekdays@.len() == 0 {
            Some("Weekly schedule requires at least one weekday"@)
        } else {
            time_error(hour, minute)
        },
        SyncSchedule::Cron { expression } => match cron_parse_error(expression@) {
            None => None,
            Some(m) => Some("Invalid cron expression: "@ + m),
        },
    }
}

fn sync_error(msg: &str) -> (e: DbError)
    ensures
        e matches DbError::Sync(m) && m@ == msg@,
{
    DbError::Sync(String::from_str(msg))
}

/// Checks `hour:minute`.
pub fn validate_time(hour: u8, minute: u8) -> (r: DbResult<()>)
    ensures
        match time_error(hour, minute) {
            None => r is Ok,
            Some(m) => r matches Err(DbError::Sync(x)) && x@ == m,
        },
{
    if hour > 23 {
        return Err(sync_error("Hour must be between 0 and 23"));
    }
    if minute > 59 {
        return Err(sync_error("Minute must be between 0 and 59"));
    }
    Ok(())
}

/// The next daily run strictly after `now` (whole seconds), or the error of
/// a date past the last one.
pub open spec fn next_daily(now: Timestamp, hour: u8, minute: u8) -> Result<int, Seq<char>> {
    let today = day_of(now.secs as int);
    let c = today * 86400 + time_of_day(hour, minute);
    if c > now.secs {
        Ok(c)
    } else if today + 1 > MAX_DAY {
        Err("Could not compute next daily schedule"@)
    } else {
        Ok((today + 1) * 86400 + time_of_day(hour, minute))
    }
}

/// The first run on weekday `d` strictly after `now`, or a date error.
pub open spec fn weekly_candidate(now: Timestamp, d: Weekday, hour: u8, minute: u8) -> Result<
    int,
    Seq<char>,
> {
    let today = day_of(now.secs as int);
    let delta = (d.index() - weekday_of_day(today) + 7) % 7;
    let date = today + delta;
    if date > MAX_DAY {
        Err("Could not compute weekly schedule date"@)
    } else if date * 86400 + time_of_day(hour, minute) <= now.secs {
        if date + 7 > MAX_DAY {
            Err("Could not compute next weekly schedule"@)
        } else {
            Ok((date + 7) * 86400 + time_of_day(hour, minute))
        }
    } else {
        Ok(date * 86400 + time_of_day(hour, minute))
    }
}

/// The earliest candidate over the given weekdays, or the first error met.
pub open spec fn weekly_earliest(now: Timestamp, days: Seq<Weekday>, hour: u8, minute: u8) -> Result<
    Option<int>,
    Seq<char>,
>
    decreases days.len(),
{
    if days.len() == 0 {
        Ok(None)
    } else {
        match weekly_earliest(now, days.drop_last(), hour, minute) {
            Err(e) => Err(e),
            Ok(best) => match weekly_candidate(now, days.last(), hour, minute) {
                Err(e) => Err(e),
                Ok(c) => Ok(
                    Some(
                        match best {
                            None => c,
                            Some(b) => if c < b {
                                c
                            } else {
                                b
                            },
                        },
                    ),
                ),
            },
        }
    }
}

/// The next weekly run strictly after `now`.
pub open spec fn next_weekly(now: Timestamp, days: Seq<Weekday>, hour: u8, minute: u8) -> Result<
    int,
    Seq<char>,
> {
    match time_error(hour, minute) {
        Some(e) => Err(e),
        None => match weekly_earliest(now, days, hour, minute) {
            Err(e) => Err(e),
            Ok(None) => Err("Weekly schedule produced no occurrences"@),
            Ok(Some(t)) => Ok(t),
        },
    }
}

/// The delay from `now` to the instant `(secs, nanos)`, or `None` when that
/// instant lies before `now`.
pub open spec fn delay_between(now: Timestamp, secs: int, nanos: int) -> Option<(int, int)> {
    let d = (secs - now.secs) * 1_000_000_000 + nanos - now.nanos;
    if d < 0 {
        None
    } else {
        Some((d / 1_000_000_000, d % 1_000_000_000))
    }
}

/// The day number and the seconds since midnight of an instant.
fn split_day(secs: i64) -> (r: (i64, i64))
    requires
        MIN_DAY * 86400 <= secs <= MAX_DAY * 86400 + 86399,
    ensures
        r.0 == day_of(secs as int),
        MIN_DAY <= r.0 <= MAX_DAY,
        r.1 == secs - r.0 * 86400,
        0 <= r.1 < 86400,
{
    let shifted: u64 = (secs - MIN_DAY * 86400) as u64;
    let q: u64 = shifted / 86400;
    let rem: u64 = shifted % 86400;
    let day: i64 = (q as i64) + MIN_DAY;
    proof {
        assert(shifted == q * 86400 + rem);
        assert(secs == day * 86400 + rem);
        assert(day_of(secs as int) == day) by {
            assert((day * 86400 + rem) / 86400 == day) by (nonlinear_arith)
                requires
                    0 <= rem < 86400,
            ;
        }
    }
    (day, rem as i64)
}

fn delay_to(now: &Timestamp, secs: i64, nanos: u32) -> (r: DbResult<Delay>)
    requires
        now.wf(),
    ensures
        match delay_between(*now, secs as int, nanos as int) {
            None => r matches Err(DbError::Sync(m))
                && m@ == "Source duration value is out of range for the target type"@,
            Some((s, n)) => r matches Ok(d) && d.secs == s && d.nanos == n,
        },
{
    let d: i128 = ((secs as i128) - (now.secs as i128)) * 1_000_000_000i128 + (nanos as i128) - (
    now.nanos as i128);
    if d < 0 {
        return Err(sync_error("Source duration value is out of range for the target type"));
    }
    let s: i128 = d / 1_000_000_000i128;
    let n: i128 = d % 1_000_000_000i128;
    Ok(Delay { secs: s as u64, nanos: n as u32 })
}

/// The wait of a cron schedule from `now`, given the next instant that the
/// schedule yields (`None` when it yields none): an error when there is no
/// such instant or it lies before `now`.
pub open spec fn cron_wait(now: Timestamp, upcoming: Option<Timestamp>) -> Result<
    (int, int),
    Seq<char>,
> {
    match upcoming {
        None => Err("Cron schedule has no future occurrences"@),
        Some(t) => match delay_between(now, t.secs as int, t.nanos as int) {
            None => Err("Source duration value is out of range for the target type"@),
            Some(d) => Ok(d),
        },
    }
}

/// `r` reports the wait `w`: the delay, or the `Sync` error with its text.
pub open spec fn reports_wait(r: DbResult<Option<Delay>>, w: Result<(int, int), Seq<char>>) -> bool {
    match w {
        Ok((s, n)) => r matches Ok(Some(d)) && d.secs == s && d.nanos == n,
        Err(m) => r matches Err(DbError::Sync(x)) && x@ == m,
    }
}

/// The wait of a cron schedule from `now` once its next instant is known
/// (see `cron_wait`).
pub fn cron_delay(now: Timestamp, upcoming: Option<Timestamp>) -> (r: DbResult<Option<Delay>>)
    requires
        now.wf(),
    ensures
        reports_wait(r, cron_wait(now, upcoming)),
{
    match upcoming {
        None => Err(sync_error("Cron schedule has no future occurrences")),
        Some(t) => {
            let d = delay_to(&now, t.secs, t.nanos)?;
            Ok(Some(d))
        },
    }
}

/// The daily run after `now`.
pub fn next_daily_occurrence(now: Timestamp, hour: u8, minute: u8) -> (r: DbResult<i64>)
    requires
        now.wf(),
    ensures
        match time_error(hour, minute) {
            Some(m) => r matches Err(DbError::Sync(x)) && x@ == m,
            None => match next_daily(now, hour, minute) {
                Ok(t) => r == Ok::<i64, DbError>(t as i64),
                Err(m) => r matches Err(DbError::Sync(x)) && x@ == m,
            },
        },
{
    validate_time(hour, minute)?;
    let (today, _) = split_day(now.secs);
    let tod: i64 = (hour as i64) * 3600 + (minute as i64) * 60;
    let c = today * 86400 + tod;
    if c > now.secs {
        Ok(c)
    } else if today + 1 > MAX_DAY {
        Err(sync_error("Could not compute next daily schedule"))
    } else {
        Ok((today + 1) * 86400 + tod)
    }
}

fn weekly_candidate_exec(now: &Timestamp, d: Weekday, hour: u8, minute: u8) -> (r: DbResult<i64>)
    requires
        now.wf(),
        hour <= 23,
        minute <= 59,
    ensures
        match weekly_candidate(*now, d, hour, minute) {
            Ok(t) => r == Ok::<i64, DbError>(t as i64),
            Err(m) => r matches Err(DbError::Sync(x)) && x@ == m,
        },
{
    let (today, _) = split_day(now.secs);
    let tod: i64 = (hour as i64) * 3600 + (minute as i64) * 60;
    let wd: i64 = (today - MIN_DAY + 2) % 7;
    proof {
        assert(weekday_of_day(today as int) == wd) by {
                        assert((today - MIN_DAY + 2) % 7 == (today + 3) % 7) by {
                assert(today + 3 == (today - MIN_DAY + 2) + (MIN_DAY + 1));
                assert((MIN_DAY + 1) % 7 == 0);
            }
        }
    }
    let target = d.num_days_from_monday() as i64;
    let delta = (target - wd + 7) % 7;
    let date = today + delta;
    if date > MAX_DAY {
        return Err(sync_error("Could not compute weekly schedule date"));
    }
    let c = date * 86400 + tod;
    if c <= now.secs {
        if date + 7 > MAX_DAY {
            return Err(sync_error("Could not compute next weekly schedule"));
        }
        Ok((date + 7) * 86400 + tod)
    } else {
        Ok(c)
    }
}

/// The weekly run after `now`: the earliest run over all the weekdays.
pub fn next_weekly_occurrence(now: Timestamp, weekdays: &[Weekday], hour: u8, minute: u8) -> (r:
    DbResult<i64>)
    requires
        now.wf(),
    ensures
        match next_weekly(now, weekdays@, hour, minute) {
            Ok(t) => r == Ok::<i64, DbError>(t as i64),
            Err(m) => r matches Err(DbError::Sync(x)) && x@ == m,
        },
{
    validate_time(hour, minute)?;
    let mut best: Option<i64> = None;
    let mut i: usize = 0;
    while i < weekdays.len()
        invariant
            0 <= i <= weekdays@.len(),
            now.wf(),
            hour <= 23,
            minute <= 59,
            weekly_earliest(now, weekdays@.take(i as int), hour, minute) == Ok::<
                Option<int>,
                Seq<char>,
            >(
                match best {
                    None => None,
                    Some(b) => Some(b as int),
                },
            ),
        decreases weekdays.len() - i,
    {
        proof {
            assert(weekdays@.take(i + 1).drop_last() =~= weekdays@.take(i as int));
        }
        let c = match weekly_candidate_exec(&now, weekdays[i], hour, minute) {
            Ok(c) => c,
            Err(e) => {
                proof {
                    lemma_earliest_error(now, weekdays@, i + 1, hour, minute);
                }
                return Err(e);
            },
        };
        best = match best {
            None => Some(c),
            Some(b) => if c < b {
                Some(c)
            } else {
                Some(b)
            },
        };
        i = i + 1;
    }
    assert(weekdays@.take(weekdays@.len() as int) =~= weekdays@);
    match best {
        Some(b) => Ok(b),
        None => Err(sync_error("Weekly schedule produced no occurrences")),
    }
}

/// A weekly candidate is the first run on its weekday after `now`.
proof fn lemma_candidate(now: Timestamp, d: Weekday, hour: u8, minute: u8)
    requires
        now.wf(),
        hour <= 23,
        minute <= 59,
        weekly_candidate(now, d, hour, minute) is Ok,
    ensures
        ({
            let c = weekly_candidate(now, d, hour, minute)->Ok_0;
            let tod = time_of_day(hour, minute);
            &&& c > now.secs
            &&& c - now.secs <= 7 * 86400
            &&& c % 86400 == tod
            &&& weekday_of_day(day_of(c)) == d.index()
            &&& forall|s: int|
                now.secs < s < c && #[trigger] (s % 86400) == tod ==> weekday_of_day(day_of(s))
                    != d.index()
        }),
{
    let c = weekly_candidate(now, d, hour, minute)->Ok_0;
    let tod = time_of_day(hour, minute);
    let today = day_of(now.secs as int);
    let delta = (d.index() - weekday_of_day(today) + 7) % 7;
    let date = today + delta;
    assert(0 <= tod < 86400);
    assert(0 <= delta < 7);
    assert(today * 86400 <= now.secs < today * 86400 + 86400);
    assert(weekday_of_day(date) == d.index()) by {
        assert((today + delta + 3) % 7 == d.index()) by (nonlinear_arith)
            requires
                delta == (d.index() - (today + 3) % 7 + 7) % 7,
                0 <= d.index() < 7,
        ;
    }
    let date_c = if date * 86400 + tod <= now.secs {
        date + 7
    } else {
        date
    };
    assert(c == date_c * 86400 + tod);
    assert(c / 86400 == date_c && c % 86400 == tod) by (nonlinear_arith)
        requires
            c == date_c * 86400 + tod,
            0 <= tod < 86400,
    ;
    assert(weekday_of_day(date_c) == d.index()) by {
        assert((date + 7 + 3) % 7 == (date + 3) % 7);
    }
    assert forall|s: int|
        now.secs < s < c && #[trigger] (s % 86400) == tod implies weekday_of_day(day_of(s))
        != d.index() by {
        let ds = s / 86400;
        assert(s == ds * 86400 + tod);
        if weekday_of_day(ds) == d.index() {
            if date * 86400 + tod <= now.secs {
                assert(date < ds < date + 7);
            } else {
                assert(today <= ds < date);
            }
            assert((ds + 3) % 7 == (date + 3) % 7);
            assert(false) by (nonlinear_arith)
                requires
                    (ds + 3) % 7 == (date + 3) % 7,
                    date - 7 < ds < date || date < ds < date + 7,
            ;
        }
    }
}

/// The earliest candidate over a list of weekdays is the first run on any
/// of them after `now`.
proof fn lemma_earliest(now: Timestamp, days: Seq<Weekday>, hour: u8, minute: u8)
    requires
        now.wf(),
        hour <= 23,
        minute <= 59,
        weekly_earliest(now, days, hour, minute) is Ok,
    ensures
        weekly_earliest(now, days, hour, minute)->Ok_0 is None <==> days.len() == 0,
        weekly_earliest(now, days, hour, minute)->Ok_0 matches Some(b) ==> {
            let tod = time_of_day(hour, minute);
            &&& b > now.secs
            &&& b - now.secs <= 7 * 86400
            &&& b % 86400 == tod
            &&& exists|i: int| 0 <= i < days.len() && #[trigger] days[i].index() == weekday_of_day(day_of(b))
            &&& forall|s: int, i: int|
                now.secs < s < b && #[trigger] (s % 86400) == tod && 0 <= i < days.len()
                    ==> weekday_of_day(day_of(s)) != #[trigger] days[i].index()
        },
    decreases days.len(),
{
    if days.len() > 0 {
        let init = days.drop_last();
        let tod = time_of_day(hour, minute);
        lemma_earliest(now, init, hour, minute);
        lemma_candidate(now, days.last(), hour, minute);
        let c = weekly_candidate(now, days.last(), hour, minute)->Ok_0;
        let b = weekly_earliest(now, days, hour, minute)->Ok_0->Some_0;
        match weekly_earliest(now, init, hour, minute)->Ok_0 {
            None => {
                assert(b == c);
                assert(days[days.len() - 1].index() == weekday_of_day(day_of(b)));
                assert forall|s: int, i: int|
                    now.secs < s < b && #[trigger] (s % 86400) == tod && 0 <= i < days.len()
                        implies weekday_of_day(day_of(s)) != #[trigger] days[i].index() by {
                    assert(i == days.len() - 1);
                }
            },
            Some(p) => {
                if c < p {
                    assert(days[days.len() - 1].index() == weekday_of_day(day_of(b)));
                } else {
                    let i = choose|i: int|
                        0 <= i < init.len() && #[trigger] init[i].index() == weekday_of_day(
                            day_of(p),
                        );
                    assert(days[i] == init[i]);
                }
                assert forall|s: int, i: int|
                    now.secs < s < b && #[trigger] (s % 86400) == tod && 0 <= i < days.len()
                        implies weekday_of_day(day_of(s)) != #[trigger] days[i].index() by {
                    if i < days.len() - 1 {
                        assert(days[i] == init[i]);
                        assert(weekday_of_day(day_of(s)) != init[i].index());
                    }
                }
            },
        }
    }
}

/// An error met on a prefix of the weekdays is the error of the whole list.
proof fn lemma_earliest_error(now: Timestamp, days: Seq<Weekday>, k: int, hour: u8, minute: u8)
    requires
        0 <= k <= days.len(),
        weekly_earliest(now, days.take(k), hour, minute) is Err,
    ensures
        weekly_earliest(now, days, hour, minute) == weekly_earliest(now, days.take(k), hour, minute),
    decreases days.len() - k,
{
    if k < days.len() {
        assert(days.take(k + 1).drop_last() =~= days.take(k));
        lemma_earliest_error(now, days, k + 1, hour, minute);
    } else {
        assert(days.take(k) =~= days);
    }
}

impl SyncSchedule {
    pub fn interval(seconds: u64) -> (r: Self)
        ensures
            r == (SyncSchedule::Interval { seconds }),
    {
        SyncSchedule::Interval { seconds }
    }

    pub fn daily_at(hour: u8, minute: u8) -> (r: Self)
        ensures
            r == (SyncSchedule::DailyAt { hour, minute }),
    {
        SyncSchedule::DailyAt { hour, minute }
    }

    pub fn weekly(weekdays: Vec<Weekday>, hour: u8, minute: u8) -> (r: Self)
        ensures
            r == (SyncSchedule::Weekly { weekdays, hour, minute }),
    {
        SyncSchedule::Weekly { weekdays, hour, minute }
    }

    pub fn cron(expression: String) -> (r: Self)
        ensures
            r == (SyncSchedule::Cron { expression }),
    {
        SyncSchedule::Cron { expression }
    }

    /// Checks that the schedule can run.
    pub fn validate(&self) -> (r: DbResult<()>)
        ensures
            match schedule_error(*self) {
                None => r is Ok,
                Some(m) => r matches Err(DbError::Sync(x)) && x@ == m,
            },
    {
        match self {
            SyncSchedule::Manual => Ok(()),
            SyncSchedule::Interval { seconds } => {
                if *seconds == 0 {
                    Err(sync_error("Interval must be greater than 0 seconds"))
                } else {
                    Ok(())
                }
            },
            SyncSchedule::DailyAt { hour, minute } => validate_time(*hour, *minute),
            SyncSchedule::Weekly { weekdays, hour, minute } => {
                if weekdays.len() == 0 {
                    return Err(sync_error("Weekly schedule requires at least one weekday"));
                }
                validate_time(*hour, *minute)
            },
            SyncSchedule::Cron { expression } => match parse_cron(expression.as_str()) {
                Ok(_) => Ok(()),
                Err(m) => {
                    let mut out: Vec<char> = Vec::new();
                    push_str(&mut out, "Invalid cron expression: ");
                    push_str(&mut out, m.as_str());
                    Err(DbError::Sync(string_from_chars(out.as_slice())))
                },
            },
        }
    }

    /// How long to wait from `now` until the next run: nothing for a manual
    /// schedule, the interval itself, or the time until the next daily,
    /// weekly or cron instant.
    pub fn next_duration(&self, now: Timestamp) -> (r: DbResult<Option<Delay>>)
        requires
            now.wf(),
        ensures
            schedule_error(*self) matches Some(m) ==> (r matches Err(DbError::Sync(x)) && x@
                == m),
            schedule_error(*self) is None ==> match *self {
                SyncSchedule::Manual => r matches Ok(None),
                SyncSchedule::Interval { seconds } => r matches Ok(Some(d)) && d.secs == seconds
                    && d.nanos == 0,
                SyncSchedule::DailyAt { hour, minute } => match next_daily(now, hour, minute) {
                    Ok(t) => r matches Ok(Some(d)) && Some((d.secs as int, d.nanos as int))
                        == delay_between(now, t, 0),
                    Err(m) => r matches Err(DbError::Sync(x)) && x@ == m,
                },
                SyncSchedule::Weekly { weekdays, hour, minute } => match next_weekly(
                    now,
                    weekdays@,
                    hour,
                    minute,
                ) {
                    Ok(t) => r matches Ok(Some(d)) && Some((d.secs as int, d.nanos as int))
                        == delay_between(now, t, 0),
                    Err(m) => r matches Err(DbError::Sync(x)) && x@ == m,
                },
                SyncSchedule::Cron { .. } => exists|u: Option<Timestamp>|
                    #[trigger] reports_wait(r, cron_wait(now, u)),
            },
    {
        self.validate()?;
        match self {
            SyncSchedule::Manual => Ok(None),
            SyncSchedule::Interval { seconds } => Ok(Some(Delay { secs: *seconds, nanos: 0 })),
            SyncSchedule::DailyAt { hour, minute } => {
                let next = next_daily_occurrence(now, *hour, *minute)?;
                proof {
                    assert(next > now.secs);
                }
                let d = delay_to(&now, next, 0)?;
                Ok(Some(d))
            },
            SyncSchedule::Weekly { weekdays, hour, minute } => {
                let next = next_weekly_occurrence(now, weekdays.as_slice(), *hour, *minute)?;
                proof {
                    lemma_earliest(now, weekdays@, *hour, *minute);
                }
                let d = delay_to(&now, next, 0)?;
                Ok(Some(d))
            },
            SyncSchedule::Cron { expression } => {
                let schedule = match parse_cron(expression.as_str()) {
                    Ok(s) => s,
                    Err(m) => {
                        return Err(DbError::Sync(m));
                    },
                };
                let upcoming = cron_upcoming(&schedule);
                let r = cron_delay(now, upcoming);
                assert(reports_wait(r, cron_wait(now, upcoming)));
                r
            },
        }
    }
}

/// The daily run is the first instant after `now` at `hour:minute` UTC: it
/// lies within the next day, and no instant in between is at that time of day.
pub proof fn law_next_daily_is_first(now: Timestamp, hour: u8, minute: u8)
    requires
        now.wf(),
        time_error(hour, minute) is None,
        next_daily(now, hour, minute) is Ok,
    ensures
        ({
            let t = next_daily(now, hour, minute)->Ok_0;
            let tod = time_of_day(hour, minute);
            &&& now.secs < t <= now.secs + 86400
            &&& t % 86400 == tod
            &&& forall|s: int| now.secs < s < t ==> #[trigger] (s % 86400) != tod
        }),
{
    let t = next_daily(now, hour, minute)->Ok_0;
    let tod = time_of_day(hour, minute);
    let today = day_of(now.secs as int);
    assert(0 <= tod < 86400);
    assert(today * 86400 <= now.secs < today * 86400 + 86400);
    let dt = if today * 86400 + tod > now.secs {
        today
    } else {
        today + 1
    };
    assert(t == dt * 86400 + tod);
    assert(t % 86400 == tod) by (nonlinear_arith)
        requires
            t == dt * 86400 + tod,
            0 <= tod < 86400,
    ;
    assert forall|s: int| now.secs < s < t implies #[trigger] (s % 86400) != tod by {
        if s % 86400 == tod {
            let ds = s / 86400;
            assert(s == ds * 86400 + tod);
            if dt == today {
                assert(ds < today && ds >= today);
            } else {
                assert(ds > today && ds < today + 1);
            }
        }
    }
}

/// The weekly run is the first instant after `now` at `hour:minute` UTC on
/// one of the listed weekdays: it lies within the next seven days, and no
/// instant in between is at that time of day on a listed weekday.
pub proof fn law_next_weekly_is_first(now: Timestamp, days: Seq<Weekday>, hour: u8, minute: u8)
    requires
        now.wf(),
        next_weekly(now, days, hour, minute) is Ok,
    ensures
        ({
            let t = next_weekly(now, days, hour, minute)->Ok_0;
            let tod = time_of_day(hour, minute);
            &&& now.secs < t <= now.secs + 7 * 86400
            &&& t % 86400 == tod
            &&& exists|i: int| 0 <= i < days.len() && #[trigger] days[i].index() == weekday_of_day(day_of(t))
            &&& forall|s: int, i: int|
                now.secs < s < t && #[trigger] (s % 86400) == tod && 0 <= i < days.len()
                    ==> weekday_of_day(day_of(s)) != #[trigger] days[i].index()
        }),
{
    lemma_earliest(now, days, hour, minute);
}

/// The sync configuration: where to read, when, and what.
#[derive(Debug)]
pub struct SyncConfig {
    pub postgres_url: String,
    pub schedule: SyncSchedule,
    pub mappings: Vec<SyncMapping>,
    pub max_retries: u32,
    pub retry_backoff_secs: u64,
}

impl SyncConfig {
    /// No URL, every 30 seconds, no mappings, 3 retries 5 seconds apart.
    pub fn default() -> (r: Self)
        ensures
            r.postgres_url@ == Seq::<char>::empty(),
            r.schedule == (SyncSchedule::Interval { seconds: 30 }),
            r.mappings@.len() == 0,
            r.max_retries == 3,
            r.retry_backoff_secs == 5,
    {
        SyncConfig {
            postgres_url: String::new(),
            schedule: SyncSchedule::Interval { seconds: 30 },
            mappings: Vec::new(),
            max_retries: 3,
            retry_backoff_secs: 5,
        }
    }

    /// The default configuration reading from `postgres_url`.
    pub fn new(postgres_url: String) -> (r: Self)
        ensures
            r.postgres_url == postgres_url,
            r.schedule == (SyncSchedule::Interval { seconds: 30 }),
            r.mappings@.len() == 0,
            r.max_retries == 3,
            r.retry_backoff_secs == 5,
    {
        let mut c = Self::default();
        c.postgres_url = postgres_url;
        c
    }

    pub fn manual(self) -> (r: Self)
        ensures
            r.schedule == SyncSchedule::Manual,
            r.postgres_url == self.postgres_url && r.mappings == self.mappings
                && r.max_retries == self.max_retries && r.retry_backoff_secs
                == self.retry_backoff_secs,
    {
        let mut c = self;
        c.schedule = SyncSchedule::Manual;
        c
    }

    pub fn with_interval(self, secs: u64) -> (r: Self)
        ensures
            r.schedule == (SyncSchedule::Interval { seconds: secs }),
            r.postgres_url == self.postgres_url && r.mappings == self.mappings
                && r.max_retries == self.max_retries && r.retry_backoff_secs
                == self.retry_backoff_secs,
    {
        let mut c = self;
        c.schedule = SyncSchedule::interval(secs);
        c
    }

    pub fn with_daily_schedule(self, hour: u8, minute: u8) -> (r: Self)
        ensures
            r.schedule == (SyncSchedule::DailyAt { hour, minute }),
            r.postgres_url == self.postgres_url && r.mappings == self.mappings
                && r.max_retries == self.max_retries && r.retry_backoff_secs
                == self.retry_backoff_secs,
    {
        let mut c = self;
        c.schedule = SyncSchedule::daily_at(hour, minute);
        c
    }

    pub fn with_weekly_schedule(self, weekdays: Vec<Weekday>, hour: u8, minute: u8) -> (r: Self)
        ensures
            r.schedule == (SyncSchedule::Weekly { weekdays, hour, minute }),
            r.postgres_url == self.postgres_url && r.mappings == self.mappings
                && r.max_retries == self.max_retries && r.retry_backoff_secs
                == self.retry_backoff_secs,
    {
        let mut c = self;
        c.schedule = SyncSchedule::weekly(weekdays, hour, minute);
        c
    }

    pub fn with_cron_schedule(self, expression: String) -> (r: Self)
        ensures
            r.schedule == (SyncSchedule::Cron { expression }),
            r.postgres_url == self.postgres_url && r.mappings == self.mappings
                && r.max_retries == self.max_retries && r.retry_backoff_secs
                == self.retry_backoff_secs,
    {
        let mut c = self;
        c.schedule = SyncSchedule::cron(expression);
        c
    }

    pub fn add_mapping(self, mapping: SyncMapping) -> (r: Self)
        ensures
            r.mappings@ == self.mappings@.push(mapping),
            r.schedule == self.schedule,
            r.postgres_url == self.postgres_url && r.max_retries == self.max_retries
                && r.retry_backoff_secs == self.retry_backoff_secs,
    {
        let mut c = self;
        c.mappings.push(mapping);
        c
    }
}


/// How the fetched rows of one mapping are written to the local table.
#[derive(Debug, Clone, Copy, PartialEq, Eq, Structural)]
pub struct SyncWritePlan {
    /// Empty the local table before writing.
    pub clear_table_first: bool,
    /// Write with `REPLACE INTO` (rows with the same key are replaced)
    /// rather than a plain insert.
    pub replace_rows: bool,
}

/// The write plan of a strategy: `Replace` empties the table then inserts,
/// `Append` inserts, `Upsert` replaces rows with the same key.
pub fn sync_write_plan(strategy: SyncStrategy) -> (r: SyncWritePlan)
    ensures
        r.clear_table_first == (strategy == SyncStrategy::Replace),
        r.replace_rows == (strategy == SyncStrategy::Upsert),
{
    match strategy {
        SyncStrategy::Replace => SyncWritePlan { clear_table_first: true, replace_rows: false },
        SyncStrategy::Append => SyncWritePlan { clear_table_first: false, replace_rows: false },
        SyncStrategy::Upsert => SyncWritePlan { clear_table_first: false, replace_rows: true },
    }
}

} // verus!
