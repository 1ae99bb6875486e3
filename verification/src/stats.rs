//! Basic statistics. The committed batch range is pinned and result sizes are capped.
//! This module chooses the time bucket, checks the request and builds the statements;
//! the caller runs them.

use vstd::prelude::*;

use crate::error::EngineError;
use crate::query::{LogFilter, SqlParts};
use crate::text::{chars_to_string, decimal, push_decimal, push_signed_decimal, push_str, signed_decimal};

verus! {

/// Largest top N.
pub const MAX_TOP_N: u32 = 100;
/// Most time buckets.
pub const MAX_BUCKETS: i64 = 2000;
/// Number of buckets the automatic bucket aims at.
pub const TARGET_BUCKETS: i64 = 400;

/// Time bucket.
#[derive(Debug, Clone, Copy, PartialEq, Eq, Default)]
pub enum TimeBucket {
    /// Chosen from the time range.
    #[default]
    Auto,
    /// One minute.
    Minute,
    /// One hour.
    Hour,
    /// One day.
    Day,
}

/// A statistics request.
#[derive(Debug, Clone, PartialEq, Eq)]
pub struct StatsRequest {
    /// Conditions.
    pub filter: LogFilter,
    /// Top N (IPs, targets).
    pub top_n: u32,
    /// Time bucket.
    pub bucket: TimeBucket,
    /// Display offset (seconds) that bucket edges follow: a day bucket starts at that
    /// zone's midnight. Within ±18 hours.
    pub tz_offset_seconds: i32,
}

/// The top N of a request that does not name one.
pub fn default_top_n() -> (r: u32)
    ensures
        r == 20,
{
    20
}

/// The statistics result; only committed batches up to `max_batch_id` count.
#[derive(Debug, Clone, PartialEq)]
pub struct StatsResult {
    /// The pinned committed batch bound.
    pub max_batch_id: i64,
    /// Rows matching the conditions.
    pub total: i64,
    /// Rows without time (absent from the timeline).
    pub null_time_rows: i64,
    /// Counts by status code.
    pub status: Vec<(Option<i32>, i64)>,
    /// Counts by method.
    pub methods: Vec<(Option<String>, i64)>,
    /// Error log counts by level (most first); empty for access logs.
    pub levels: Vec<(Option<String>, i64)>,
    /// Top error messages (most first, top N); empty for access logs.
    pub top_messages: Vec<(String, i64)>,
    /// Top client IPs.
    pub top_ips: Vec<(String, i64)>,
    /// First and last time and count of the top client IPs (count descending, top N).
    pub ip_rows: Vec<IpRow>,
    /// Top request targets.
    pub top_targets: Vec<(String, i64)>,
    /// Timeline: (bucket start in UTC microseconds, count); only the first buckets past the cap.
    pub timeline: Vec<(i64, i64)>,
    /// Bucket size used (seconds).
    pub bucket_seconds: i64,
    /// Whether the timeline was cut at the bucket cap.
    pub timeline_truncated: bool,
    /// Earliest and latest time in the conditions (microseconds).
    pub time_range: Option<(i64, i64)>,
}

/// Activity of one IP.
#[derive(Debug, Clone, PartialEq, Eq)]
pub struct IpRow {
    /// Client IP.
    pub ip: String,
    /// First seen (UTC microseconds); `None` when only rows without time exist.
    pub first_seen: Option<i64>,
    /// Last seen (UTC microseconds).
    pub last_seen: Option<i64>,
    /// Accesses.
    pub count: i64,
}

/// Rust's integer division (toward zero).
pub open spec fn trunc_div(x: int, d: int) -> int {
    if x >= 0 { x / d } else { -((-x) / d) }
}

/// The range in whole seconds, at least one.
pub open spec fn range_seconds(range_micros: i64) -> int {
    let s = trunc_div(range_micros as int, 1_000_000);
    if s < 1 { 1 } else { s }
}

/// The automatic bucket: the first of 1 minute, 5 minutes, 15 minutes, 1 hour, 6 hours,
/// 1 day, 7 days, 30 days, 365 days that gives at most 400 buckets over the range, else
/// 365 days.
pub open spec fn auto_bucket(range_micros: i64) -> i64 {
    let s = range_seconds(range_micros);
    if s / 60 <= TARGET_BUCKETS {
        60
    } else if s / 300 <= TARGET_BUCKETS {
        300
    } else if s / 900 <= TARGET_BUCKETS {
        900
    } else if s / 3600 <= TARGET_BUCKETS {
        3600
    } else if s / 21_600 <= TARGET_BUCKETS {
        21_600
    } else if s / 86_400 <= TARGET_BUCKETS {
        86_400
    } else if s / 604_800 <= TARGET_BUCKETS {
        604_800
    } else if s / 2_592_000 <= TARGET_BUCKETS {
        2_592_000
    } else {
        31_536_000
    }
}

/// Chooses the automatic bucket size (seconds) for a time range (microseconds).
pub fn choose_bucket(range_micros: i64) -> (r: i64)
    ensures
        r == auto_bucket(range_micros),
{
    let q: i64 = range_micros / 1_000_000;
    let s: i64 = if q < 1 { 1 } else { q };
    let candidates: [i64; 9] = [60, 300, 900, 3600, 21_600, 86_400, 604_800, 2_592_000, 31_536_000];
    let mut i: usize = 0;
    while i < 9
        invariant
            i <= 9,
            s as int == range_seconds(range_micros),
            candidates@ == seq![60i64, 300, 900, 3600, 21_600, 86_400, 604_800, 2_592_000, 31_536_000],
            forall|j: int| 0 <= j < i ==> s / (#[trigger] candidates@[j]) > TARGET_BUCKETS,
        decreases 9 - i,
    {
        let c = candidates[i];
        if s / c <= TARGET_BUCKETS {
            assert(candidates@[0] == 60 && candidates@[1] == 300 && candidates@[2] == 900 && candidates@[3] == 3600);
            assert(candidates@[4] == 21_600 && candidates@[5] == 86_400 && candidates@[6] == 604_800);
            assert(candidates@[7] == 2_592_000 && candidates@[8] == 31_536_000);
            return c;
        }
        i = i + 1;
    }
    assert(s / candidates@[8] > TARGET_BUCKETS);
    31_536_000
}

/// A longer range never gets a smaller automatic bucket.
pub proof fn lemma_auto_bucket_monotone(a: i64, b: i64)
    requires
        a <= b,
    ensures
        auto_bucket(a) <= auto_bucket(b),
{
    let sa = range_seconds(a);
    let sb = range_seconds(b);
    assert(sa <= sb) by {
        if a >= 0 {
            vstd::arithmetic::div_mod::lemma_div_is_ordered(a as int, b as int, 1_000_000);
        } else if b < 0 {
            vstd::arithmetic::div_mod::lemma_div_is_ordered(-(b as int), -(a as int), 1_000_000);
        } else {
            vstd::arithmetic::div_mod::lemma_div_pos_is_pos(b as int, 1_000_000);
        }
    }
    assert forall|c: int| c > 0 && #[trigger] (sb / c) <= TARGET_BUCKETS implies sa / c <= TARGET_BUCKETS by {
        vstd::arithmetic::div_mod::lemma_div_is_ordered(sa, sb, c);
    }
    assert(sb / 60 <= TARGET_BUCKETS ==> sa / 60 <= TARGET_BUCKETS);
    assert(sb / 300 <= TARGET_BUCKETS ==> sa / 300 <= TARGET_BUCKETS);
    assert(sb / 900 <= TARGET_BUCKETS ==> sa / 900 <= TARGET_BUCKETS);
    assert(sb / 3600 <= TARGET_BUCKETS ==> sa / 3600 <= TARGET_BUCKETS);
    assert(sb / 21_600 <= TARGET_BUCKETS ==> sa / 21_600 <= TARGET_BUCKETS);
    assert(sb / 86_400 <= TARGET_BUCKETS ==> sa / 86_400 <= TARGET_BUCKETS);
    assert(sb / 604_800 <= TARGET_BUCKETS ==> sa / 604_800 <= TARGET_BUCKETS);
    assert(sb / 2_592_000 <= TARGET_BUCKETS ==> sa / 2_592_000 <= TARGET_BUCKETS);
}

/// The bucket size (seconds) of a request: fixed sizes as named, the automatic one from
/// the time range, one hour without a range.
pub open spec fn bucket_seconds_of(bucket: TimeBucket, time_range: Option<(i64, i64)>) -> i64 {
    match bucket {
        TimeBucket::Minute => 60,
        TimeBucket::Hour => 3600,
        TimeBucket::Day => 86_400,
        TimeBucket::Auto => match time_range {
            Some((a, b)) => auto_bucket((b - a) as i64),
            None => 3600,
        },
    }
}

/// The bucket size of a request. For the automatic bucket the range must not overflow when
/// its ends are subtracted.
pub fn bucket_seconds(bucket: TimeBucket, time_range: Option<(i64, i64)>) -> (r: i64)
    requires
        bucket is Auto ==> (time_range matches Some((a, b)) ==> i64::MIN <= b - a <= i64::MAX),
    ensures
        r == bucket_seconds_of(bucket, time_range),
{
    match bucket {
        TimeBucket::Minute => 60,
        TimeBucket::Hour => 3600,
        TimeBucket::Day => 86_400,
        TimeBucket::Auto => match time_range {
            Some((a, b)) => choose_bucket(b - a),
            None => 3600,
        },
    }
}

/// The time range from the earliest and latest time, when both exist.
pub fn time_range_of(min_ts: Option<i64>, max_ts: Option<i64>) -> (r: Option<(i64, i64)>)
    ensures
        r == match (min_ts, max_ts) {
            (Some(a), Some(b)) => Some((a, b)),
            _ => None::<(i64, i64)>,
        },
{
    match (min_ts, max_ts) {
        (Some(a), Some(b)) => Some((a, b)),
        _ => None,
    }
}

/// The automatic bucket of a range whose length does not fit an `i64`.
pub open spec fn range_too_wide(bucket: TimeBucket, time_range: Option<(i64, i64)>) -> bool {
    &&& bucket is Auto
    &&& time_range matches Some((a, b)) && !(i64::MIN <= b - a <= i64::MAX)
}

/// The bucket size of a request, or why there is none: the automatic bucket of a range
/// whose length does not fit an `i64` (too wide to subtract its ends).
pub fn request_bucket(bucket: TimeBucket, time_range: Option<(i64, i64)>) -> (r: Result<i64, EngineError>)
    ensures
        range_too_wide(bucket, time_range) ==> (r matches Err(EngineError::Query(x)) && x@ == "시간 범위가 너무 넓음"@),
        !range_too_wide(bucket, time_range) ==> r == Ok::<i64, EngineError>(bucket_seconds_of(bucket, time_range)),
{
    if let TimeBucket::Auto = bucket {
        if let Some((a, b)) = time_range {
            let wide = (b as i128) - (a as i128);
            if wide > i64::MAX as i128 || wide < i64::MIN as i128 {
                return Err(EngineError::Query("시간 범위가 너무 넓음".to_owned()));
            }
        }
    }
    Ok(bucket_seconds(bucket, time_range))
}

/// Checks the top N of a request.
pub fn check_top_n(top_n: u32) -> (r: Result<(), EngineError>)
    ensures
        (1 <= top_n <= MAX_TOP_N) ==> r is Ok,
        !(1 <= top_n <= MAX_TOP_N) ==> (r matches Err(EngineError::Query(x)) && x@ == "top_n은 1~100 사이여야 함"@),
{
    if top_n == 0 || top_n > MAX_TOP_N {
        return Err(EngineError::Query("top_n은 1~100 사이여야 함".to_owned()));
    }
    Ok(())
}

/// Checks the display offset of a timeline (within ±18 hours).
pub fn check_tz_offset(off: i32) -> (r: Result<(), EngineError>)
    ensures
        (-64_800 <= off <= 64_800) ==> r is Ok,
        !(-64_800 <= off <= 64_800) ==> (r matches Err(EngineError::Query(x)) && x@ == "tz_offset_seconds는 ±18시간 이내"@),
{
    if !(-64_800 <= off && off <= 64_800) {
        return Err(EngineError::Query("tz_offset_seconds는 ±18시간 이내".to_owned()));
    }
    Ok(())
}

/// The condition of every statistics statement: the filter, pinned to the committed
/// batch bound (one more parameter, the bound, follows the filter's).
pub fn pinned_where(base: &SqlParts) -> (r: String)
    ensures
        r@ == base.where_sql@ + " AND batch_id <= ?"@,
{
    let mut v: Vec<char> = Vec::new();
    push_str(&mut v, base.where_sql.as_str());
    push_str(&mut v, " AND batch_id <= ?");
    chars_to_string(&v)
}

/// The timeline statement: rows with time counted per bucket of `bucket_seconds`, the
/// edges shifted by the display offset, at most one more bucket than the cap.
pub open spec fn timeline_text(where_sql: Seq<char>, bucket_seconds: i64, off: i32) -> Seq<char> {
    "SELECT epoch_us(time_bucket(INTERVAL '"@ + signed_decimal(bucket_seconds as int) + " seconds', timestamp_utc + INTERVAL '"@
        + signed_decimal(off as int) + " seconds') - INTERVAL '"@ + signed_decimal(off as int)
        + " seconds') AS b, COUNT(*) FROM logs WHERE "@ + where_sql
        + " AND timestamp_utc IS NOT NULL GROUP BY b ORDER BY b LIMIT "@ + decimal((MAX_BUCKETS + 1) as nat)
}

/// Builds the timeline statement. Only the bucket size and a checked offset, both
/// integers, are written into the text.
pub fn timeline_sql(where_sql: &str, bucket_seconds: i64, off: i32) -> (r: String)
    ensures
        r@ == timeline_text(where_sql@, bucket_seconds, off),
{
    let mut v: Vec<char> = Vec::new();
    push_str(&mut v, "SELECT epoch_us(time_bucket(INTERVAL '");
    push_signed_decimal(&mut v, bucket_seconds);
    push_str(&mut v, " seconds', timestamp_utc + INTERVAL '");
    push_signed_decimal(&mut v, off as i64);
    push_str(&mut v, " seconds') - INTERVAL '");
    push_signed_decimal(&mut v, off as i64);
    push_str(&mut v, " seconds') AS b, COUNT(*) FROM logs WHERE ");
    push_str(&mut v, where_sql);
    push_str(&mut v, " AND timestamp_utc IS NOT NULL GROUP BY b ORDER BY b LIMIT ");
    push_decimal(&mut v, (MAX_BUCKETS + 1) as u64);
    chars_to_string(&v)
}

/// Cuts a timeline at the bucket cap; the flag tells whether it was cut.
pub fn cap_timeline(timeline: Vec<(i64, i64)>) -> (r: (Vec<(i64, i64)>, bool))
    ensures
        timeline@.len() > MAX_BUCKETS ==> r.0@ == timeline@.subrange(0, MAX_BUCKETS as int) && r.1,
        timeline@.len() <= MAX_BUCKETS ==> r.0@ == timeline@ && !r.1,
{
    let mut t = timeline;
    if t.len() > MAX_BUCKETS as usize {
        t.truncate(MAX_BUCKETS as usize);
        (t, true)
    } else {
        (t, false)
    }
}

/// An aggregate statement of the statistics.
#[derive(Debug, Clone, Copy, PartialEq, Eq, Structural)]
pub enum StatQuery {
    /// The row count, the rows without a time, and the earliest and latest time.
    Totals,
    /// Rows per status code.
    Status,
    /// Rows per method, most first.
    Methods,
    /// The most requested targets.
    Targets,
    /// Rows per error level, most first.
    Levels,
    /// The most frequent error messages.
    Messages,
    /// The most frequent client addresses.
    TopIps,
    /// The most frequent client addresses with their first and last time.
    IpRows,
}

/// The text before the filter clause.
pub open spec fn stat_prefix(q: StatQuery) -> Seq<char> {
    match q {
        StatQuery::Totals => "SELECT COUNT(*), COUNT(*) FILTER (WHERE timestamp_utc IS NULL), epoch_us(MIN(timestamp_utc)), epoch_us(MAX(timestamp_utc)) FROM logs WHERE "@,
        StatQuery::Status => "SELECT status, COUNT(*) FROM logs WHERE "@,
        StatQuery::Methods => "SELECT method, COUNT(*) AS n FROM logs WHERE "@,
        StatQuery::Targets => "SELECT request_target, COUNT(*) AS n FROM logs WHERE "@,
        StatQuery::Levels => "SELECT json_extract_string(extra_json, '$.level') AS lvl, COUNT(*) AS n FROM logs WHERE "@,
        StatQuery::Messages => "SELECT json_extract_string(extra_json, '$.message') AS msg, COUNT(*) AS n FROM logs WHERE "@,
        StatQuery::TopIps => "SELECT client_ip, COUNT(*) AS n FROM logs WHERE "@,
        StatQuery::IpRows => "SELECT client_ip, epoch_us(MIN(timestamp_utc)), epoch_us(MAX(timestamp_utc)), COUNT(*) AS n FROM logs WHERE "@,
    }
}

/// The text after the filter clause.
pub open spec fn stat_suffix(q: StatQuery) -> Seq<char> {
    match q {
        StatQuery::Totals => ""@,
        StatQuery::Status => " GROUP BY status ORDER BY status"@,
        StatQuery::Methods => " GROUP BY method ORDER BY n DESC LIMIT 50"@,
        StatQuery::Targets => " AND request_target IS NOT NULL GROUP BY request_target ORDER BY n DESC, request_target LIMIT ?"@,
        StatQuery::Levels => " GROUP BY lvl ORDER BY n DESC, lvl LIMIT 50"@,
        StatQuery::Messages => " AND json_extract_string(extra_json, '$.message') IS NOT NULL GROUP BY msg ORDER BY n DESC, msg LIMIT ?"@,
        StatQuery::TopIps => " AND client_ip IS NOT NULL GROUP BY client_ip ORDER BY n DESC, client_ip LIMIT ?"@,
        StatQuery::IpRows => " AND client_ip IS NOT NULL GROUP BY client_ip ORDER BY n DESC, client_ip LIMIT ?"@,
    }
}

/// Whether the statement ends with the `top_n` limit parameter.
pub open spec fn stat_takes_top_n(q: StatQuery) -> bool {
    match q {
        StatQuery::Totals => false,
        StatQuery::Status => false,
        StatQuery::Methods => false,
        StatQuery::Targets => true,
        StatQuery::Levels => false,
        StatQuery::Messages => true,
        StatQuery::TopIps => true,
        StatQuery::IpRows => true,
    }
}

/// The statements of a request: every request counts rows and ranks client addresses;
/// an access log also counts status codes and methods and ranks targets, an error log
/// counts levels and ranks messages instead.
pub open spec fn stat_plan(error_log: bool) -> Seq<StatQuery> {
    if error_log {
        seq![StatQuery::Totals, StatQuery::Levels, StatQuery::Messages, StatQuery::TopIps, StatQuery::IpRows]
    } else {
        seq![StatQuery::Totals, StatQuery::Status, StatQuery::Methods, StatQuery::Targets, StatQuery::TopIps, StatQuery::IpRows]
    }
}

/// The statements to run for a request.
pub fn stat_queries(error_log: bool) -> (r: Vec<StatQuery>)
    ensures
        r@ == stat_plan(error_log),
{
    let mut v: Vec<StatQuery> = Vec::new();
    v.push(StatQuery::Totals);
    if error_log {
        v.push(StatQuery::Levels);
        v.push(StatQuery::Messages);
    } else {
        v.push(StatQuery::Status);
        v.push(StatQuery::Methods);
        v.push(StatQuery::Targets);
    }
    v.push(StatQuery::TopIps);
    v.push(StatQuery::IpRows);
    assert(v@ =~= stat_plan(error_log));
    v
}

/// Whether a statement takes the `top_n` limit after the filter's parameters and the
/// batch bound.
pub fn takes_top_n(q: StatQuery) -> (r: bool)
    ensures
        r == stat_takes_top_n(q),
{
    match q {
        StatQuery::Totals => false,
        StatQuery::Status => false,
        StatQuery::Methods => false,
        StatQuery::Targets => true,
        StatQuery::Levels => false,
        StatQuery::Messages => true,
        StatQuery::TopIps => true,
        StatQuery::IpRows => true,
    }
}

/// The text of a statement over the pinned filter clause `where_sql`.
pub fn stat_sql(q: StatQuery, where_sql: &str) -> (r: String)
    ensures
        r@ == stat_prefix(q) + where_sql@ + stat_suffix(q),
{
    let (pre, suf): (&str, &str) = match q {
        StatQuery::Totals => ("SELECT COUNT(*), COUNT(*) FILTER (WHERE timestamp_utc IS NULL), epoch_us(MIN(timestamp_utc)), epoch_us(MAX(timestamp_utc)) FROM logs WHERE ", ""),
        StatQuery::Status => ("SELECT status, COUNT(*) FROM logs WHERE ", " GROUP BY status ORDER BY status"),
        StatQuery::Methods => ("SELECT method, COUNT(*) AS n FROM logs WHERE ", " GROUP BY method ORDER BY n DESC LIMIT 50"),
        StatQuery::Targets => ("SELECT request_target, COUNT(*) AS n FROM logs WHERE ", " AND request_target IS NOT NULL GROUP BY request_target ORDER BY n DESC, request_target LIMIT ?"),
        StatQuery::Levels => ("SELECT json_extract_string(extra_json, '$.level') AS lvl, COUNT(*) AS n FROM logs WHERE ", " GROUP BY lvl ORDER BY n DESC, lvl LIMIT 50"),
        StatQuery::Messages => ("SELECT json_extract_string(extra_json, '$.message') AS msg, COUNT(*) AS n FROM logs WHERE ", " AND json_extract_string(extra_json, '$.message') IS NOT NULL GROUP BY msg ORDER BY n DESC, msg LIMIT ?"),
        StatQuery::TopIps => ("SELECT client_ip, COUNT(*) AS n FROM logs WHERE ", " AND client_ip IS NOT NULL GROUP BY client_ip ORDER BY n DESC, client_ip LIMIT ?"),
        StatQuery::IpRows => ("SELECT client_ip, epoch_us(MIN(timestamp_utc)), epoch_us(MAX(timestamp_utc)), COUNT(*) AS n FROM logs WHERE ", " AND client_ip IS NOT NULL GROUP BY client_ip ORDER BY n DESC, client_ip LIMIT ?"),
    };
    let mut v: Vec<char> = Vec::new();
    push_str(&mut v, pre);
    push_str(&mut v, where_sql);
    push_str(&mut v, suf);
    chars_to_string(&v)
}

/// `t` occurs in `s` at position `i`.
pub open spec fn occurs_at(s: Seq<char>, t: Seq<char>, i: int) -> bool {
    0 <= i && i + t.len() <= s.len() && s.subrange(i, i + t.len()) == t
}

/// A statement of `q` ranks its groups: it counts each group as `n`, orders the groups by
/// that count, largest first, and only then limits them.
pub open spec fn ranks_by_count(q: StatQuery) -> bool {
    &&& exists|i: int| #[trigger] occurs_at(stat_prefix(q), "COUNT(*) AS n FROM logs WHERE "@, i)
    &&& exists|i: int, j: int| #[trigger] occurs_at(stat_suffix(q), " ORDER BY n DESC"@, i)
        && #[trigger] occurs_at(stat_suffix(q), " LIMIT "@, j) && i < j
}

/// Every statement that limits its groups returns the most frequent ones: the method,
/// level, target, message and address rankings count each group as `n` and order by it,
/// largest first, before the limit; and the statements that take the top-N parameter end
/// with it.
pub proof fn lemma_rankings_take_the_most_frequent(q: StatQuery)
    requires
        q != StatQuery::Totals && q != StatQuery::Status,
    ensures
        ranks_by_count(q),
        stat_takes_top_n(q) ==> occurs_at(stat_suffix(q), " LIMIT ?"@, stat_suffix(q).len() - 8),
{
    let p = stat_prefix(q);
    let x = stat_suffix(q);
    let c = "COUNT(*) AS n FROM logs WHERE "@;
    let o = " ORDER BY n DESC"@;
    let l = " LIMIT "@;
    reveal_strlit("COUNT(*) AS n FROM logs WHERE ");
    reveal_strlit(" ORDER BY n DESC");
    reveal_strlit(" LIMIT ");
    reveal_strlit(" LIMIT ?");
    match q {
        StatQuery::Methods => {
            reveal_strlit("SELECT method, COUNT(*) AS n FROM logs WHERE ");
            reveal_strlit(" GROUP BY method ORDER BY n DESC LIMIT 50");
            assert(p.subrange(15, (15 + c.len()) as int) =~= c);
            assert(occurs_at(p, c, 15));
            assert(x.subrange(16, (16 + o.len()) as int) =~= o);
            assert(occurs_at(x, o, 16));
            assert(x.subrange(32, (32 + l.len()) as int) =~= l);
            assert(occurs_at(x, l, 32));
        },
        StatQuery::Targets => {
            reveal_strlit("SELECT request_target, COUNT(*) AS n FROM logs WHERE ");
            reveal_strlit(" AND request_target IS NOT NULL GROUP BY request_target ORDER BY n DESC, request_target LIMIT ?");
            assert(p.subrange(23, (23 + c.len()) as int) =~= c);
            assert(occurs_at(p, c, 23));
            assert(x.subrange(55, (55 + o.len()) as int) =~= o);
            assert(occurs_at(x, o, 55));
            assert(x.subrange(87, (87 + l.len()) as int) =~= l);
            assert(occurs_at(x, l, 87));
            assert(x.subrange(x.len() - 8, x.len() as int) =~= " LIMIT ?"@);
            assert(occurs_at(x, " LIMIT ?"@, x.len() - 8));
        },
        StatQuery::Levels => {
            reveal_strlit("SELECT json_extract_string(extra_json, '$.level') AS lvl, COUNT(*) AS n FROM logs WHERE ");
            reveal_strlit(" GROUP BY lvl ORDER BY n DESC, lvl LIMIT 50");
            assert(p.subrange(58, (58 + c.len()) as int) =~= c);
            assert(occurs_at(p, c, 58));
            assert(x.subrange(13, (13 + o.len()) as int) =~= o);
            assert(occurs_at(x, o, 13));
            assert(x.subrange(34, (34 + l.len()) as int) =~= l);
            assert(occurs_at(x, l, 34));
        },
        StatQuery::Messages => {
            reveal_strlit("SELECT json_extract_string(extra_json, '$.message') AS msg, COUNT(*) AS n FROM logs WHERE ");
            reveal_strlit(" AND json_extract_string(extra_json, '$.message') IS NOT NULL GROUP BY msg ORDER BY n DESC, msg LIMIT ?");
            assert(p.subrange(60, (60 + c.len()) as int) =~= c);
            assert(occurs_at(p, c, 60));
            assert(x.subrange(74, (74 + o.len()) as int) =~= o);
            assert(occurs_at(x, o, 74));
            assert(x.subrange(95, (95 + l.len()) as int) =~= l);
            assert(occurs_at(x, l, 95));
            assert(x.subrange(x.len() - 8, x.len() as int) =~= " LIMIT ?"@);
            assert(occurs_at(x, " LIMIT ?"@, x.len() - 8));
        },
        StatQuery::TopIps => {
            reveal_strlit("SELECT client_ip, COUNT(*) AS n FROM logs WHERE ");
            reveal_strlit(" AND client_ip IS NOT NULL GROUP BY client_ip ORDER BY n DESC, client_ip LIMIT ?");
            assert(p.subrange(18, (18 + c.len()) as int) =~= c);
            assert(occurs_at(p, c, 18));
            assert(x.subrange(45, (45 + o.len()) as int) =~= o);
            assert(occurs_at(x, o, 45));
            assert(x.subrange(72, (72 + l.len()) as int) =~= l);
            assert(occurs_at(x, l, 72));
            assert(x.subrange(x.len() - 8, x.len() as int) =~= " LIMIT ?"@);
            assert(occurs_at(x, " LIMIT ?"@, x.len() - 8));
        },
        StatQuery::IpRows => {
            reveal_strlit("SELECT client_ip, epoch_us(MIN(timestamp_utc)), epoch_us(MAX(timestamp_utc)), COUNT(*) AS n FROM logs WHERE ");
            reveal_strlit(" AND client_ip IS NOT NULL GROUP BY client_ip ORDER BY n DESC, client_ip LIMIT ?");
            assert(p.subrange(78, (78 + c.len()) as int) =~= c);
            assert(occurs_at(p, c, 78));
            assert(x.subrange(45, (45 + o.len()) as int) =~= o);
            assert(occurs_at(x, o, 45));
            assert(x.subrange(72, (72 + l.len()) as int) =~= l);
            assert(occurs_at(x, l, 72));
            assert(x.subrange(x.len() - 8, x.len() as int) =~= " LIMIT ?"@);
            assert(occurs_at(x, " LIMIT ?"@, x.len() - 8));
        },
        _ => {},
    }
}

} // verus!
