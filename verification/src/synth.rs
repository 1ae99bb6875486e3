//! Deterministic synthetic log data: the generator's random source, weighted choice
//! and the calendar arithmetic that turns seconds into date and time fields.

use vstd::prelude::*;
use vstd::arithmetic::div_mod::{lemma_div_multiples_vanish_fancy, lemma_fundamental_div_mod, lemma_mod_multiples_vanish};

use crate::ext::str_chars;
use crate::semantic::{find_char, lemma_find_char};
use crate::text::{chars_to_string, decimal, push_decimal, push_signed_decimal, push_str, signed_decimal, strings_view};

verus! {

/// Generated format.
#[derive(Debug, Clone, Copy, PartialEq, Eq, Structural)]
pub enum SynthFormat {
    /// Apache/Nginx Common.
    Common,
    /// Apache/Nginx Combined.
    Combined,
    /// IIS W3C (with a header change halfway).
    W3c,
    /// Pipe-separated custom format (compatible with `fixtures/custom_pipe.profile.json`).
    CustomPipe,
}

/// One step of the xorshift generator.
pub open spec fn xorshift(x: u64) -> u64 {
    let a = x ^ (x << 13u64);
    let b = a ^ (a >> 7u64);
    b ^ (b << 17u64)
}

/// The generator's state for a seed (zero counts as one).
pub open spec fn seed_state(seed: u64) -> u64 {
    (if seed == 0 { 1u64 } else { seed }) ^ 0x9E37_79B9_7F4A_7C15u64
}

/// A deterministic xorshift random source.
pub struct Rng {
    state: u64,
}

impl Rng {
    /// The generator's state.
    pub closed spec fn state(&self) -> u64 {
        self.state
    }

    /// A generator seeded with `seed`.
    pub fn new(seed: u64) -> (r: Rng)
        ensures
            r.state() == seed_state(seed),
    {
        let s: u64 = if seed == 0 { 1 } else { seed };
        Rng { state: s ^ 0x9E37_79B9_7F4A_7C15u64 }
    }

    /// The next number: the state advanced by one step, which is also returned.
    pub fn next_u64(&mut self) -> (r: u64)
        ensures
            r == xorshift(old(self).state()),
            final(self).state() == r,
    {
        let mut x = self.state;
        x = x ^ (x << 13u64);
        x = x ^ (x >> 7u64);
        x = x ^ (x << 17u64);
        self.state = x;
        x
    }

    /// A number below `n` (below one when `n` is zero) from the next step.
    pub fn below(&mut self, n: u64) -> (r: u64)
        ensures
            final(self).state() == xorshift(old(self).state()),
            r == xorshift(old(self).state()) % (if n == 0 { 1u64 } else { n }),
            r < n || (n == 0 && r == 0),
    {
        let m: u64 = if n == 0 { 1 } else { n };
        self.next_u64() % m
    }

    /// An item of a non-empty slice, at the index that `below(len)` gives.
    pub fn pick<'a, T>(&mut self, items: &'a [T]) -> (r: &'a T)
        requires
            items@.len() > 0,
        ensures
            final(self).state() == xorshift(old(self).state()),
            *r == items@[(xorshift(old(self).state()) % (items@.len() as u64)) as int],
    {
        let k = self.below(items.len() as u64);
        &items[k as usize]
    }
}

/// The sum of the weights of a table.
pub open spec fn weight_sum<T>(t: Seq<(T, u64)>) -> nat
    decreases t.len(),
{
    if t.len() == 0 { 0 } else { weight_sum(t.drop_last()) + t.last().1 as nat }
}

/// The entry from index `i` on whose weight band holds `roll`, if any.
pub open spec fn band_from<T>(t: Seq<(T, u64)>, i: int, roll: int) -> Option<int>
    decreases t.len() - i,
{
    if i < 0 || i >= t.len() {
        None
    } else if roll < t[i].1 {
        Some(i)
    } else {
        band_from(t, i + 1, roll - t[i].1)
    }
}

/// The value that a roll picks from a table: the entry whose band holds it, or the first
/// entry when none does.
pub open spec fn weighted_value<T>(t: Seq<(T, u64)>, roll: int) -> T
    recommends
        t.len() > 0,
{
    match band_from(t, 0, roll) {
        Some(k) => t[k].0,
        None => t[0].0,
    }
}

proof fn lemma_weight_prefix<T>(t: Seq<(T, u64)>, i: int)
    requires
        0 <= i <= t.len(),
    ensures
        weight_sum(t.take(i)) <= weight_sum(t),
    decreases t.len(),
{
    if i < t.len() {
        assert(t.drop_last().take(i) =~= t.take(i));
        lemma_weight_prefix(t.drop_last(), i);
    } else {
        assert(t.take(i) =~= t);
    }
}

/// The entry of a table that a roll below the table's total weight lands in.
pub fn weighted_pick<T: Copy>(table: &[(T, u64)], roll: u64) -> (r: T)
    requires
        table@.len() > 0,
    ensures
        r == weighted_value(table@, roll as int),
{
    let mut rest: u64 = roll;
    let mut i: usize = 0;
    while i < table.len()
        invariant
            i <= table@.len(),
            band_from(table@, 0, roll as int) == band_from(table@, i as int, rest as int),
        decreases table@.len() - i,
    {
        let w = table[i].1;
        if rest < w {
            return table[i].0;
        }
        rest = rest - w;
        i = i + 1;
    }
    table[0].0
}

/// A value of a weighted table: the generator rolls below the total weight and the roll
/// picks the entry whose band holds it.
pub fn weighted<T: Copy>(rng: &mut Rng, table: &[(T, u64)]) -> (r: T)
    requires
        table@.len() > 0,
        weight_sum(table@) <= u64::MAX,
    ensures
        final(rng).state() == xorshift(old(rng).state()),
        r == weighted_value(table@, (xorshift(old(rng).state()) % (if weight_sum(table@) == 0 { 1u64 } else {
            weight_sum(table@) as u64 })) as int),
{
    let mut total: u64 = 0;
    let mut i: usize = 0;
    while i < table.len()
        invariant
            i <= table@.len(),
            total == weight_sum(table@.take(i as int)),
            weight_sum(table@) <= u64::MAX,
        decreases table@.len() - i,
    {
        proof {
            assert(table@.take(i + 1).drop_last() =~= table@.take(i as int));
            lemma_weight_prefix(table@, i + 1);
        }
        total = total + table[i].1;
        i = i + 1;
    }
    proof {
        assert(table@.take(i as int) =~= table@);
    }
    let roll = rng.below(total);
    weighted_pick(table, roll)
}

/// The year of an era (from March) that a day of the era falls in.
pub open spec fn year_of_era(doe: u32) -> u32 {
    ((doe - doe / 1460 + doe / 36524 - doe / 146096) / 365) as u32
}

/// The day of the era on which year `yoe` of the era starts (from March).
pub open spec fn year_start(yoe: u32) -> u32 {
    (365 * yoe + yoe / 4 - yoe / 100) as u32
}

/// A leap year of the proleptic Gregorian calendar.
pub open spec fn is_leap(y: int) -> bool {
    y % 4 == 0 && (y % 100 != 0 || y % 400 == 0)
}

proof fn lemma_era_year(doe: u32)
    requires
        doe <= 146096,
    ensures
        year_of_era(doe) <= 399,
        year_start(year_of_era(doe)) <= doe,
        doe - year_start(year_of_era(doe)) <= 365,
        doe - year_start(year_of_era(doe)) == 365 ==> (year_of_era(doe) + 1) % 4 == 0
            && ((year_of_era(doe) + 1) % 100 != 0 || (year_of_era(doe) + 1) % 400 == 0),
{
    assert({
        let yoe = ((doe - doe / 1460 + doe / 36524 - doe / 146096) / 365) as u32;
        let start = (365 * yoe + yoe / 4 - yoe / 100) as u32;
        &&& yoe <= 399
        &&& start <= doe
        &&& doe - start <= 365
        &&& doe - start == 365 ==> (yoe + 1) % 4 == 0 && ((yoe + 1) % 100 != 0 || (yoe + 1) % 400 == 0)
    }) by (bit_vector)
        requires
            doe <= 146096,
    ;
}

/// The number of days in month `m` of year `y`.
pub open spec fn month_days(y: int, m: int) -> int {
    if m == 2 {
        if is_leap(y) { 29 } else { 28 }
    } else if m == 4 || m == 6 || m == 9 || m == 11 {
        30
    } else {
        31
    }
}

/// The month (from March, 0 to 11) that a day of a March-based year falls in.
pub open spec fn month_of_year(doy: u32) -> u32 {
    ((5 * doy + 2) / 153) as u32
}

/// The day of a March-based year on which month `mp` starts.
pub open spec fn month_start(mp: u32) -> u32 {
    ((153 * mp + 2) / 5) as u32
}

/// The calendar month of a month counted from March.
pub open spec fn calendar_month(mp: u32) -> u32 {
    if mp < 10 { (mp + 3) as u32 } else { (mp - 9) as u32 }
}

proof fn lemma_year_month(doy: u32)
    requires
        doy <= 365,
    ensures
        month_of_year(doy) <= 11,
        month_start(month_of_year(doy)) <= doy,
        1 <= calendar_month(month_of_year(doy)) <= 12,
        calendar_month(month_of_year(doy)) <= 2 <==> month_of_year(doy) >= 10,
        ({
            let m = calendar_month(month_of_year(doy));
            let d = doy - month_start(month_of_year(doy)) + 1;
            &&& m == 2 ==> d <= 29
            &&& m == 2 && d == 29 ==> doy == 365
            &&& (m == 4 || m == 6 || m == 9 || m == 11) ==> d <= 30
            &&& d <= 31
        }),
{
    assert({
        let mp = ((5 * doy + 2) / 153) as u32;
        let ms = ((153 * mp + 2) / 5) as u32;
        let m = if mp < 10 { (mp + 3) as u32 } else { (mp - 9) as u32 };
        let d = doy - ms + 1;
        &&& mp <= 11
        &&& ms <= doy
        &&& 1 <= m <= 12
        &&& m <= 2 <==> mp >= 10
        &&& m == 2 ==> d <= 29
        &&& m == 2 && d == 29 ==> doy == 365
        &&& (m == 4 || m == 6 || m == 9 || m == 11) ==> d <= 30
        &&& d <= 31
    }) by (bit_vector)
        requires
            doy <= 365,
    ;
}

/// The number of the day `y-m-d` of the proleptic Gregorian calendar, counted from
/// 1970-01-01 (negative before it).
pub open spec fn days_from_civil(y: int, m: int, d: int) -> int {
    let yy = if m <= 2 { y - 1 } else { y };
    let era = yy / 400;
    let yoe = yy - era * 400;
    let mp = if m > 2 { m - 3 } else { m + 9 };
    let doy = (153 * mp + 2) / 5 + d - 1;
    let doe = yoe * 365 + yoe / 4 - yoe / 100 + doy;
    era * 146097 + doe - 719468
}

proof fn lemma_leap_shift(a: int, k: int)
    ensures
        is_leap(a + 400 * k) == is_leap(a),
{
    lemma_mod_multiples_vanish(100 * k, a, 4);
    lemma_mod_multiples_vanish(4 * k, a, 100);
    lemma_mod_multiples_vanish(k, a, 400);
    assert(4 * (100 * k) == 400 * k) by (nonlinear_arith);
    assert(100 * (4 * k) == 400 * k) by (nonlinear_arith);
}

/// `c` holds the date and time fields of the moment `secs` (seconds from
/// 1970-01-01T00:00:00): a valid month and day whose day number is that of `secs`, and
/// its hour, minute and second.
pub open spec fn civil_holds(secs: int, c: (i64, u32, u32, u32, u32, u32)) -> bool {
    &&& 1 <= c.1 <= 12
    &&& 1 <= c.2 <= month_days(c.0 as int, c.1 as int)
    &&& days_from_civil(c.0 as int, c.1 as int, c.2 as int) == secs / 86400
    &&& c.3 == (secs % 86400) / 3600
    &&& c.4 == (secs % 86400) % 3600 / 60
    &&& c.5 == (secs % 86400) % 60
}

/// A day of a March-based year within the year's length (the 366th only before a leap
/// February) falls in that year of the era.
proof fn lemma_day_in_year(yoe: u32, doy: u32, doe: u32)
    requires
        yoe <= 399,
        doy <= 365,
        doy == 365 ==> (yoe + 1) % 4 == 0 && ((yoe + 1) % 100 != 0 || (yoe + 1) % 400 == 0),
        doe >= doy,
        doe - doy == year_start(yoe),
    ensures
        doe <= 146096,
        year_of_era(doe) == yoe,
{
    let ny: u32 = (yoe + 1) as u32;
    assert(doe <= 146096 && ((doe - doe / 1460 + doe / 36524 - doe / 146096) / 365) as u32 == yoe) by (bit_vector)
        requires
            yoe <= 399,
            doy <= 365,
            ny == yoe + 1,
            doy == 365 ==> ny % 4 == 0 && (ny % 100 != 0 || ny % 400 == 0),
            (doe - doy) as u32 == (365 * yoe + yoe / 4 - yoe / 100) as u32,
            doe >= doy,
    ;
}

/// A day within its month (counted from March) falls in that month of the year.
proof fn lemma_day_in_month(mp: u32, d: u32)
    requires
        mp <= 11,
        1 <= d <= 31,
        (mp == 1 || mp == 3 || mp == 6 || mp == 8) ==> d <= 30,
        mp == 11 ==> d <= 29,
    ensures
        month_start(mp) + d - 1 <= 365,
        month_start(mp) + d - 1 == 365 ==> mp == 11 && d == 29,
        month_of_year((month_start(mp) + d - 1) as u32) == mp,
{
    assert({
        let ms = ((153 * mp + 2) / 5) as u32;
        &&& ms + d - 1 <= 365
        &&& ms + d - 1 == 365 ==> mp == 11 && d == 29
        &&& ((5 * ((ms + d - 1) as u32) + 2) / 153) as u32 == mp
    }) by (bit_vector)
        requires
            mp <= 11,
            1 <= d <= 31,
            (mp == 1 || mp == 3 || mp == 6 || mp == 8) ==> d <= 30,
            mp == 11 ==> d <= 29,
    ;
}

/// A valid date comes apart into the parts its day number is built from: the 400-year era
/// and the day within it, the year of the era (from March), the month (from March) and
/// the day.
proof fn lemma_date_parts(y: int, m: int, d: int) -> (r: (int, int, u32, u32))
    requires
        1 <= m <= 12,
        1 <= d <= month_days(y, m),
    ensures
        days_from_civil(y, m, d) + 719468 == r.0 * 146097 + r.1,
        0 <= r.1 <= 146096,
        r.2 == year_of_era(r.1 as u32),
        r.1 >= year_start(r.2),
        r.3 == month_of_year((r.1 - year_start(r.2)) as u32),
        d == r.1 - year_start(r.2) - month_start(r.3) + 1,
        m == calendar_month(r.3),
        y == r.0 * 400 + r.2 + if m <= 2 { 1int } else { 0int },
{
    let yy = if m <= 2 { y - 1 } else { y };
    let era = yy / 400;
    lemma_fundamental_div_mod(yy, 400);
    let yoe_i = yy - era * 400;
    assert(0 <= yoe_i <= 399);
    let mp_i = if m > 2 { m - 3 } else { m + 9 };
    let yoe = yoe_i as u32;
    let mp = mp_i as u32;
    let dd = d as u32;
    lemma_day_in_month(mp, dd);
    let doy_i = (153 * mp_i + 2) / 5 + d - 1;
    assert(doy_i == month_start(mp) + dd - 1);
    let doe_i = yoe_i * 365 + yoe_i / 4 - yoe_i / 100 + doy_i;
    assert(year_start(yoe) == yoe_i * 365 + yoe_i / 4 - yoe_i / 100);
    if doy_i == 365 {
        assert(m == 2 && d == 29);
        assert(is_leap(y));
        lemma_leap_shift(yoe_i + 1, era);
        assert(y == yoe_i + 1 + 400 * era);
    }
    lemma_day_in_year(yoe, doy_i as u32, doe_i as u32);
    (era, doe_i, yoe, mp)
}

/// The date and time fields of a moment are unique: two that both hold it are the same.
pub proof fn lemma_civil_unique(secs: int, c1: (i64, u32, u32, u32, u32, u32), c2: (i64, u32, u32, u32, u32, u32))
    requires
        civil_holds(secs, c1),
        civil_holds(secs, c2),
    ensures
        c1 == c2,
{
    let p1 = lemma_date_parts(c1.0 as int, c1.1 as int, c1.2 as int);
    let p2 = lemma_date_parts(c2.0 as int, c2.1 as int, c2.2 as int);
    assert(p1.0 == p2.0) by (nonlinear_arith)
        requires
            p1.0 * 146097 + p1.1 == p2.0 * 146097 + p2.1,
            0 <= p1.1 <= 146096,
            0 <= p2.1 <= 146096,
    ;
    assert(p1.1 == p2.1);
    assert(p1.2 == p2.2);
    assert(p1.3 == p2.3);
    assert(c1.1 == c2.1 && c1.2 == c2.2);
    assert(c1.0 == c2.0);
}

/// Date and time fields of a moment given in seconds from 1970-01-01T00:00:00: year,
/// month, day, hour, minute, second.
pub fn civil(secs: i64) -> (r: (i64, u32, u32, u32, u32, u32))
    ensures
        civil_holds(secs as int, r),
{
    let days: i64 = match secs.checked_div_euclid(86_400) {
        Some(v) => v,
        None => 0,
    };
    let rem: i64 = match secs.checked_rem_euclid(86_400) {
        Some(v) => v,
        None => 0,
    };
    proof {
        lemma_fundamental_div_mod(secs as int, 86400);
        assert(-106751991167301 <= days <= 106751991167300) by (nonlinear_arith)
            requires
                secs as int == 86400 * days + rem,
                0 <= rem < 86400,
                i64::MIN <= secs <= i64::MAX,
        ;
    }
    let z: i64 = days + 719_468;
    let era: i64 = match z.checked_div_euclid(146_097) {
        Some(v) => v,
        None => 0,
    };
    proof {
        lemma_fundamental_div_mod(z as int, 146097);
        assert(0 <= z as int % 146097 < 146097);
        assert(-730692558 <= era <= 730692567) by (nonlinear_arith)
            requires
                z as int == 146097 * era + z as int % 146097,
                0 <= z as int % 146097 < 146097,
                -106751991167301 + 719468 <= z <= 106751991167300 + 719468,
        ;
    }
    let doe_i: i64 = z - era * 146_097;
    let doe: u32 = doe_i as u32;
    proof {
        assert(doe_i == z as int % 146097);
        lemma_era_year(doe);
    }
    let yoe: u32 = (doe - doe / 1460 + doe / 36_524 - doe / 146_096) / 365;
    let doy: u32 = doe - (365 * yoe + yoe / 4 - yoe / 100);
    proof {
        assert(yoe == year_of_era(doe));
        lemma_year_month(doy);
    }
    let mp: u32 = (5 * doy + 2) / 153;
    let d: u32 = doy - (153 * mp + 2) / 5 + 1;
    let m: u32 = if mp < 10 { mp + 3 } else { mp - 9 };
    let y0: i64 = yoe as i64 + era * 400;
    let y: i64 = if m <= 2 { y0 + 1 } else { y0 };
    let t: u32 = rem as u32;
    proof {
        assert(mp == month_of_year(doy));
        assert(m == calendar_month(mp));
        let yy = if m <= 2 { y as int - 1 } else { y as int };
        assert(yy == yoe + era * 400);
        lemma_div_multiples_vanish_fancy(era as int, yoe as int, 400);
        assert(400 * era + yoe == yoe + era * 400);
        assert(yy / 400 == era);
        let mpp = if m > 2 { m - 3 } else { m + 9 };
        assert(mpp == mp);
        assert(days_from_civil(y as int, m as int, d as int) == days);
        if m == 2 && d == 29 {
            lemma_leap_shift(yoe + 1, era as int);
            assert(y == yoe + 1 + 400 * era);
        }
    }
    (y, m, d, t / 3600, (t % 3600) / 60, t % 60)
}

/// Seconds added to a UTC moment before it is written: the access-log formats record
/// local time at +09:00, W3C records UTC.
pub fn local_offset_secs(format: SynthFormat) -> (r: i64)
    ensures
        r == (if format == SynthFormat::W3c { 0int } else { 32400int }),
{
    match format {
        SynthFormat::W3c => 0,
        _ => 9 * 3600,
    }
}

/// A number written with at least two digits.
pub open spec fn two_digits(n: nat) -> Seq<char> {
    if n < 10 { seq!['0'] + decimal(n) } else { decimal(n) }
}

/// The English abbreviation of month `m`.
pub open spec fn month_abbr(m: int) -> Seq<char> {
    if m == 1 { "Jan"@ } else if m == 2 { "Feb"@ } else if m == 3 { "Mar"@ } else if m == 4 { "Apr"@ }
    else if m == 5 { "May"@ } else if m == 6 { "Jun"@ } else if m == 7 { "Jul"@ } else if m == 8 { "Aug"@ }
    else if m == 9 { "Sep"@ } else if m == 10 { "Oct"@ } else if m == 11 { "Nov"@ } else { "Dec"@ }
}

/// The bytes field: the number, or `-` when absent.
pub open spec fn bytes_text(b: Option<u64>) -> Seq<char> {
    match b {
        Some(n) => decimal(n as nat),
        None => "-"@,
    }
}

/// Text with each space written as `+`.
pub open spec fn plus_for_space(s: Seq<char>) -> Seq<char> {
    Seq::new(s.len(), |i: int| if s[i] == ' ' { '+' } else { s[i] })
}

/// A request target split at its first `?` into stem and query, the query `-` when there
/// is none.
pub open spec fn stem_query(p: Seq<char>) -> (Seq<char>, Seq<char>) {
    match find_char(p, '?') {
        Some(i) => (p.subrange(0, i), p.subrange(i + 1, p.len() as int)),
        None => (p, "-"@),
    }
}

/// Date and time fields as `civil` gives them.
pub type CivilTime = (i64, u32, u32, u32, u32, u32);

/// `yyyy-mm-dd`.
pub open spec fn date_text(c: CivilTime) -> Seq<char> {
    signed_decimal(c.0 as int) + "-"@ + two_digits(c.1 as nat) + "-"@ + two_digits(c.2 as nat)
}

/// `hh:mm:ss`.
pub open spec fn clock_text(c: CivilTime) -> Seq<char> {
    two_digits(c.3 as nat) + ":"@ + two_digits(c.4 as nat) + ":"@ + two_digits(c.5 as nat)
}

/// The fields of one generated request line.
pub struct SynthRequest {
    /// Client address.
    pub ip: String,
    /// Request target.
    pub path: String,
    /// Request method.
    pub method: String,
    /// Status code.
    pub status: u16,
    /// Bytes sent, absent as `-`.
    pub bytes: Option<u64>,
    /// User agent.
    pub user_agent: String,
    /// Referrer.
    pub referrer: String,
    /// Time taken (W3C) or response time (custom format).
    pub response_time: u64,
}

/// What a generated line shows of a request: its texts and numbers.
pub struct RequestText {
    /// Client address.
    pub ip: Seq<char>,
    /// Request target.
    pub path: Seq<char>,
    /// Request method.
    pub method: Seq<char>,
    /// Status code.
    pub status: u16,
    /// Bytes sent, absent as `-`.
    pub bytes: Option<u64>,
    /// User agent.
    pub user_agent: Seq<char>,
    /// Referrer.
    pub referrer: Seq<char>,
    /// Time taken (W3C) or response time (custom format).
    pub response_time: u64,
}

/// The texts and numbers of a request.
pub open spec fn request_text(q: SynthRequest) -> RequestText {
    RequestText {
        ip: q.ip@,
        path: q.path@,
        method: q.method@,
        status: q.status,
        bytes: q.bytes,
        user_agent: q.user_agent@,
        referrer: q.referrer@,
        response_time: q.response_time,
    }
}

/// The text of a generated line (without its line break) in a format, for the date and
/// time fields `c`; `first_half` selects the first of the two W3C field lists.
pub open spec fn line_text(format: SynthFormat, c: CivilTime, q: RequestText, first_half: bool) -> Seq<char> {
    match format {
        SynthFormat::W3c => {
            let sq = stem_query(q.path);
            if first_half {
                date_text(c) + " "@ + clock_text(c) + " 10.0.0.1 "@ + q.method + " "@ + sq.0 + " "@ + sq.1
                    + " 443 - "@ + q.ip + " "@ + plus_for_space(q.user_agent) + " "@ + q.referrer + " "@
                    + decimal(q.status as nat) + " 0 0 "@ + decimal(q.response_time as nat)
            } else {
                date_text(c) + " "@ + clock_text(c) + " "@ + q.ip + " "@ + q.method + " "@ + sq.0 + " "@ + sq.1
                    + " "@ + decimal(q.status as nat) + " "@ + bytes_text(q.bytes) + " "@
                    + decimal(q.response_time as nat)
            }
        },
        SynthFormat::CustomPipe => date_text(c) + "T"@ + clock_text(c) + "|"@ + q.ip + "|"@ + q.method + "|"@
            + q.path + "|"@ + decimal(q.status as nat) + "|"@ + bytes_text(q.bytes) + "|"@ + q.user_agent
            + "|rt="@ + decimal(q.response_time as nat),
        _ => {
            let common = q.ip + " - - ["@ + two_digits(c.2 as nat) + "/"@ + month_abbr(c.1 as int) + "/"@
                + signed_decimal(c.0 as int) + ":"@ + clock_text(c) + " +0900] \""@ + q.method + " "@ + q.path
                + " HTTP/1.1\" "@ + decimal(q.status as nat) + " "@ + bytes_text(q.bytes);
            if format == SynthFormat::Combined {
                common + " \""@ + q.referrer + "\" \""@ + q.user_agent + "\""@
            } else {
                common
            }
        },
    }
}

/// The text of a generated line for a request (see [`line_text`]).
pub open spec fn synth_line_text(format: SynthFormat, c: CivilTime, q: SynthRequest, first_half: bool) -> Seq<char> {
    line_text(format, c, request_text(q), first_half)
}

fn push_two_digits(out: &mut Vec<char>, n: u32)
    ensures
        final(out)@ == old(out)@ + two_digits(n as nat),
{
    if n < 10 {
        out.push('0');
        push_decimal(out, n as u64);
        assert(out@ =~= old(out)@ + (seq!['0'] + decimal(n as nat)));
    } else {
        push_decimal(out, n as u64);
    }
}

fn push_month_abbr(out: &mut Vec<char>, m: u32)
    ensures
        final(out)@ == old(out)@ + month_abbr(m as int),
{
    let t = if m == 1 { "Jan" } else if m == 2 { "Feb" } else if m == 3 { "Mar" } else if m == 4 { "Apr" }
        else if m == 5 { "May" } else if m == 6 { "Jun" } else if m == 7 { "Jul" } else if m == 8 { "Aug" }
        else if m == 9 { "Sep" } else if m == 10 { "Oct" } else if m == 11 { "Nov" } else { "Dec" };
    push_str(out, t);
}

fn push_bytes(out: &mut Vec<char>, b: Option<u64>)
    ensures
        final(out)@ == old(out)@ + bytes_text(b),
{
    match b {
        Some(n) => push_decimal(out, n),
        None => push_str(out, "-"),
    }
}

fn push_plus_for_space(out: &mut Vec<char>, s: &str)
    ensures
        final(out)@ == old(out)@ + plus_for_space(s@),
{
    let cs = str_chars(s);
    let ghost start = out@;
    let mut i: usize = 0;
    while i < cs.len()
        invariant
            i <= cs@.len(),
            cs@ == s@,
            out@ == start + plus_for_space(s@).subrange(0, i as int),
        decreases cs@.len() - i,
    {
        let c = cs[i];
        out.push(if c == ' ' { '+' } else { c });
        i = i + 1;
        assert(plus_for_space(s@).subrange(0, i as int) =~= plus_for_space(s@).subrange(0, i - 1).push(
            if c == ' ' { '+' } else { c }));
    }
    assert(plus_for_space(s@).subrange(0, i as int) =~= plus_for_space(s@));
}

fn push_stem_query(out: &mut Vec<char>, p: &str)
    ensures
        final(out)@ == old(out)@ + stem_query(p@).0 + " "@ + stem_query(p@).1,
{
    let cs = str_chars(p);
    proof { lemma_find_char(p@, '?'); }
    let mut i: usize = 0;
    while i < cs.len() && cs[i] != '?'
        invariant
            i <= cs@.len(),
            cs@ == p@,
            forall|k: int| 0 <= k < i ==> cs@[k] != '?',
        decreases cs@.len() - i,
    {
        i = i + 1;
    }
    let ghost start = out@;
    let mut k: usize = 0;
    while k < i
        invariant
            k <= i <= cs@.len(),
            out@ == start + cs@.subrange(0, k as int),
        decreases i - k,
    {
        out.push(cs[k]);
        k = k + 1;
        assert(cs@.subrange(0, k as int) =~= cs@.subrange(0, k - 1).push(cs@[k - 1]));
    }
    out.push(' ');
    if i < cs.len() {
        let ghost mid = out@;
        let mut j: usize = i + 1;
        while j < cs.len()
            invariant
                i < j <= cs@.len(),
                out@ == mid + cs@.subrange(i + 1, j as int),
            decreases cs@.len() - j,
        {
            out.push(cs[j]);
            j = j + 1;
            assert(cs@.subrange(i + 1, j as int) =~= cs@.subrange(i + 1, j - 1).push(cs@[j - 1]));
        }
        proof {
            assert(find_char(p@, '?') == Some(i as int));
            assert(out@ =~= start + cs@.subrange(0, i as int) + " "@ + cs@.subrange(i + 1, cs@.len() as int)) by {
                reveal_strlit(" ");
            }
        }
    } else {
        push_str(out, "-");
        proof {
            assert(find_char(p@, '?') is None);
            assert(cs@.subrange(0, i as int) =~= p@);
            assert(out@ =~= start + p@ + " "@ + "-"@) by {
                reveal_strlit(" ");
            }
        }
    }
}

/// The date and the time of day, joined by `sep`.
fn push_date_clock(out: &mut Vec<char>, c: CivilTime, sep: &str)
    ensures
        final(out)@ == old(out)@ + date_text(c) + sep@ + clock_text(c),
{
    push_signed_decimal(out, c.0);
    push_str(out, "-");
    push_two_digits(out, c.1);
    push_str(out, "-");
    push_two_digits(out, c.2);
    push_str(out, sep);
    push_clock(out, c);
    assert(out@ =~= old(out)@ + date_text(c) + sep@ + clock_text(c));
}

fn push_clock(out: &mut Vec<char>, c: CivilTime)
    ensures
        final(out)@ == old(out)@ + clock_text(c),
{
    push_two_digits(out, c.3);
    push_str(out, ":");
    push_two_digits(out, c.4);
    push_str(out, ":");
    push_two_digits(out, c.5);
    assert(out@ =~= old(out)@ + clock_text(c));
}

fn w3c_line(c: CivilTime, q: &SynthRequest, first_half: bool) -> (r: Vec<char>)
    ensures
        r@ == synth_line_text(SynthFormat::W3c, c, *q, first_half),
{
    let mut out: Vec<char> = Vec::new();
    push_date_clock(&mut out, c, " ");
    if first_half {
        push_str(&mut out, " 10.0.0.1 ");
        push_str(&mut out, q.method.as_str());
        push_str(&mut out, " ");
        push_stem_query(&mut out, q.path.as_str());
        push_str(&mut out, " 443 - ");
        push_str(&mut out, q.ip.as_str());
        push_str(&mut out, " ");
        push_plus_for_space(&mut out, q.user_agent.as_str());
        push_str(&mut out, " ");
        push_str(&mut out, q.referrer.as_str());
        push_str(&mut out, " ");
        push_decimal(&mut out, q.status as u64);
        push_str(&mut out, " 0 0 ");
        push_decimal(&mut out, q.response_time);
    } else {
        push_str(&mut out, " ");
        push_str(&mut out, q.ip.as_str());
        push_str(&mut out, " ");
        push_str(&mut out, q.method.as_str());
        push_str(&mut out, " ");
        push_stem_query(&mut out, q.path.as_str());
        push_str(&mut out, " ");
        push_decimal(&mut out, q.status as u64);
        push_str(&mut out, " ");
        push_bytes(&mut out, q.bytes);
        push_str(&mut out, " ");
        push_decimal(&mut out, q.response_time);
    }
    assert(out@ =~= synth_line_text(SynthFormat::W3c, c, *q, first_half));
    out
}

fn pipe_line(c: CivilTime, q: &SynthRequest) -> (r: Vec<char>)
    ensures
        r@ == synth_line_text(SynthFormat::CustomPipe, c, *q, false),
{
    let mut out: Vec<char> = Vec::new();
    push_date_clock(&mut out, c, "T");
    push_str(&mut out, "|");
    push_str(&mut out, q.ip.as_str());
    push_str(&mut out, "|");
    push_str(&mut out, q.method.as_str());
    push_str(&mut out, "|");
    push_str(&mut out, q.path.as_str());
    push_str(&mut out, "|");
    push_decimal(&mut out, q.status as u64);
    push_str(&mut out, "|");
    push_bytes(&mut out, q.bytes);
    push_str(&mut out, "|");
    push_str(&mut out, q.user_agent.as_str());
    push_str(&mut out, "|rt=");
    push_decimal(&mut out, q.response_time);
    assert(out@ =~= synth_line_text(SynthFormat::CustomPipe, c, *q, false));
    out
}

fn access_line(format: SynthFormat, c: CivilTime, q: &SynthRequest) -> (r: Vec<char>)
    requires
        format == SynthFormat::Common || format == SynthFormat::Combined,
    ensures
        r@ == synth_line_text(format, c, *q, false),
{
    let mut out: Vec<char> = Vec::new();
    push_str(&mut out, q.ip.as_str());
    push_str(&mut out, " - - [");
    push_two_digits(&mut out, c.2);
    push_str(&mut out, "/");
    push_month_abbr(&mut out, c.1);
    push_str(&mut out, "/");
    push_signed_decimal(&mut out, c.0);
    push_str(&mut out, ":");
    push_clock(&mut out, c);
    push_str(&mut out, " +0900] \"");
    push_str(&mut out, q.method.as_str());
    push_str(&mut out, " ");
    push_str(&mut out, q.path.as_str());
    push_str(&mut out, " HTTP/1.1\" ");
    push_decimal(&mut out, q.status as u64);
    push_str(&mut out, " ");
    push_bytes(&mut out, q.bytes);
    if format == SynthFormat::Combined {
        push_str(&mut out, " \"");
        push_str(&mut out, q.referrer.as_str());
        push_str(&mut out, "\" \"");
        push_str(&mut out, q.user_agent.as_str());
        push_str(&mut out, "\"");
    }
    assert(out@ =~= synth_line_text(format, c, *q, false));
    out
}

/// A generated line (without its line break) for the date and time fields `c`.
pub fn synth_line(format: SynthFormat, c: CivilTime, q: &SynthRequest, first_half: bool) -> (r: String)
    ensures
        r@ == synth_line_text(format, c, *q, first_half),
{
    let v = match format {
        SynthFormat::W3c => w3c_line(c, q, first_half),
        SynthFormat::CustomPipe => pipe_line(c, q),
        _ => access_line(format, c, q),
    };
    chars_to_string(&v)
}

/// The generator state after `k` steps from `s`.
pub open spec fn xorshift_n(s: u64, k: nat) -> u64
    decreases k,
{
    if k == 0 { s } else { xorshift(xorshift_n(s, (k - 1) as nat)) }
}

/// The number below `n` (below one when `n` is zero) of draw `k` from state `s`.
pub open spec fn draw(s: u64, k: nat, n: u64) -> u64 {
    xorshift_n(s, k + 1) % (if n == 0 { 1u64 } else { n })
}

/// Lower-case hexadecimal notation, no leading zeros.
pub open spec fn hex(n: nat) -> Seq<char>
    decreases n,
{
    if n < 16 {
        seq![hex_digit(n as int)]
    } else {
        hex(n / 16).push(hex_digit((n % 16) as int))
    }
}

/// A hexadecimal digit.
pub open spec fn hex_digit(d: int) -> char {
    if d < 10 { ((d + 48) as u8) as char } else { ((d + 87) as u8) as char }
}

fn push_hex(out: &mut Vec<char>, n: u64)
    ensures
        final(out)@ == old(out)@ + hex(n as nat),
    decreases n,
{
    if n >= 16 {
        push_hex(out, n / 16);
    }
    let d: u8 = (n % 16) as u8;
    out.push(if d < 10 { (d + 48) as char } else { (d + 87) as char });
}

/// The `i`-th generated client address from state `s`: every twentieth is an IPv6
/// address in the documentation range, the others IPv4 addresses.
pub open spec fn ip_text(s: u64, i: nat) -> Seq<char> {
    if i % 20 == 19 {
        "2001:db8:"@ + hex(draw(s, 0, 0xffff) as nat) + ":"@ + hex(draw(s, 1, 0xffff) as nat) + "::"@
            + hex(draw(s, 2, 0xffff) as nat)
    } else {
        decimal((1 + draw(s, 0, 223)) as nat) + "."@ + decimal(draw(s, 1, 256) as nat) + "."@
            + decimal(draw(s, 2, 256) as nat) + "."@ + decimal((1 + draw(s, 3, 254)) as nat)
    }
}

/// The number of draws that address `i` takes.
pub open spec fn ip_draws(i: nat) -> nat {
    if i % 20 == 19 { 3 } else { 4 }
}

/// The `i`-th generated client address.
pub fn synth_ip(rng: &mut Rng, i: usize) -> (r: String)
    ensures
        r@ == ip_text(old(rng).state(), i as nat),
        final(rng).state() == xorshift_n(old(rng).state(), ip_draws(i as nat)),
{
    let ghost s = rng.state();
    let mut out: Vec<char> = Vec::new();
    if i % 20 == 19 {
        push_str(&mut out, "2001:db8:");
        let a = rng.below(0xffff);
        push_hex(&mut out, a);
        push_str(&mut out, ":");
        let b = rng.below(0xffff);
        push_hex(&mut out, b);
        push_str(&mut out, "::");
        let c = rng.below(0xffff);
        push_hex(&mut out, c);
        proof {
            reveal_with_fuel(xorshift_n, 4);
        }
        assert(out@ =~= ip_text(s, i as nat));
    } else {
        let a = rng.below(223);
        push_decimal(&mut out, 1 + a);
        push_str(&mut out, ".");
        let b = rng.below(256);
        push_decimal(&mut out, b);
        push_str(&mut out, ".");
        let c = rng.below(256);
        push_decimal(&mut out, c);
        push_str(&mut out, ".");
        let d = rng.below(254);
        push_decimal(&mut out, 1 + d);
        proof {
            reveal_with_fuel(xorshift_n, 5);
        }
        assert(out@ =~= ip_text(s, i as nat));
    }
    chars_to_string(&out)
}

/// The path stems that generated request targets start from.
pub open spec fn path_stem(k: int) -> Seq<char> {
    if k == 0 { "/"@ } else if k == 1 { "/index.html"@ } else if k == 2 { "/api/v1/items"@ } else if k == 3 { "/api/v1/users"@ } else if k == 4 { "/api/v2/search"@ } else if k == 5 { "/static/app.js"@ } else if k == 6 { "/static/style.css"@ } else if k == 7 { "/images/logo.png"@ } else if k == 8 { "/login"@ } else if k == 9 { "/logout"@ } else if k == 10 { "/cart"@ } else if k == 11 { "/checkout"@ } else if k == 12 { "/products"@ } else if k == 13 { "/blog"@ } else if k == 14 { "/health"@ } else if k == 15 { "/wp-admin"@ } else if k == 16 { "/.env"@ } else { "/robots.txt"@ }
}

/// The number of path stems.
pub const PATH_STEM_COUNT: usize = 18;

fn path_stem_str(k: usize) -> (r: &'static str)
    ensures
        r@ == path_stem(k as int),
{
    if k == 0 { "/" } else if k == 1 { "/index.html" } else if k == 2 { "/api/v1/items" } else if k == 3 { "/api/v1/users" } else if k == 4 { "/api/v2/search" } else if k == 5 { "/static/app.js" } else if k == 6 { "/static/style.css" } else if k == 7 { "/images/logo.png" } else if k == 8 { "/login" } else if k == 9 { "/logout" } else if k == 10 { "/cart" } else if k == 11 { "/checkout" } else if k == 12 { "/products" } else if k == 13 { "/blog" } else if k == 14 { "/health" } else if k == 15 { "/wp-admin" } else if k == 16 { "/.env" } else { "/robots.txt" }
}

/// The `i`-th generated request target from state `s`: a stem alone, with a number
/// segment, with an id query, or with a page query.
pub open spec fn path_text(s: u64, i: nat) -> Seq<char> {
    let stem = path_stem((i % 18) as int);
    let kind = draw(s, 0, 4);
    if kind == 0 {
        stem
    } else if kind == 1 {
        stem + "/"@ + decimal(draw(s, 1, 100_000) as nat)
    } else if kind == 2 {
        stem + "?id="@ + decimal(draw(s, 1, 10_000) as nat) + "&q=%EC%84%9C%EC%9A%B8"@
    } else {
        stem + "?page="@ + decimal(draw(s, 1, 500) as nat) + "&sort=desc"@
    }
}

/// The `i`-th generated request target.
pub fn synth_path(rng: &mut Rng, i: usize) -> (r: String)
    ensures
        r@ == path_text(old(rng).state(), i as nat),
        final(rng).state() == xorshift_n(old(rng).state(), if draw(old(rng).state(), 0, 4) == 0 { 1nat } else { 2nat }),
{
    let ghost s = rng.state();
    let stem = path_stem_str(i % PATH_STEM_COUNT);
    let kind = rng.below(4);
    let mut out: Vec<char> = Vec::new();
    push_str(&mut out, stem);
    proof {
        reveal_with_fuel(xorshift_n, 3);
    }
    if kind == 1 {
        push_str(&mut out, "/");
        let n = rng.below(100_000);
        push_decimal(&mut out, n);
    } else if kind == 2 {
        push_str(&mut out, "?id=");
        let n = rng.below(10_000);
        push_decimal(&mut out, n);
        push_str(&mut out, "&q=%EC%84%9C%EC%9A%B8");
    } else if kind == 3 {
        push_str(&mut out, "?page=");
        let n = rng.below(500);
        push_decimal(&mut out, n);
        push_str(&mut out, "&sort=desc");
    }
    assert(out@ =~= path_text(s, i as nat));
    chars_to_string(&out)
}

/// The methods of generated requests with their weights (out of 100).
pub open spec fn method_table() -> Seq<(&'static str, u64)> {
    seq![("GET", 80u64), ("POST", 12u64), ("PUT", 3u64), ("DELETE", 2u64), ("HEAD", 3u64)]
}

/// The statuses of generated requests with their weights (out of 100).
pub open spec fn status_table() -> Seq<(u16, u64)> {
    seq![(200u16, 82u64), (304u16, 5u64), (301u16, 3u64), (404u16, 6u64), (403u16, 1u64), (500u16, 2u64), (502u16, 1u64)]
}

/// The user agents of generated requests.
pub open spec fn agent_table() -> Seq<&'static str> {
    seq![
        "Mozilla/5.0 (Windows NT 10.0; Win64; x64) AppleWebKit/537.36 (KHTML, like Gecko) Chrome/124.0.0.0 Safari/537.36",
        "Mozilla/5.0 (Macintosh; Intel Mac OS X 14_4) AppleWebKit/605.1.15 (KHTML, like Gecko) Version/17.4 Safari/605.1.15",
        "Mozilla/5.0 (iPhone; CPU iPhone OS 17_4 like Mac OS X) AppleWebKit/605.1.15 (KHTML, like Gecko) Mobile/15E148",
        "Mozilla/5.0 (Linux; Android 14; SM-S918B) AppleWebKit/537.36 (KHTML, like Gecko) Chrome/124.0.0.0 Mobile Safari/537.36",
        "curl/8.6.0",
        "python-requests/2.31.0",
        "Googlebot/2.1 (+http://www.google.com/bot.html)",
        "Mozilla/5.0 (compatible; bingbot/2.0; +http://www.bing.com/bingbot.htm)",
        "okhttp/4.12.0",
        "Go-http-client/2.0",
        "-",
    ]
}

/// The referrers of generated requests.
pub open spec fn referrer_table() -> Seq<&'static str> {
    seq![
        "-",
        "-",
        "-",
        "https://www.google.com/",
        "https://example.com/start.html",
        "https://example.com/products?page=2",
        "https://t.co/abc123",
        "https://news.ycombinator.com/",
    ]
}

fn method_vec() -> (r: Vec<(&'static str, u64)>)
    ensures
        r@ == method_table(),
        weight_sum(r@) == 100,
{
    let mut v: Vec<(&'static str, u64)> = Vec::new();
    v.push(("GET", 80));
    v.push(("POST", 12));
    v.push(("PUT", 3));
    v.push(("DELETE", 2));
    v.push(("HEAD", 3));
    assert(v@ =~= method_table());
    proof {
        reveal_with_fuel(weight_sum, 6);
    }
    v
}

fn status_vec() -> (r: Vec<(u16, u64)>)
    ensures
        r@ == status_table(),
        weight_sum(r@) == 100,
{
    let mut v: Vec<(u16, u64)> = Vec::new();
    v.push((200, 82));
    v.push((304, 5));
    v.push((301, 3));
    v.push((404, 6));
    v.push((403, 1));
    v.push((500, 2));
    v.push((502, 1));
    assert(v@ =~= status_table());
    proof {
        reveal_with_fuel(weight_sum, 8);
    }
    v
}

fn agent_vec() -> (r: Vec<&'static str>)
    ensures
        r@ == agent_table(),
{
    let mut v: Vec<&'static str> = Vec::new();
    v.push("Mozilla/5.0 (Windows NT 10.0; Win64; x64) AppleWebKit/537.36 (KHTML, like Gecko) Chrome/124.0.0.0 Safari/537.36");
    v.push("Mozilla/5.0 (Macintosh; Intel Mac OS X 14_4) AppleWebKit/605.1.15 (KHTML, like Gecko) Version/17.4 Safari/605.1.15");
    v.push("Mozilla/5.0 (iPhone; CPU iPhone OS 17_4 like Mac OS X) AppleWebKit/605.1.15 (KHTML, like Gecko) Mobile/15E148");
    v.push("Mozilla/5.0 (Linux; Android 14; SM-S918B) AppleWebKit/537.36 (KHTML, like Gecko) Chrome/124.0.0.0 Mobile Safari/537.36");
    v.push("curl/8.6.0");
    v.push("python-requests/2.31.0");
    v.push("Googlebot/2.1 (+http://www.google.com/bot.html)");
    v.push("Mozilla/5.0 (compatible; bingbot/2.0; +http://www.bing.com/bingbot.htm)");
    v.push("okhttp/4.12.0");
    v.push("Go-http-client/2.0");
    v.push("-");
    assert(v@ =~= agent_table());
    v
}

fn referrer_vec() -> (r: Vec<&'static str>)
    ensures
        r@ == referrer_table(),
{
    let mut v: Vec<&'static str> = Vec::new();
    v.push("-");
    v.push("-");
    v.push("-");
    v.push("https://www.google.com/");
    v.push("https://example.com/start.html");
    v.push("https://example.com/products?page=2");
    v.push("https://t.co/abc123");
    v.push("https://news.ycombinator.com/");
    assert(v@ =~= referrer_table());
    v
}

/// The moment generated logs start: 2024-01-01T00:00:00Z.
pub const SYNTH_BASE_UTC: i64 = 1_704_067_200;

/// Lines written up to a minute late, per million.
pub const LATE_PER_MILLION: u64 = 50_000;

/// Requests without a byte count, per million.
pub const NO_BYTES_PER_MILLION: u64 = 30_000;

/// The most lines one generator writes (its clock stays within `i64`).
pub const MAX_SYNTH_LINES: u64 = 4_000_000_000_000_000_000;

/// The first W3C field list.
pub open spec fn w3c_fields_a() -> Seq<char> {
    "#Fields: date time s-ip cs-method cs-uri-stem cs-uri-query s-port cs-username c-ip cs(User-Agent) cs(Referer) sc-status sc-substatus sc-win32-status time-taken"@
}

/// The second W3C field list, which takes over halfway.
pub open spec fn w3c_fields_b() -> Seq<char> {
    "#Fields: date time c-ip cs-method cs-uri-stem cs-uri-query sc-status sc-bytes time-taken"@
}

/// The lines before the first record: four W3C directives, nothing for the other formats.
pub open spec fn synth_header(format: SynthFormat) -> Seq<Seq<char>> {
    if format == SynthFormat::W3c {
        seq![
            "#Software: Microsoft Internet Information Services 10.0"@,
            "#Version: 1.0"@,
            "#Date: 2024-01-01 00:00:00"@,
            w3c_fields_a(),
        ]
    } else {
        seq![]
    }
}

/// The text of a corrupt line.
pub open spec fn corrupt_text(a: u64, b: u64) -> Seq<char> {
    "corrupt line "@ + decimal(a as nat) + " <<>> "@ + decimal(b as nat)
}

/// What a data line draws: a blank line, a corrupt line with its two numbers, or a request.
pub enum DrawKind {
    /// A blank line.
    Blank,
    /// A corrupt line.
    Corrupt(u64, u64),
    /// A request.
    Request(RequestText),
}

/// One data line's draws: the clock after it, the line's moment (UTC seconds), the
/// generator state after it, and what the line is.
pub struct DataDraw {
    /// The clock after the line.
    pub clock: int,
    /// The line's moment.
    pub time: int,
    /// The generator state after the line.
    pub state: u64,
    /// What the line is.
    pub kind: DrawKind,
}

/// A request's draws from state `s`: address, target, method, status, byte count (absent
/// for 3% of draws), agent, referrer and, for W3C and the custom format, a time taken;
/// with the state after them.
pub open spec fn request_draw(format: SynthFormat, ips: Seq<Seq<char>>, paths: Seq<Seq<char>>, s: u64) -> (RequestText, u64) {
    let s1 = xorshift(s);
    let s2 = xorshift(s1);
    let s3 = xorshift(s2);
    let s4 = xorshift(s3);
    let s5 = xorshift(s4);
    let no_bytes = s5 % 1_000_000 < NO_BYTES_PER_MILLION;
    let s6 = if no_bytes { s5 } else { xorshift(s5) };
    let s7 = xorshift(s6);
    let s8 = xorshift(s7);
    let s9 = if format == SynthFormat::W3c || format == SynthFormat::CustomPipe { xorshift(s8) } else { s8 };
    let rt: u64 = if format == SynthFormat::W3c { s9 % 2000 } else if format == SynthFormat::CustomPipe { s9 % 5000 } else { 0 };
    (RequestText {
        ip: ips[(s1 % (ips.len() as u64)) as int],
        path: paths[(s2 % (paths.len() as u64)) as int],
        method: weighted_value(method_table(), (s3 % 100) as int)@,
        status: weighted_value(status_table(), (s4 % 100) as int),
        bytes: if no_bytes { None } else { Some(s6 % 200_000) },
        user_agent: agent_table()[(s7 % 11) as int]@,
        referrer: referrer_table()[(s8 % 8) as int]@,
        response_time: rt,
    }, s9)
}

/// One data line's draws from state `s` with the clock at `clock`: the clock moves 0 to 2
/// seconds; 5% of lines are up to 59 seconds late; then a blank line (below `blank` per
/// million), a corrupt line (below `error` per million) or a request.
pub open spec fn data_draw(format: SynthFormat, blank: u64, error: u64, ips: Seq<Seq<char>>, paths: Seq<Seq<char>>, s: u64, clock: int) -> DataDraw {
    let s1 = xorshift(s);
    let clock1 = clock + s1 % 3;
    let s2 = xorshift(s1);
    let late = s2 % 1_000_000 < LATE_PER_MILLION;
    let s3 = if late { xorshift(s2) } else { s2 };
    let time = if late { clock1 - s3 % 60 } else { clock1 };
    let s4 = xorshift(s3);
    if s4 % 1_000_000 < blank {
        DataDraw { clock: clock1, time, state: s4, kind: DrawKind::Blank }
    } else {
        let s5 = xorshift(s4);
        if s5 % 1_000_000 < error {
            let a = xorshift(s5);
            let b = xorshift(a);
            DataDraw { clock: clock1, time, state: b, kind: DrawKind::Corrupt(a, b) }
        } else {
            let (q, s6) = request_draw(format, ips, paths, s5);
            DataDraw { clock: clock1, time, state: s6, kind: DrawKind::Request(q) }
        }
    }
}

/// `text` is the data line drawn as `d`; a request is written at its moment shifted to
/// the format's local time, with the first W3C field list when `first_half`.
pub open spec fn data_line_holds(format: SynthFormat, d: DataDraw, first_half: bool, text: Seq<char>) -> bool {
    match d.kind {
        DrawKind::Blank => text == Seq::<char>::empty(),
        DrawKind::Corrupt(a, b) => text == corrupt_text(a, b),
        DrawKind::Request(q) => exists|c: CivilTime|
            civil_holds(d.time + (if format == SynthFormat::W3c { 0int } else { 32400int }), c)
                && text == #[trigger] line_text(format, c, q, first_half),
    }
}

/// The first `n` generated addresses from state `s`, and the state after them.
pub open spec fn ips_from(s: u64, n: nat) -> (Seq<Seq<char>>, u64)
    decreases n,
{
    if n == 0 {
        (seq![], s)
    } else {
        let (v, t) = ips_from(s, (n - 1) as nat);
        (v.push(ip_text(t, (n - 1) as nat)), xorshift_n(t, ip_draws((n - 1) as nat)))
    }
}

/// The first `n` generated request targets from state `s`, and the state after them.
pub open spec fn paths_from(s: u64, n: nat) -> (Seq<Seq<char>>, u64)
    decreases n,
{
    if n == 0 {
        (seq![], s)
    } else {
        let (v, t) = paths_from(s, (n - 1) as nat);
        (v.push(path_text(t, (n - 1) as nat)), xorshift_n(t, if draw(t, 0, 4) == 0 { 1nat } else { 2nat }))
    }
}

/// A request drawn from the random source (see [`request_draw`]).
fn draw_request(rng: &mut Rng, format: SynthFormat, ips: &Vec<String>, paths: &Vec<String>) -> (r: SynthRequest)
    requires
        ips@.len() > 0,
        paths@.len() > 0,
    ensures
        (request_text(r), final(rng).state()) == request_draw(format, strings_view(ips@), strings_view(paths@), old(rng).state()),
{
    let ghost s5 = rng.state();
    let ilen = ips.len();
    let plen = paths.len();
    let ip = rng.pick(ips.as_slice()).clone();
    let path = rng.pick(paths.as_slice()).clone();
    let methods = method_vec();
    let method = weighted(rng, methods.as_slice());
    let statuses = status_vec();
    let status = weighted(rng, statuses.as_slice());
    let no_bytes = rng.next_u64();
    let bytes: Option<u64> = if no_bytes % 1_000_000 < NO_BYTES_PER_MILLION {
        None
    } else {
        Some(rng.below(200_000))
    };
    let agents = agent_vec();
    let agent = *rng.pick(agents.as_slice());
    let referrers = referrer_vec();
    let referrer = *rng.pick(referrers.as_slice());
    let response_time: u64 = match format {
        SynthFormat::W3c => rng.below(2000),
        SynthFormat::CustomPipe => rng.below(5000),
        _ => 0,
    };
    let req = SynthRequest {
        ip,
        path,
        method: method.to_owned(),
        status,
        bytes,
        user_agent: agent.to_owned(),
        referrer: referrer.to_owned(),
        response_time,
    };
    proof {
        let (q, s6) = request_draw(format, strings_view(ips@), strings_view(paths@), s5);
        let k1 = (xorshift(s5) % (ips@.len() as u64)) as int;
        assert(ips@.len() == ilen);
        assert(0 <= k1 < ips@.len());
        assert(strings_view(ips@)[k1] == ips@[k1]@);
        let k2 = (xorshift(xorshift(s5)) % (paths@.len() as u64)) as int;
        assert(paths@.len() == plen);
        assert(0 <= k2 < paths@.len());
        assert(strings_view(paths@)[k2] == paths@[k2]@);
        assert(request_text(req) == q);
        assert(rng.state() == s6);
    }
    req
}

/// One call of [`SynthGen::next_lines`] from `g0`, leaving `g1` and giving `out`: with
/// data lines left, one is drawn, preceded halfway through a W3C log by the second field
/// list, and the state, clock and count move on; with none left, nothing changes and
/// nothing is given.
pub open spec fn synth_step(g0: SynthGen, g1: SynthGen, out: Seq<Seq<char>>) -> bool {
    &&& g1.wf()
    &&& g1.format() == g0.format() && g1.lines() == g0.lines()
    &&& g1.blank() == g0.blank() && g1.error() == g0.error()
    &&& g1.ips_view() == g0.ips_view() && g1.paths_view() == g0.paths_view()
    &&& g0.next() >= g0.lines() ==> out.len() == 0 && g1.state() == g0.state() && g1.clock() == g0.clock()
        && g1.next() == g0.next()
    &&& g0.next() < g0.lines() ==> ({
        let d = data_draw(g0.format(), g0.blank(), g0.error(), g0.ips_view(), g0.paths_view(), g0.state(), g0.clock());
        let second = g0.format() == SynthFormat::W3c && g0.next() == g0.lines() / 2;
        &&& g1.state() == d.state
        &&& g1.clock() == d.clock
        &&& g1.next() == g0.next() + 1
        &&& out.len() == (if second { 2int } else { 1int })
        &&& second ==> out[0] == w3c_fields_b()
        &&& data_line_holds(g0.format(), d, g0.next() < g0.lines() / 2, out.last())
    })
}

/// A synthetic log generator: it writes its header, then one data line per step.
pub struct SynthGen {
    format: SynthFormat,
    lines: u64,
    blank: u64,
    error: u64,
    rng: Rng,
    ips: Vec<String>,
    paths: Vec<String>,
    clock: i64,
    next: u64,
}

impl SynthGen {
    /// The format written.
    pub closed spec fn format(&self) -> SynthFormat {
        self.format
    }

    /// The number of data lines.
    pub closed spec fn lines(&self) -> u64 {
        self.lines
    }

    /// Blank lines per million.
    pub closed spec fn blank(&self) -> u64 {
        self.blank
    }

    /// Corrupt lines per million.
    pub closed spec fn error(&self) -> u64 {
        self.error
    }

    /// The random source's state.
    pub closed spec fn state(&self) -> u64 {
        self.rng.state()
    }

    /// The generated client addresses.
    pub closed spec fn ips_view(&self) -> Seq<Seq<char>> {
        strings_view(self.ips@)
    }

    /// The generated request targets.
    pub closed spec fn paths_view(&self) -> Seq<Seq<char>> {
        strings_view(self.paths@)
    }

    /// The clock (UTC seconds).
    pub closed spec fn clock(&self) -> int {
        self.clock as int
    }

    /// The number of data lines written so far.
    pub closed spec fn next(&self) -> u64 {
        self.next
    }

    /// The generator's bounds hold: some addresses and targets, the clock within two
    /// seconds a line from the start, and no more lines written than asked for.
    pub closed spec fn wf(&self) -> bool {
        &&& self.ips@.len() > 0
        &&& self.paths@.len() > 0
        &&& self.next <= self.lines <= MAX_SYNTH_LINES
        &&& SYNTH_BASE_UTC <= self.clock <= SYNTH_BASE_UTC + 2 * self.next
    }

    /// A generator of `lines` data lines in `format` seeded with `seed`, with `blank` and
    /// `error` blank and corrupt lines per million, drawing `unique_ips` addresses and then
    /// `unique_paths` targets (at least one of each).
    pub fn new(format: SynthFormat, lines: u64, seed: u64, blank: u64, error: u64, unique_ips: usize, unique_paths: usize) -> (r: SynthGen)
        requires
            lines <= MAX_SYNTH_LINES,
            blank <= 1_000_000,
            error <= 1_000_000,
        ensures
            r.wf(),
            r.format() == format && r.lines() == lines && r.blank() == blank && r.error() == error,
            r.clock() == SYNTH_BASE_UTC && r.next() == 0,
            ({
                let ni: nat = if unique_ips == 0 { 1 } else { unique_ips as nat };
                let np: nat = if unique_paths == 0 { 1 } else { unique_paths as nat };
                let ia = ips_from(seed_state(seed), ni);
                let pa = paths_from(ia.1, np);
                &&& r.ips_view() == ia.0
                &&& r.paths_view() == pa.0
                &&& r.state() == pa.1
            }),
    {
        let mut rng = Rng::new(seed);
        let ni: usize = if unique_ips == 0 { 1 } else { unique_ips };
        let np: usize = if unique_paths == 0 { 1 } else { unique_paths };
        let mut ips: Vec<String> = Vec::new();
        let mut i: usize = 0;
        while i < ni
            invariant
                i <= ni,
                ips@.len() == i,
                ips_from(seed_state(seed), i as nat) == (strings_view(ips@), rng.state()),
            decreases ni - i,
        {
            let ip = synth_ip(&mut rng, i);
            ips.push(ip);
            assert(strings_view(ips@) =~= ips_from(seed_state(seed), i as nat).0.push(ip@));
            i = i + 1;
        }
        let ghost after_ips = rng.state();
        let mut paths: Vec<String> = Vec::new();
        let mut j: usize = 0;
        while j < np
            invariant
                j <= np,
                paths@.len() == j,
                paths_from(after_ips, j as nat) == (strings_view(paths@), rng.state()),
            decreases np - j,
        {
            let p = synth_path(&mut rng, j);
            paths.push(p);
            assert(strings_view(paths@) =~= paths_from(after_ips, j as nat).0.push(p@));
            j = j + 1;
        }
        SynthGen { format, lines, blank, error, rng, ips, paths, clock: SYNTH_BASE_UTC, next: 0 }
    }

    /// The lines of the next data line: the data line, preceded halfway through a W3C log
    /// by the second field list; nothing once all lines were written.
    #[verifier::spinoff_prover]
    #[verifier::rlimit(40)]
    pub fn next_lines(&mut self) -> (r: Vec<String>)
        requires
            old(self).wf(),
        ensures
            synth_step(*old(self), *final(self), strings_view(r@)),
    {
        if self.next >= self.lines {
            return Vec::new();
        }
        let ghost s0 = self.rng.state();
        let ghost c0 = self.clock as int;
        let ghost d = data_draw(self.format, self.blank, self.error, strings_view(self.ips@), strings_view(self.paths@), s0, c0);
        let i = self.next;
        let first_half = i < self.lines / 2;
        let mut out: Vec<String> = Vec::new();
        if self.format == SynthFormat::W3c && i == self.lines / 2 {
            out.push("#Fields: date time c-ip cs-method cs-uri-stem cs-uri-query sc-status sc-bytes time-taken".to_owned());
        }
        let step = self.rng.below(3);
        self.clock = self.clock + step as i64;
        let late = self.rng.next_u64();
        let t: i64 = if late % 1_000_000 < LATE_PER_MILLION {
            let back = self.rng.below(60);
            self.clock - back as i64
        } else {
            self.clock
        };
        self.next = i + 1;
        assert(self.clock == d.clock && t == d.time);
        let blank_draw = self.rng.next_u64();
        if blank_draw % 1_000_000 < self.blank {
            out.push(String::new());
            return out;
        }
        let error_draw = self.rng.next_u64();
        if error_draw % 1_000_000 < self.error {
            let a = self.rng.next_u64();
            let b = self.rng.next_u64();
            let mut v: Vec<char> = Vec::new();
            push_str(&mut v, "corrupt line ");
            push_decimal(&mut v, a);
            push_str(&mut v, " <<>> ");
            push_decimal(&mut v, b);
            out.push(chars_to_string(&v));
            return out;
        }
        let req = draw_request(&mut self.rng, self.format, &self.ips, &self.paths);
        let fields = civil(t + local_offset_secs(self.format));
        let line = synth_line(self.format, fields, &req, first_half);
        out.push(line);
        out
    }

    /// The lines before the first record (see [`synth_header`]).
    pub fn header_lines(&self) -> (r: Vec<String>)
        ensures
            strings_view(r@) == synth_header(self.format()),
    {
        let mut v: Vec<String> = Vec::new();
        if self.format == SynthFormat::W3c {
            v.push("#Software: Microsoft Internet Information Services 10.0".to_owned());
            v.push("#Version: 1.0".to_owned());
            v.push("#Date: 2024-01-01 00:00:00".to_owned());
            v.push("#Fields: date time s-ip cs-method cs-uri-stem cs-uri-query s-port cs-username c-ip cs(User-Agent) cs(Referer) sc-status sc-substatus sc-win32-status time-taken".to_owned());
        }
        assert(strings_view(v@) =~= synth_header(self.format));
        v
    }
}

/// The lines a log of `lines` data lines in `format` holds after its header: one per data
/// line, and in a W3C log with data lines one more, the second field list.
pub open spec fn synth_body_len(format: SynthFormat, lines: nat) -> nat {
    lines + if format == SynthFormat::W3c && lines > 0 { 1nat } else { 0nat }
}

/// The number of lines a run of calls gave.
pub open spec fn lines_given(outs: Seq<Seq<Seq<char>>>) -> nat
    decreases outs.len(),
{
    if outs.len() == 0 {
        0
    } else {
        lines_given(outs.drop_last()) + outs.last().len()
    }
}

/// Along a run of calls from a generator with no data line written, call `k` is the
/// `k`-th data line, and the lines given so far are one per data line plus the second
/// field list once it was passed.
#[verifier::spinoff_prover]
#[verifier::rlimit(50)]
proof fn lemma_generation_prefix(gs: Seq<SynthGen>, outs: Seq<Seq<Seq<char>>>, k: int)
    requires
        gs.len() == outs.len() + 1,
        gs[0].next() == 0,
        outs.len() <= gs[0].lines(),
        forall|i: int| 0 <= i < outs.len() ==> synth_step(#[trigger] gs[i], gs[i + 1], outs[i]),
        0 <= k <= outs.len(),
    ensures
        gs[k].next() == k,
        gs[k].lines() == gs[0].lines() && gs[k].format() == gs[0].format(),
        lines_given(outs.take(k)) == k + if gs[0].format() == SynthFormat::W3c && gs[0].lines() / 2 < k {
            1int
        } else {
            0int
        },
    decreases k,
{
    if k > 0 {
        lemma_generation_prefix(gs, outs, k - 1);
        assert(synth_step(gs[k - 1], gs[k], outs[k - 1]));
        assert(outs.take(k).drop_last() =~= outs.take(k - 1));
        assert(outs.take(k).last() == outs[k - 1]);
    } else {
        assert(outs.take(0).len() == 0);
    }
}

/// A whole generation gives exactly the lines asked for. From a generator with no data
/// line written, the calls of [`SynthGen::next_lines`], as many as the data lines asked
/// for, each give lines (call `k` draws data line `k`), together give one line per data
/// line plus, in a W3C log with data lines, the second field list (the header's lines
/// come before them, see [`synth_header`]); the generator then has written all its data
/// lines, and every later call gives nothing.
pub proof fn lemma_generation_line_count(gs: Seq<SynthGen>, outs: Seq<Seq<Seq<char>>>)
    requires
        gs.len() == outs.len() + 1,
        gs[0].next() == 0,
        outs.len() == gs[0].lines(),
        forall|i: int| 0 <= i < outs.len() ==> synth_step(#[trigger] gs[i], gs[i + 1], outs[i]),
    ensures
        forall|i: int| 0 <= i < outs.len() ==> (#[trigger] gs[i]).next() == i && outs[i].len() > 0,
        lines_given(outs) == synth_body_len(gs[0].format(), gs[0].lines() as nat),
        gs.last().next() == gs.last().lines(),
        forall|g: SynthGen, out: Seq<Seq<char>>| #[trigger] synth_step(gs.last(), g, out) ==> out.len() == 0,
{
    assert forall|i: int| 0 <= i < outs.len() implies (#[trigger] gs[i]).next() == i && outs[i].len() > 0 by {
        lemma_generation_prefix(gs, outs, i);
        assert(synth_step(gs[i], gs[i + 1], outs[i]));
    }
    let n = outs.len() as int;
    lemma_generation_prefix(gs, outs, n);
    assert(outs.take(n) =~= outs);
}

/// A drawn data line has one text: two texts that both hold it are the same.
pub proof fn lemma_data_line_unique(format: SynthFormat, d: DataDraw, first_half: bool, t1: Seq<char>, t2: Seq<char>)
    requires
        data_line_holds(format, d, first_half, t1),
        data_line_holds(format, d, first_half, t2),
    ensures
        t1 == t2,
{
    match d.kind {
        DrawKind::Request(q) => {
            let secs = d.time + (if format == SynthFormat::W3c { 0int } else { 32400int });
            let c1 = choose|c: CivilTime| civil_holds(secs, c) && t1 == #[trigger] line_text(format, c, q, first_half);
            let c2 = choose|c: CivilTime| civil_holds(secs, c) && t2 == #[trigger] line_text(format, c, q, first_half);
            lemma_civil_unique(secs, c1, c2);
        },
        _ => {},
    }
}

/// Two generators alike in every respect that the generation depends on.
pub open spec fn same_generator(g: SynthGen, h: SynthGen) -> bool {
    &&& g.format() == h.format() && g.lines() == h.lines()
    &&& g.blank() == h.blank() && g.error() == h.error()
    &&& g.state() == h.state() && g.clock() == h.clock() && g.next() == h.next()
    &&& g.ips_view() == h.ips_view() && g.paths_view() == h.paths_view()
}

/// Along two runs from alike generators, the generators stay alike and the calls so far
/// gave the same lines.
#[verifier::spinoff_prover]
#[verifier::rlimit(50)]
proof fn lemma_runs_agree(
    gs: Seq<SynthGen>,
    outs: Seq<Seq<Seq<char>>>,
    hs: Seq<SynthGen>,
    outs2: Seq<Seq<Seq<char>>>,
    k: int,
)
    requires
        gs.len() == outs.len() + 1,
        hs.len() == gs.len() && outs2.len() == outs.len(),
        same_generator(gs[0], hs[0]),
        forall|i: int| 0 <= i < outs.len() ==> synth_step(#[trigger] gs[i], gs[i + 1], outs[i]),
        forall|i: int| 0 <= i < outs2.len() ==> synth_step(#[trigger] hs[i], hs[i + 1], outs2[i]),
        0 <= k <= outs.len(),
    ensures
        same_generator(gs[k], hs[k]),
        forall|i: int| 0 <= i < k ==> outs[i] == #[trigger] outs2[i],
    decreases k,
{
    if k > 0 {
        let j = k - 1;
        lemma_runs_agree(gs, outs, hs, outs2, j);
        let g0 = gs[j];
        let h0 = hs[j];
        assert(synth_step(g0, gs[k], outs[j]));
        assert(synth_step(h0, hs[k], outs2[j]));
        if g0.next() < g0.lines() {
            let d = data_draw(g0.format(), g0.blank(), g0.error(), g0.ips_view(), g0.paths_view(), g0.state(), g0.clock());
            lemma_data_line_unique(g0.format(), d, g0.next() < g0.lines() / 2, outs[j].last(), outs2[j].last());
            assert(outs[j] =~= outs2[j]);
        } else {
            assert(outs[j] =~= outs2[j]);
        }
    }
}

/// A generation is the same for the same start: two runs of calls of
/// [`SynthGen::next_lines`] from alike generators (as [`SynthGen::new`] makes them from
/// equal arguments: format, count, seed, rates and pool sizes) give the same lines, call
/// by call.
pub proof fn lemma_generation_deterministic(
    gs: Seq<SynthGen>,
    outs: Seq<Seq<Seq<char>>>,
    hs: Seq<SynthGen>,
    outs2: Seq<Seq<Seq<char>>>,
)
    requires
        gs.len() == outs.len() + 1,
        hs.len() == gs.len() && outs2.len() == outs.len(),
        same_generator(gs[0], hs[0]),
        forall|i: int| 0 <= i < outs.len() ==> synth_step(#[trigger] gs[i], gs[i + 1], outs[i]),
        forall|i: int| 0 <= i < outs2.len() ==> synth_step(#[trigger] hs[i], hs[i + 1], outs2[i]),
    ensures
        outs == outs2,
{
    lemma_runs_agree(gs, outs, hs, outs2, outs.len() as int);
    assert(outs =~= outs2);
}

} // verus!
