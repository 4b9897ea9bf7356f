//! The calendar behind formatted timestamps keeps time's order: a later
//! day has a later (year, month, day), and the text `YYYY-MM-DD HH:MM`
//! of a later timestamp sorts no earlier.

use vstd::prelude::*;
use crate::probe::{
    law_format_constant_within_minute, lemma_minute_parts, max_reasonable_ts, spec_civil_from_days,
    spec_format_unix_ts, zero_pad,
};
use crate::rules::is_digit;
use crate::text::{decimal, digit_char, lex_lt};

verus! {

/// The first day of year-of-era `y` (years start on 1 March).
pub open spec fn year_start(y: int) -> int {
    365 * y + y / 4 - y / 100
}

pub open spec fn yoe_of(doe: int) -> int {
    (doe - doe / 1460 + doe / 36524 - doe / 146096) / 365
}

pub open spec fn mp_of(doy: int) -> int {
    (5 * doy + 2) / 153
}

pub open spec fn day_of(doy: int) -> int {
    doy - (153 * mp_of(doy) + 2) / 5 + 1
}

pub open spec fn month_of(mp: int) -> int {
    if mp < 10 {
        mp + 3
    } else {
        mp - 9
    }
}

/// (year of era, counted from January; month; day) of day `doe` of an era.
pub open spec fn civil_local(doe: int) -> (int, int, int) {
    let y = yoe_of(doe);
    let doy = doe - year_start(y);
    let m = month_of(mp_of(doy));
    (if m <= 2 {
        y + 1
    } else {
        y
    }, m, day_of(doy))
}

/// Lexicographic order of (year, month, day).
pub open spec fn date_lt(a: (int, int, int), b: (int, int, int)) -> bool {
    a.0 < b.0 || (a.0 == b.0 && (a.1 < b.1 || (a.1 == b.1 && a.2 < b.2)))
}

#[verifier::rlimit(100)]
proof fn lemma_year_start_bound(doe: u64, y: u64)
    requires
        doe < 146097,
        y == (doe - doe / 1460 + doe / 36524 - doe / 146096) / 365,
    ensures
        365 * y + y / 4 - y / 100 <= doe,
        doe < 365 * (y + 1) + (y + 1) / 4 - (y + 1) / 100 || (y == 399 && doe == 146096),
        y <= 399,
{
    assert(365 * y + y / 4 - y / 100 <= doe) by (bit_vector)
        requires
            doe < 146097,
            y == (doe - doe / 1460 + doe / 36524 - doe / 146096) / 365,
    ;
}

/// The year of era a day falls in: it starts no later than the day, and
/// the next one starts after it (the era's last day, a 29 February, is
/// the 366th day of year 399).
proof fn lemma_year_of(doe: int)
    requires
        0 <= doe < 146097,
    ensures
        0 <= yoe_of(doe) <= 399,
        year_start(yoe_of(doe)) <= doe,
        doe < year_start(yoe_of(doe) + 1) || (yoe_of(doe) == 399 && doe == 146096),
{
    lemma_year_start_bound(doe as u64, yoe_of(doe) as u64);
}

/// Within a year, a day either stays in its month and moves to the next
/// day, or starts the next month.
proof fn lemma_month_step(doy: int)
    requires
        0 <= doy < 365,
    ensures
        0 <= mp_of(doy) <= 11,
        1 <= day_of(doy) <= 31,
        (mp_of(doy + 1) == mp_of(doy) && day_of(doy + 1) == day_of(doy) + 1) || (mp_of(doy + 1)
            == mp_of(doy) + 1 && day_of(doy + 1) == 1),
{
}

proof fn lemma_month_bounds(doy: int)
    requires
        0 <= doy <= 365,
    ensures
        0 <= mp_of(doy) <= 11,
        1 <= day_of(doy) <= 31,
        doy >= 364 ==> mp_of(doy) == 11,
        doy <= 305 ==> mp_of(doy) <= 9,
{
}

/// The next day of an era has a later date.
proof fn lemma_local_step(doe: int)
    requires
        0 <= doe < 146096,
    ensures
        date_lt(civil_local(doe), civil_local(doe + 1)),
{
    lemma_year_of(doe);
    lemma_year_of(doe + 1);
    let y = yoe_of(doe);
    let y2 = yoe_of(doe + 1);
    let doy = doe - year_start(y);
    let doy2 = doe + 1 - year_start(y2);
    if y2 == y {
        assert(doy2 == doy + 1);
        lemma_month_step(doy);
    } else {
        assert(y2 == y + 1);
        assert(doy2 == 0);
        lemma_month_bounds(doy);
        lemma_month_bounds(0);
    }
}

/// The date of a day count since 1970-01-01, for a non-negative count:
/// the era's years plus the day's place in its era.
proof fn lemma_civil_split(days: int)
    requires
        days >= 0,
    ensures
        ({
            let z = days + 719468;
            let era = z / 146097;
            let l = civil_local(z - era * 146097);
            spec_civil_from_days(days) == (l.0 + era * 400, l.1, l.2)
        }),
{
}

/// A later day has a later date.
pub proof fn lemma_civil_step(days: int)
    requires
        days >= 0,
    ensures
        date_lt(spec_civil_from_days(days), spec_civil_from_days(days + 1)),
{
    lemma_civil_split(days);
    lemma_civil_split(days + 1);
    let z = days + 719468;
    let era = z / 146097;
    let doe = z - era * 146097;
    if doe < 146096 {
        assert((z + 1) / 146097 == era);
        lemma_local_step(doe);
    } else {
        assert((z + 1) / 146097 == era + 1);
        assert(civil_local(146096) == (400int, 2int, 29int));
        assert(civil_local(0) == (0int, 3int, 1int));
    }
}

/// Dates keep the order of days.
pub proof fn lemma_civil_monotone(a: int, b: int)
    requires
        0 <= a < b,
    ensures
        date_lt(spec_civil_from_days(a), spec_civil_from_days(b)),
    decreases b - a,
{
    lemma_civil_step(b - 1);
    if a < b - 1 {
        lemma_civil_monotone(a, b - 1);
    }
}

/// Month and day stay in their ranges.
proof fn lemma_civil_ranges(days: int)
    requires
        days >= 0,
    ensures
        1 <= spec_civil_from_days(days).1 <= 12,
        1 <= spec_civil_from_days(days).2 <= 31,
{
    lemma_civil_split(days);
    let z = days + 719468;
    let era = z / 146097;
    let doe = z - era * 146097;
    lemma_year_of(doe);
    let y = yoe_of(doe);
    lemma_month_bounds(doe - year_start(y));
}

/// Two digits of a number below a hundred.
proof fn lemma_pad2(n: nat)
    requires
        n < 100,
    ensures
        zero_pad(n, 2) == seq![digit_char(n / 10), digit_char(n % 10)],
{
    if n < 10 {
        assert(decimal(n) == seq![digit_char(n)]);
        assert(zero_pad(n, 2) =~= seq![digit_char(n / 10), digit_char(n % 10)]);
    } else {
        assert(decimal(n / 10) == seq![digit_char(n / 10)]);
        assert(decimal(n) =~= seq![digit_char(n / 10), digit_char(n % 10)]);
    }
}

/// Four digits of a number below ten thousand.
proof fn lemma_pad4(n: nat)
    requires
        n < 10000,
    ensures
        zero_pad(n, 4) == seq![
            digit_char(n / 1000),
            digit_char((n / 100) % 10),
            digit_char((n / 10) % 10),
            digit_char(n % 10),
        ],
{
    let want = seq![
        digit_char(n / 1000),
        digit_char((n / 100) % 10),
        digit_char((n / 10) % 10),
        digit_char(n % 10),
    ];
    if n < 10 {
        assert(decimal(n) == seq![digit_char(n)]);
        assert(zero_pad(n, 4) =~= want);
    } else if n < 100 {
        assert(decimal(n / 10) == seq![digit_char(n / 10)]);
        assert(decimal(n) =~= seq![digit_char(n / 10), digit_char(n % 10)]);
        assert(zero_pad(n, 4) =~= want);
    } else if n < 1000 {
        assert(decimal(n / 100) == seq![digit_char(n / 100)]);
        assert(decimal(n / 10) =~= seq![digit_char(n / 100), digit_char((n / 10) % 10)]);
        assert(decimal(n) =~= seq![
            digit_char(n / 100),
            digit_char((n / 10) % 10),
            digit_char(n % 10),
        ]);
        assert(zero_pad(n, 4) =~= want);
    } else {
        assert(decimal(n / 1000) == seq![digit_char(n / 1000)]);
        assert(decimal(n / 100) =~= seq![digit_char(n / 1000), digit_char((n / 100) % 10)]);
        assert(decimal(n / 10) =~= seq![
            digit_char(n / 1000),
            digit_char((n / 100) % 10),
            digit_char((n / 10) % 10),
        ]);
        assert(decimal(n) =~= want);
    }
}

/// Digits are ordered as the numbers they stand for.
proof fn lemma_digit_order(a: nat, b: nat)
    requires
        a < b < 10,
    ensures
        digit_char(a) < digit_char(b),
{
}

/// Of two different numbers below a hundred, the first differing digit
/// is smaller in the smaller one.
proof fn lemma_two_digit_order(x: nat, y: nat)
    requires
        x < y < 100,
    ensures
        x / 10 < y / 10 || (x / 10 == y / 10 && x % 10 < y % 10),
{
}

proof fn lemma_four_digit_order(x: nat, y: nat)
    requires
        x < y < 10000,
    ensures
        x / 1000 < y / 1000 || (x / 1000 == y / 1000 && (x / 100) % 10 < (y / 100) % 10) || (x
            / 1000 == y / 1000 && (x / 100) % 10 == (y / 100) % 10 && (x / 10) % 10 < (y / 10)
            % 10) || (x / 1000 == y / 1000 && (x / 100) % 10 == (y / 100) % 10 && (x / 10) % 10
            == (y / 10) % 10 && x % 10 < y % 10),
{
}

/// A sequence is earlier than another of the same length when they agree
/// before some place and the first is smaller there.
proof fn lemma_lex_at(a: Seq<char>, b: Seq<char>, i: int)
    requires
        a.len() == b.len(),
        0 <= i < a.len(),
        forall|j: int| 0 <= j < i ==> a[j] == b[j],
        a[i] < b[i],
    ensures
        lex_lt(a, b),
    decreases i,
{
    if i > 0 {
        assert(a[0] == b[0]);
        lemma_lex_at(a.skip(1), b.skip(1), i - 1);
    }
}

/// `YYYY-MM-DD HH:MM` from the five numbers, each below its width's limit.
pub open spec fn stamp(y: nat, mo: nat, d: nat, h: nat, mi: nat) -> Seq<char> {
    seq![
        digit_char(y / 1000),
        digit_char((y / 100) % 10),
        digit_char((y / 10) % 10),
        digit_char(y % 10),
        '-',
        digit_char(mo / 10),
        digit_char(mo % 10),
        '-',
        digit_char(d / 10),
        digit_char(d % 10),
        ' ',
        digit_char(h / 10),
        digit_char(h % 10),
        ':',
        digit_char(mi / 10),
        digit_char(mi % 10),
    ]
}

/// The parts of a timestamp in range: its date, hour and minute.
pub open spec fn ts_parts(ts: u64) -> (int, int, int, int, int) {
    let days = ts / 86400;
    let secs = ts % 86400;
    let (y, m, d) = spec_civil_from_days(days as int);
    (y, m, d, (secs / 3600) as int, ((secs % 3600) / 60) as int)
}

/// The years shown run from 1970 to 9999.
proof fn lemma_year_range(days: int)
    requires
        0 <= days <= 2932896,
    ensures
        1970 <= spec_civil_from_days(days).0 <= 9999,
{
    assert(spec_civil_from_days(0) == (1970int, 1int, 1int));
    assert(spec_civil_from_days(2932896) == (9999int, 12int, 31int));
    if days > 0 {
        lemma_civil_monotone(0, days);
    }
    if days < 2932896 {
        lemma_civil_monotone(days, 2932896);
    }
}

/// A formatted timestamp in range is the stamp of its parts.
#[verifier::spinoff_prover]
#[verifier::rlimit(60)]
proof fn lemma_format_is_stamp(ts: u64)
    requires
        0 < ts <= max_reasonable_ts(),
    ensures
        ({
            let p = ts_parts(ts);
            &&& 1970 <= p.0 <= 9999
            &&& 1 <= p.1 <= 12
            &&& 1 <= p.2 <= 31
            &&& 0 <= p.3 < 24
            &&& 0 <= p.4 < 60
            &&& spec_format_unix_ts(ts) == stamp(
                p.0 as nat,
                p.1 as nat,
                p.2 as nat,
                p.3 as nat,
                p.4 as nat,
            )
        }),
{
    let days = ts / 86400;
    let p = ts_parts(ts);
    lemma_year_range(days as int);
    lemma_civil_ranges(days as int);
    lemma_pad4(p.0 as nat);
    lemma_pad2(p.1 as nat);
    lemma_pad2(p.2 as nat);
    lemma_pad2(p.3 as nat);
    lemma_pad2(p.4 as nat);
    assert(spec_format_unix_ts(ts) =~= stamp(
        p.0 as nat,
        p.1 as nat,
        p.2 as nat,
        p.3 as nat,
        p.4 as nat,
    ));
}

/// Lexicographic order of (year, month, day, hour, minute).
pub open spec fn parts_lt(p: (int, int, int, int, int), q: (int, int, int, int, int)) -> bool {
    date_lt((p.0, p.1, p.2), (q.0, q.1, q.2)) || ((p.0, p.1, p.2) == (q.0, q.1, q.2) && (p.3 < q.3
        || (p.3 == q.3 && p.4 < q.4)))
}

/// Stamps sort as their parts do.
proof fn lemma_stamp_order(p: (int, int, int, int, int), q: (int, int, int, int, int))
    requires
        0 <= p.0 < 10000,
        0 <= q.0 < 10000,
        0 <= p.1 < 100,
        0 <= q.1 < 100,
        0 <= p.2 < 100,
        0 <= q.2 < 100,
        0 <= p.3 < 100,
        0 <= q.3 < 100,
        0 <= p.4 < 100,
        0 <= q.4 < 100,
        parts_lt(p, q),
    ensures
        lex_lt(
            stamp(p.0 as nat, p.1 as nat, p.2 as nat, p.3 as nat, p.4 as nat),
            stamp(q.0 as nat, q.1 as nat, q.2 as nat, q.3 as nat, q.4 as nat),
        ),
{
    let a = stamp(p.0 as nat, p.1 as nat, p.2 as nat, p.3 as nat, p.4 as nat);
    let b = stamp(q.0 as nat, q.1 as nat, q.2 as nat, q.3 as nat, q.4 as nat);
    let (y, y2) = (p.0 as nat, q.0 as nat);
    if p.0 < q.0 {
        lemma_four_digit_order(y, y2);
        if y / 1000 < y2 / 1000 {
            lemma_digit_order(y / 1000, y2 / 1000);
            lemma_lex_at(a, b, 0);
        } else if (y / 100) % 10 < (y2 / 100) % 10 {
            lemma_digit_order((y / 100) % 10, (y2 / 100) % 10);
            lemma_lex_at(a, b, 1);
        } else if (y / 10) % 10 < (y2 / 10) % 10 {
            lemma_digit_order((y / 10) % 10, (y2 / 10) % 10);
            lemma_lex_at(a, b, 2);
        } else {
            lemma_digit_order(y % 10, y2 % 10);
            lemma_lex_at(a, b, 3);
        }
    } else if p.0 == q.0 && p.1 < q.1 {
        lemma_two_pair(a, b, p.1 as nat, q.1 as nat, 5);
    } else if p.0 == q.0 && p.1 == q.1 && p.2 < q.2 {
        lemma_two_pair(a, b, p.2 as nat, q.2 as nat, 8);
    } else if p.0 == q.0 && p.1 == q.1 && p.2 == q.2 && p.3 < q.3 {
        lemma_two_pair(a, b, p.3 as nat, q.3 as nat, 11);
    } else {
        lemma_two_pair(a, b, p.4 as nat, q.4 as nat, 14);
    }
}

/// Two stamps that agree before place `i`, where the smaller of two
/// two-digit numbers is written in both.
proof fn lemma_two_pair(a: Seq<char>, b: Seq<char>, x: nat, y: nat, i: int)
    requires
        a.len() == b.len(),
        0 <= i,
        i + 1 < a.len(),
        x < y < 100,
        forall|j: int| 0 <= j < i ==> a[j] == b[j],
        a[i] == digit_char(x / 10),
        a[i + 1] == digit_char(x % 10),
        b[i] == digit_char(y / 10),
        b[i + 1] == digit_char(y % 10),
    ensures
        lex_lt(a, b),
{
    lemma_two_digit_order(x, y);
    if x / 10 < y / 10 {
        lemma_digit_order(x / 10, y / 10);
        lemma_lex_at(a, b, i);
    } else {
        lemma_digit_order(x % 10, y % 10);
        lemma_lex_at(a, b, i + 1);
    }
}

/// The parts of two timestamps in different minutes follow their order.
proof fn lemma_parts_order(a: u64, b: u64)
    requires
        0 < a <= b,
        a / 60 < b / 60,
    ensures
        parts_lt(ts_parts(a), ts_parts(b)),
{
    lemma_minute_parts(a as int);
    lemma_minute_parts(b as int);
    let da = a / 86400;
    let db = b / 86400;
    assert(da <= db);
    if da < db {
        lemma_civil_monotone(da as int, db as int);
    } else {
        let ka = (a / 60) % 1440;
        let kb = (b / 60) % 1440;
        assert(ka < kb);
        lemma_two_part_minutes(ka as int, kb as int);
    }
}

proof fn lemma_two_part_minutes(x: int, y: int)
    requires
        0 <= x < y < 1440,
    ensures
        x / 60 < y / 60 || (x / 60 == y / 60 && x % 60 < y % 60),
{
}

proof fn lemma_digit_is_digit(n: nat)
    ensures
        is_digit(digit_char(n)),
{
}

/// Every stamp has the shape `DDDD-DD-DD DD:DD`.
proof fn lemma_stamp_shape(y: nat, mo: nat, d: nat, h: nat, mi: nat)
    ensures
        ({
            let s = stamp(y, mo, d, h, mi);
            &&& s.len() == 16
            &&& s[4] == '-'
            &&& s[7] == '-'
            &&& s[10] == ' '
            &&& s[13] == ':'
            &&& forall|i: int|
                0 <= i < 16 && i != 4 && i != 7 && i != 10 && i != 13 ==> is_digit(#[trigger] s[i])
        }),
{
    lemma_digit_is_digit(y / 1000);
    lemma_digit_is_digit((y / 100) % 10);
    lemma_digit_is_digit((y / 10) % 10);
    lemma_digit_is_digit(y % 10);
    lemma_digit_is_digit(mo / 10);
    lemma_digit_is_digit(mo % 10);
    lemma_digit_is_digit(d / 10);
    lemma_digit_is_digit(d % 10);
    lemma_digit_is_digit(h / 10);
    lemma_digit_is_digit(h % 10);
    lemma_digit_is_digit(mi / 10);
    lemma_digit_is_digit(mi % 10);
}

/// A timestamp in range reads as sixteen characters `YYYY-MM-DD HH:MM`:
/// digits, with `-`, `-`, a space and `:` at their places; and it shows
/// the minute, so dropping the seconds changes nothing.
pub proof fn law_format_shape(ts: u64)
    requires
        0 < ts <= max_reasonable_ts(),
    ensures
        spec_format_unix_ts(ts).len() == 16,
        spec_format_unix_ts(ts)[4] == '-',
        spec_format_unix_ts(ts)[7] == '-',
        spec_format_unix_ts(ts)[10] == ' ',
        spec_format_unix_ts(ts)[13] == ':',
        forall|i: int|
            0 <= i < 16 && i != 4 && i != 7 && i != 10 && i != 13 ==> is_digit(
                #[trigger] spec_format_unix_ts(ts)[i],
            ),
        ts >= 60 ==> spec_format_unix_ts(ts) == spec_format_unix_ts((ts - ts % 60) as u64),
{
    lemma_format_is_stamp(ts);
    let p = ts_parts(ts);
    lemma_stamp_shape(p.0 as nat, p.1 as nat, p.2 as nat, p.3 as nat, p.4 as nat);
    if ts >= 60 {
        assert(ts / 60 == (ts - ts % 60) as u64 / 60);
        law_format_constant_within_minute(ts, (ts - ts % 60) as u64);
    }
}

/// Formatted timestamps keep time's order: the text of an earlier
/// timestamp sorts no later than that of a later one.
pub proof fn law_format_order(a: u64, b: u64)
    requires
        0 < a <= b <= max_reasonable_ts(),
    ensures
        spec_format_unix_ts(a) == spec_format_unix_ts(b) || lex_lt(
            spec_format_unix_ts(a),
            spec_format_unix_ts(b),
        ),
{
    if a / 60 == b / 60 {
        law_format_constant_within_minute(a, b);
    } else {
        lemma_format_is_stamp(a);
        lemma_format_is_stamp(b);
        lemma_parts_order(a, b);
        lemma_stamp_order(ts_parts(a), ts_parts(b));
    }
}

} // verus!
