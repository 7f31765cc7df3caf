//! Recording market data: one file per symbol and day, written in row groups.
//!
//! Files and their format are handled elsewhere. Here is decided which day an
//! event belongs to, when the buffered events have to be written and when a file
//! has to be closed, and what stands in the columns.
use chrono::{DateTime, Datelike, NaiveDate};
use vstd::prelude::*;
use vstd::string::{StrSliceExecFns, StringExecFns};

use super::calendar::{
    day_number, day_order, days_before_month, following_day, following_day_has_next_number, is_day,
    numbers_grow, FIRST_YEAR, LAST_YEAR,
};
use crate::arith::{signed_column_round_trip, signed_reading, to_signed, to_unsigned, unsigned_reading};
use crate::text::{all_digits, dec_nat, decimal_value, digits_write_the_number, push_u64};
use crate::types::{FixedPrice, MarketEvent, MarketEventType, Side, UnixNanos};

verus! {

/// So many events are written together.
pub const ROW_GROUP_SIZE: usize = 8192;

/// Why market data could not be recorded.
#[derive(Debug)]
pub enum ParquetWriteError {
    Io(String),
    Write(String),
    Schema(String),
    /// No event has set the day yet.
    NoDate,
}

// ---------------------------------------------------------------------------
// Dates
// ---------------------------------------------------------------------------

/// A calendar day.
#[derive(Debug, Clone, Copy, PartialEq, Eq, Structural)]
pub struct Date {
    pub year: i32,
    pub month: u32,
    pub day: u32,
}

/// Whether month and day are within the bounds of any calendar month.
pub open spec fn plausible(month: u32, day: u32) -> bool {
    1 <= month <= 12 && 1 <= day <= 31
}

/// Nanoseconds to the day.
pub const NANOS_PER_DAY: u64 = 86_400_000_000_000;

/// `chrono::DateTime::from_timestamp` and `date_naive`: the UTC day of a second
/// since 1970-01-01, as year, month and day. A day has 86,400 seconds. There is an
/// answer as long as the second lies in the years of the calendar.
#[verifier::external_body]
fn utc_day_of(secs: i64) -> (r: Option<(i32, u32, u32)>)
    ensures
        r is Some <==> day_number(FIRST_YEAR as int, 1, 1) <= secs as int / 86_400 <= day_number(
            LAST_YEAR as int,
            12,
            31,
        ),
        r matches Some(day) ==> is_day(day.0 as int, day.1 as int, day.2 as int) && day_number(
            day.0 as int,
            day.1 as int,
            day.2 as int,
        ) == secs as int / 86_400,
{
    DateTime::from_timestamp(secs, 0).map(
        |at| (at.date_naive().year(), at.date_naive().month(), at.date_naive().day()),
    )
}

/// `chrono::NaiveDate::from_ymd_opt` and `succ_opt`: the next day of the calendar,
/// as year, month and day; nothing for what is no day, or for the last one.
#[verifier::external_body]
fn day_after(year: i32, month: u32, day: u32) -> (r: Option<(i32, u32, u32)>)
    ensures
        r is Some <==> following_day(year as int, month as int, day as int) is Some,
        r matches Some(next) ==> following_day(year as int, month as int, day as int) == Some(
            (next.0 as int, next.1 as int, next.2 as int),
        ),
{
    NaiveDate::from_ymd_opt(year, month, day).and_then(|date| date.succ_opt()).map(
        |next| (next.year(), next.month(), next.day()),
    )
}

impl Date {
    pub fn new(year: i32, month: u32, day: u32) -> (r: Self)
        ensures
            r == (Date { year, month, day }),
    {
        Date { year, month, day }
    }

    /// Whether there is such a day.
    pub open spec fn is_real(self) -> bool {
        is_day(self.year as int, self.month as int, self.day as int)
    }

    /// How many days after 1970-01-01 the day is.
    pub open spec fn number(self) -> int {
        day_number(self.year as int, self.month as int, self.day as int)
    }

    /// A number that orders days.
    pub open spec fn order(self) -> int {
        day_order(self.year as int, self.month as int, self.day as int)
    }

    /// Whether the day comes no later than another.
    pub fn is_by(&self, other: &Date) -> (r: bool)
        ensures
            r == (self.order() <= other.order()),
    {
        self.year as i64 * 512 + self.month as i64 * 32 + self.day as i64 <= other.year as i64 * 512
            + other.month as i64 * 32 + other.day as i64
    }

    /// The day whose parts are given.
    pub open spec fn of(parts: (int, int, int)) -> Date {
        Date { year: parts.0 as i32, month: parts.1 as u32, day: parts.2 as u32 }
    }

    /// The next day of the calendar.
    pub open spec fn next(self) -> Option<Date> {
        match following_day(self.year as int, self.month as int, self.day as int) {
            Some(parts) => Some(Date::of(parts)),
            None => None,
        }
    }

    pub fn successor(&self) -> (r: Option<Date>)
        ensures
            r == self.next(),
            r matches Some(next) ==> next.order() > self.order() && plausible(next.month, next.day),
    {
        match day_after(self.year, self.month, self.day) {
            Some((year, month, day)) => Some(Date { year, month, day }),
            None => None,
        }
    }
}

/// The day taken for a second: 2000-01-01 where the calendar has none.
pub fn resolve_day(day: Option<(i32, u32, u32)>) -> (r: Date)
    ensures
        r == (match day {
            Some((year, month, day)) => Date { year, month, day },
            None => Date { year: 2000, month: 1, day: 1 },
        }),
{
    match day {
        Some((year, month, day)) => Date { year, month, day },
        None => Date { year: 2000, month: 1, day: 1 },
    }
}

/// The UTC day of a point in time: the day with its number.
pub open spec fn date_of(nanos: u64) -> Date {
    choose|date: Date| #[trigger] date.is_real() && date.number() == nanos / NANOS_PER_DAY
}

pub fn nanos_to_date(nanos: u64) -> (r: Date)
    ensures
        r == date_of(nanos),
        r.is_real(),
        r.number() == nanos / NANOS_PER_DAY,
        1970 <= r.year <= 2554,
{
    let secs: u64 = nanos / 1_000_000_000;
    let day = utc_day_of(secs as i64);
    proof {
        lemma_reach_of_the_calendar();
        assert(secs as int / 86_400 == nanos / NANOS_PER_DAY);
    }
    let r = resolve_day(day);
    proof {
        lemma_days_of_nanos(r);
        one_day_per_number(r, date_of(nanos));
    }
    r
}

/// The numbers of the days that the proofs look up.
proof fn lemma_reach_of_the_calendar()
    ensures
        day_number(FIRST_YEAR as int, 1, 1) < 0,
        day_number(1969, 12, 31) == -1,
        day_number(1970, 1, 1) == 0,
        day_number(2555, 1, 1) == 213_667,
        day_number(LAST_YEAR as int, 12, 31) > 213_667,
{
    reveal_with_fuel(days_before_month, 13);
}

/// The days that a count of nanoseconds reaches lie in these years.
proof fn lemma_days_of_nanos(date: Date)
    requires
        date.is_real(),
        0 <= date.number() < 213_667,
    ensures
        1970 <= date.year <= 2554,
{
    lemma_reach_of_the_calendar();
    let parts = (date.year as int, date.month as int, date.day as int);
    if date.year < 1970 && parts != (1969int, 12int, 31int) {
        numbers_grow(parts, (1969, 12, 31));
    }
    if date.year > 2554 && parts != (2555int, 1int, 1int) {
        numbers_grow((2555, 1, 1), parts);
    }
}

/// Some day has the number.
proof fn lemma_day_with_number(number: int) -> (date: Date)
    requires
        0 <= number < 213_667,
    ensures
        date.is_real(),
        date.number() == number,
    decreases number,
{
    lemma_reach_of_the_calendar();
    if number == 0 {
        Date { year: 1970, month: 1, day: 1 }
    } else {
        let before = lemma_day_with_number(number - 1);
        lemma_days_of_nanos(before);
        following_day_has_next_number(
            before.year as int,
            before.month as int,
            before.day as int,
        );
        before.next()->Some_0
    }
}

/// Days are numbered in their order, and no two have the same number.
pub proof fn one_day_per_number(a: Date, b: Date)
    requires
        a.is_real(),
        b.is_real(),
    ensures
        a.number() == b.number() <==> a == b,
        a.number() < b.number() <==> a.order() < b.order(),
{
    let x = (a.year as int, a.month as int, a.day as int);
    let y = (b.year as int, b.month as int, b.day as int);
    if a.order() < b.order() {
        numbers_grow(x, y);
    } else if b.order() < a.order() {
        numbers_grow(y, x);
    }
}

/// Two points in time have the same date exactly where they lie in the same day of
/// 86,400 seconds, and a later day has a later date.
pub proof fn dates_follow_time(a: u64, b: u64)
    ensures
        date_of(a).is_real(),
        date_of(a).number() == a / NANOS_PER_DAY,
        date_of(a) == date_of(b) <==> a / NANOS_PER_DAY == b / NANOS_PER_DAY,
        date_of(a).order() < date_of(b).order() <==> a / NANOS_PER_DAY < b / NANOS_PER_DAY,
{
    let x = lemma_day_with_number((a / NANOS_PER_DAY) as int);
    let y = lemma_day_with_number((b / NANOS_PER_DAY) as int);
    assert(x.is_real() && y.is_real());
    one_day_per_number(date_of(a), date_of(b));
}

/// Whether the days run from `start` to `end`: each is the one after the one
/// before it, and the last is the last that is not after `end`.
pub open spec fn runs_through(days: Seq<Date>, start: Date, end: Date) -> bool {
    &&& days.len() == 0 <==> start.order() > end.order()
    &&& days.len() > 0 ==> days[0] == start
    &&& forall|i: int| 0 <= i < days.len() ==> (#[trigger] days[i]).order() <= end.order()
    &&& forall|i: int|
        0 <= i < days.len() - 1 ==> (#[trigger] days[i]).next() == Some(days[i + 1])
    &&& days.len() > 0 ==> (days.last().next() matches Some(next) ==> next.order() > end.order())
}

/// The days from `start` to `end`, both included.
pub fn days_between(start: Date, end: Date) -> (r: Vec<Date>)
    ensures
        runs_through(r@, start, end),
        forall|i: int| 0 <= i < r@.len() ==> start.order() <= (#[trigger] r@[i]).order(),
        plausible(start.month, start.day) ==> forall|i: int|
            0 <= i < r@.len() ==> plausible((#[trigger] r@[i]).month, r@[i].day),
{
    let mut days: Vec<Date> = Vec::new();
    let mut date = start;
    let mut going = start.is_by(&end);
    while going
        invariant
            going ==> date.order() <= end.order(),
            going ==> start.order() <= date.order(),
            going && plausible(start.month, start.day) ==> plausible(date.month, date.day),
            going && days@.len() == 0 ==> date == start,
            going && days@.len() > 0 ==> days@.last().next() == Some(date),
            !going && days@.len() == 0 ==> start.order() > end.order(),
            !going && days@.len() > 0 ==> (days@.last().next() matches Some(next) ==> next.order()
                > end.order()),
            days@.len() > 0 ==> days@[0] == start && start.order() <= end.order(),
            forall|i: int|
                0 <= i < days@.len() ==> start.order() <= (#[trigger] days@[i]).order()
                    <= end.order(),
            plausible(start.month, start.day) ==> forall|i: int|
                0 <= i < days@.len() ==> plausible((#[trigger] days@[i]).month, days@[i].day),
            forall|i: int|
                0 <= i < days@.len() - 1 ==> (#[trigger] days@[i]).next() == Some(days@[i + 1]),
        decreases
            (if going {
                end.order() - date.order() + 1
            } else {
                0
            }),
    {
        days.push(date);
        match date.successor() {
            Some(next) => {
                date = next;
                going = next.is_by(&end);
            },
            None => {
                going = false;
            },
        }
    }
    days
}

proof fn lemma_days_are_consecutive(days: Seq<Date>, start: Date, end: Date, i: int)
    requires
        runs_through(days, start, end),
        start.is_real(),
        0 <= i < days.len(),
    ensures
        days[i].is_real(),
        days[i].number() == start.number() + i,
    decreases i,
{
    if i > 0 {
        lemma_days_are_consecutive(days, start, end, i - 1);
        let before = days[i - 1];
        following_day_has_next_number(
            before.year as int,
            before.month as int,
            before.day as int,
        );
        assert(before.next() == Some(days[i]));
    }
}

/// A range of days holds every day from its first to its last once.
pub proof fn a_range_holds_each_day_once(days: Seq<Date>, start: Date, end: Date)
    requires
        runs_through(days, start, end),
        start.is_real(),
        end.is_real(),
        start.order() <= end.order(),
    ensures
        days.len() == end.number() - start.number() + 1,
        days.last() == end,
        forall|i: int|
            0 <= i < days.len() ==> (#[trigger] days[i]).is_real() && days[i].number()
                == start.number() + i,
{
    assert forall|i: int| 0 <= i < days.len() implies (#[trigger] days[i]).is_real()
        && days[i].number() == start.number() + i by {
        lemma_days_are_consecutive(days, start, end, i);
    }
    let last = days[days.len() - 1];
    assert(last.is_real() && last.order() <= end.order());
    one_day_per_number(last, end);
    if last.number() < end.number() {
        following_day_has_next_number(last.year as int, last.month as int, last.day as int);
        let next = last.next()->Some_0;
        one_day_per_number(next, end);
    }
}

/// The number with leading zeros up to `width` digits.
pub open spec fn padded(n: nat, width: nat) -> Seq<char> {
    if dec_nat(n).len() >= width {
        dec_nat(n)
    } else {
        Seq::new((width - dec_nat(n).len()) as nat, |i: int| '0') + dec_nat(n)
    }
}

proof fn lemma_digits(n: nat)
    ensures
        n < 10 ==> dec_nat(n).len() == 1,
        10 <= n < 100 ==> dec_nat(n).len() == 2,
        100 <= n < 1000 ==> dec_nat(n).len() == 3,
        1000 <= n ==> dec_nat(n).len() >= 4,
{
    reveal_with_fuel(dec_nat, 5);
}

fn push_padded2(out: &mut String, n: u32)
    requires
        n < 100,
    ensures
        final(out)@ == old(out)@ + padded(n as nat, 2),
{
    proof {
        lemma_digits(n as nat);
        reveal_strlit("0");
    }
    if n < 10 {
        out.append("0");
    }
    push_u64(out, n as u64);
    assert(out@ =~= old(out)@ + padded(n as nat, 2));
}

fn push_padded4(out: &mut String, n: u32)
    ensures
        final(out)@ == old(out)@ + padded(n as nat, 4),
{
    proof {
        lemma_digits(n as nat);
        reveal_strlit("0");
        reveal_strlit("00");
        reveal_strlit("000");
    }
    if n < 10 {
        out.append("000");
    } else if n < 100 {
        out.append("00");
    } else if n < 1000 {
        out.append("0");
    }
    push_u64(out, n as u64);
    assert(out@ =~= old(out)@ + padded(n as nat, 4));
}

/// The year with at least four digits, and with its sign where it is not one of
/// the years from 0 to 9999.
pub open spec fn year_text(year: int) -> Seq<char> {
    if year < 0 {
        "-"@ + padded((-year) as nat, 4)
    } else if year > 9999 {
        "+"@ + padded(year as nat, 4)
    } else {
        padded(year as nat, 4)
    }
}

fn push_year(out: &mut String, year: i32)
    ensures
        final(out)@ == old(out)@ + year_text(year as int),
{
    if year < 0 {
        out.append("-");
        push_padded4(out, (-(year as i64)) as u32);
    } else {
        if year > 9999 {
            out.append("+");
        }
        push_padded4(out, year as u32);
    }
    assert(out@ =~= old(out)@ + year_text(year as int));
}

/// The day as `YYYY-MM-DD`.
pub open spec fn date_text(date: Date) -> Seq<char> {
    year_text(date.year as int) + "-"@ + padded(date.month as nat, 2) + "-"@ + padded(
        date.day as nat,
        2,
    )
}

/// The path `base` followed by `part`. An absolute part stands for itself.
pub open spec fn joined(base: Seq<char>, part: Seq<char>) -> Seq<char> {
    if part.len() > 0 && part[0] == '/' {
        part
    } else if base.len() == 0 || base.last() == '/' {
        base + part
    } else {
        base + "/"@ + part
    }
}

fn join_path(base: String, part: &str) -> (r: String)
    ensures
        r@ == joined(base@, part@),
{
    if part.unicode_len() > 0 && part.get_char(0) == '/' {
        return part.to_owned();
    }
    let mut out = base;
    let len: usize = out.as_str().unicode_len();
    if len > 0 && out.as_str().get_char(len - 1) != '/' {
        out.append("/");
    }
    out.append(part);
    assert(out@ =~= joined(base@, part@));
    out
}

/// Where the market data of a symbol and a day is kept.
pub open spec fn recording_path(base_dir: Seq<char>, symbol: Seq<char>, date: Date) -> Seq<char> {
    joined(joined(joined(base_dir, "market"@), symbol), date_text(date) + ".parquet"@)
}

/// Where the market data of a symbol and a day is kept.
pub fn file_path_for(base_dir: &str, symbol: &str, date: Date) -> (r: String)
    requires
        plausible(date.month, date.day),
    ensures
        r@ == recording_path(base_dir@, symbol@, date),
{
    let mut name = String::new();
    push_year(&mut name, date.year);
    name.append("-");
    push_padded2(&mut name, date.month);
    name.append("-");
    push_padded2(&mut name, date.day);
    name.append(".parquet");
    assert(name@ =~= date_text(date) + ".parquet"@);
    let root = join_path(base_dir.to_owned(), "market");
    let dir = join_path(root, symbol);
    join_path(dir, name.as_str())
}

/// The files of a symbol for the days from `start` to `end`, in the order of the
/// days, whether they exist or not.
pub fn recording_paths(base_dir: &str, symbol: &str, start: Date, end: Date) -> (r: Vec<String>)
    requires
        plausible(start.month, start.day),
    ensures
        exists|days: Seq<Date>| #[trigger]
            runs_through(days, start, end) && r@.len() == days.len() && forall|i: int|
                0 <= i < days.len() ==> (#[trigger] r@[i])@ == recording_path(
                    base_dir@,
                    symbol@,
                    days[i],
                ),
{
    let days = days_between(start, end);
    let mut paths: Vec<String> = Vec::new();
    let mut i: usize = 0;
    while i < days.len()
        invariant
            i <= days@.len(),
            paths@.len() == i,
            forall|k: int|
                0 <= k < days@.len() ==> plausible((#[trigger] days@[k]).month, days@[k].day),
            forall|k: int|
                0 <= k < i ==> (#[trigger] paths@[k])@ == recording_path(
                    base_dir@,
                    symbol@,
                    days@[k],
                ),
        decreases days@.len() - i,
    {
        paths.push(file_path_for(base_dir, symbol, days[i]));
        i += 1;
    }
    assert(runs_through(days@, start, end));
    paths
}

/// Remembers the day that is being recorded.
#[derive(Debug, Clone, Copy, PartialEq, Eq, Structural)]
pub struct DateTracker {
    pub current_date: Option<Date>,
}

impl Default for DateTracker {
    fn default() -> (r: Self)
        ensures
            r.current_date is None,
    {
        DateTracker::new()
    }
}

impl DateTracker {
    pub fn new() -> (r: Self)
        ensures
            r.current_date is None,
    {
        DateTracker { current_date: None }
    }

    /// Moves to a day, and tells it where it is another one than before.
    pub fn check_rollover(&mut self, event_date: Date) -> (r: Option<Date>)
        ensures
            final(self).current_date == Some(event_date),
            r == (if old(self).current_date == Some(event_date) {
                None
            } else {
                Some(event_date)
            }),
    {
        match self.current_date {
            Some(current) => {
                if current == event_date {
                    return None;
                }
            },
            None => {},
        }
        self.current_date = Some(event_date);
        Some(event_date)
    }

    pub fn current_date(&self) -> (r: Option<Date>)
        ensures
            r == self.current_date,
    {
        self.current_date
    }
}

// ---------------------------------------------------------------------------
// Columns
// ---------------------------------------------------------------------------

/// The number that stands for an event type.
pub open spec fn event_type_code(event_type: MarketEventType) -> i8 {
    match event_type {
        MarketEventType::Trade => 0,
        MarketEventType::BidUpdate => 1,
        MarketEventType::AskUpdate => 2,
        MarketEventType::BookSnapshot => 3,
    }
}

pub fn event_type_to_i8(event_type: MarketEventType) -> (r: i8)
    ensures
        r == event_type_code(event_type),
{
    match event_type {
        MarketEventType::Trade => 0,
        MarketEventType::BidUpdate => 1,
        MarketEventType::AskUpdate => 2,
        MarketEventType::BookSnapshot => 3,
    }
}

/// The event type that a number stands for; unknown numbers count as trades.
pub open spec fn coded_event_type(code: i8) -> MarketEventType {
    if code == 1 {
        MarketEventType::BidUpdate
    } else if code == 2 {
        MarketEventType::AskUpdate
    } else if code == 3 {
        MarketEventType::BookSnapshot
    } else {
        MarketEventType::Trade
    }
}

pub fn i8_to_event_type(v: i8) -> (r: MarketEventType)
    ensures
        r == coded_event_type(v),
{
    match v {
        0 => MarketEventType::Trade,
        1 => MarketEventType::BidUpdate,
        2 => MarketEventType::AskUpdate,
        3 => MarketEventType::BookSnapshot,
        _ => MarketEventType::Trade,
    }
}

/// The number that stands for a side, or for none.
pub open spec fn side_column_code(side: Option<Side>) -> int {
    match side {
        Some(Side::Buy) => 0,
        Some(Side::Sell) => 1,
        None => -1,
    }
}

pub fn side_to_i8(side: Option<Side>) -> (r: i8)
    ensures
        r == side_column_code(side),
{
    match side {
        Some(Side::Buy) => 0,
        Some(Side::Sell) => 1,
        None => -1,
    }
}

/// The side that a number stands for, if any.
pub open spec fn coded_column_side(code: i8) -> Option<Side> {
    if code == 0 {
        Some(Side::Buy)
    } else if code == 1 {
        Some(Side::Sell)
    } else {
        None
    }
}

pub fn i8_to_side(v: i8) -> (r: Option<Side>)
    ensures
        r == coded_column_side(v),
{
    match v {
        0 => Some(Side::Buy),
        1 => Some(Side::Sell),
        _ => None,
    }
}

/// Market data by column, all of one length.
#[derive(Debug)]
pub struct MarketColumns {
    pub timestamps: Vec<i64>,
    pub prices: Vec<i64>,
    pub sizes: Vec<u32>,
    pub sides: Vec<i8>,
    pub event_types: Vec<i8>,
    pub symbol_ids: Vec<u32>,
}

impl MarketColumns {
    /// Whether every column has so many rows.
    pub open spec fn has_rows(&self, rows: nat) -> bool {
        &&& self.timestamps@.len() == rows
        &&& self.prices@.len() == rows
        &&& self.sizes@.len() == rows
        &&& self.sides@.len() == rows
        &&& self.event_types@.len() == rows
        &&& self.symbol_ids@.len() == rows
    }

    /// Whether a row holds an event.
    pub open spec fn row_holds(&self, i: int, event: MarketEvent) -> bool {
        &&& self.timestamps@[i] == signed_reading(event.timestamp.nanos as int)
        &&& self.prices@[i] == event.price.quarter_ticks
        &&& self.sizes@[i] == event.size
        &&& self.sides@[i] == side_column_code(event.side)
        &&& self.event_types@[i] == event_type_code(event.event_type)
        &&& self.symbol_ids@[i] == event.symbol_id
    }

    /// The event that a row stands for. Sequence numbers are not recorded.
    pub open spec fn row_event(&self, i: int) -> MarketEvent {
        MarketEvent {
            timestamp: UnixNanos { nanos: unsigned_reading(self.timestamps@[i] as int) as u64 },
            symbol_id: self.symbol_ids@[i],
            sequence: 0,
            event_type: coded_event_type(self.event_types@[i]),
            price: FixedPrice { quarter_ticks: self.prices@[i] },
            size: self.sizes@[i],
            side: coded_column_side(self.sides@[i]),
        }
    }

    /// The columns of some events.
    pub fn encode(events: &Vec<MarketEvent>) -> (r: MarketColumns)
        ensures
            r.has_rows(events@.len()),
            forall|i: int| 0 <= i < events@.len() ==> r.row_holds(i, #[trigger] events@[i]),
    {
        let mut columns = MarketColumns {
            timestamps: Vec::new(),
            prices: Vec::new(),
            sizes: Vec::new(),
            sides: Vec::new(),
            event_types: Vec::new(),
            symbol_ids: Vec::new(),
        };
        let mut i: usize = 0;
        while i < events.len()
            invariant
                i <= events@.len(),
                columns.has_rows(i as nat),
                forall|j: int| 0 <= j < i ==> columns.row_holds(j, #[trigger] events@[j]),
            decreases events@.len() - i,
        {
            let event = events[i];
            columns.timestamps.push(to_signed(event.timestamp.nanos));
            columns.prices.push(event.price.raw());
            columns.sizes.push(event.size);
            columns.sides.push(side_to_i8(event.side));
            columns.event_types.push(event_type_to_i8(event.event_type));
            columns.symbol_ids.push(event.symbol_id);
            i += 1;
        }
        columns
    }

    /// The events of the rows, in order.
    pub fn decode(&self) -> (r: Vec<MarketEvent>)
        requires
            self.has_rows(self.timestamps@.len()),
        ensures
            r@ == Seq::new(self.timestamps@.len(), |i: int| self.row_event(i)),
    {
        let mut events: Vec<MarketEvent> = Vec::new();
        let mut i: usize = 0;
        while i < self.timestamps.len()
            invariant
                i <= self.timestamps@.len(),
                self.has_rows(self.timestamps@.len()),
                events@ == Seq::new(i as nat, |j: int| self.row_event(j)),
            decreases self.timestamps@.len() - i,
        {
            events.push(
                MarketEvent {
                    timestamp: UnixNanos::new(to_unsigned(self.timestamps[i])),
                    symbol_id: self.symbol_ids[i],
                    sequence: 0,
                    event_type: i8_to_event_type(self.event_types[i]),
                    price: FixedPrice::new(self.prices[i]),
                    size: self.sizes[i],
                    side: i8_to_side(self.sides[i]),
                },
            );
            assert(events@ =~= Seq::new((i + 1) as nat, |j: int| self.row_event(j)));
            i += 1;
        }
        events
    }
}

/// A recorded event is read back as it was, but for its sequence number.
pub proof fn recorded_event_round_trip(columns: MarketColumns, i: int, event: MarketEvent)
    requires
        columns.row_holds(i, event),
    ensures
        columns.row_event(i) == (MarketEvent { sequence: 0, ..event }),
{
    signed_column_round_trip(event.timestamp.nanos);
}

// ---------------------------------------------------------------------------
// Recorder
// ---------------------------------------------------------------------------

/// Buffers market events for the file of their day.
pub struct MarketDataWriter {
    buffer: Vec<MarketEvent>,
    date_tracker: DateTracker,
    events_written: u64,
}

/// The recorder as a mathematical value.
#[verifier::ext_equal]
pub struct WriterModel {
    pub buffer: Seq<MarketEvent>,
    pub date: Option<Date>,
    pub events_written: u64,
}

impl WriterModel {
    /// Every buffered event belongs to the day that is being recorded.
    pub open spec fn one_day(self) -> bool {
        forall|i: int|
            0 <= i < self.buffer.len() ==> self.date == Some(
                date_of((#[trigger] self.buffer[i]).timestamp.nanos),
            )
    }

    /// Whether the event belongs to another day than the one being recorded.
    pub open spec fn turns_page(self, event: MarketEvent) -> bool {
        self.date is Some && self.date != Some(date_of(event.timestamp.nanos))
    }
}

impl View for MarketDataWriter {
    type V = WriterModel;

    closed spec fn view(&self) -> WriterModel {
        WriterModel {
            buffer: self.buffer@,
            date: self.date_tracker.current_date,
            events_written: self.events_written,
        }
    }
}

impl MarketDataWriter {
    pub fn new() -> (r: Self)
        ensures
            r@ == (WriterModel { buffer: Seq::empty(), date: None, events_written: 0 }),
            r@.one_day(),
    {
        MarketDataWriter {
            buffer: Vec::new(),
            date_tracker: DateTracker::new(),
            events_written: 0,
        }
    }

    /// Whether the buffer has to be written and its file closed before this
    /// event is taken.
    pub fn rollover_due(&self, event: &MarketEvent) -> (r: bool)
        ensures
            r == self@.turns_page(*event),
    {
        match self.date_tracker.current_date() {
            Some(current) => current != nanos_to_date(event.timestamp.nanos),
            None => false,
        }
    }

    /// Takes an event, and tells whether the buffer has to be written now. Where
    /// a new day begins, the buffer has been written before.
    pub fn write_event(&mut self, event: &MarketEvent) -> (r: bool)
        requires
            old(self)@.one_day(),
            old(self)@.turns_page(*event) ==> old(self)@.buffer.len() == 0,
        ensures
            final(self)@ == (WriterModel {
                buffer: old(self)@.buffer.push(*event),
                date: Some(date_of(event.timestamp.nanos)),
                ..old(self)@
            }),
            final(self)@.one_day(),
            r == (final(self)@.buffer.len() >= ROW_GROUP_SIZE),
    {
        let _ = self.date_tracker.check_rollover(nanos_to_date(event.timestamp.nanos));
        self.buffer.push(*event);
        self.buffer.len() >= ROW_GROUP_SIZE
    }

    /// The columns to write, if there is anything to write.
    pub fn pending(&self) -> (r: Option<MarketColumns>)
        ensures
            r is Some <==> self@.buffer.len() > 0,
            r matches Some(columns) ==> columns.has_rows(self@.buffer.len()) && forall|i: int|
                0 <= i < self@.buffer.len() ==> columns.row_holds(i, #[trigger] self@.buffer[i]),
    {
        if self.buffer.len() == 0 {
            None
        } else {
            Some(MarketColumns::encode(&self.buffer))
        }
    }

    /// Notes that the buffer was written.
    pub fn mark_written(&mut self)
        requires
            old(self)@.events_written + old(self)@.buffer.len() <= u64::MAX,
        ensures
            final(self)@ == (WriterModel {
                buffer: Seq::empty(),
                events_written: (old(self)@.events_written + old(self)@.buffer.len()) as u64,
                ..old(self)@
            }),
            final(self)@.one_day(),
    {
        self.events_written = self.events_written + self.buffer.len() as u64;
        self.buffer.clear();
    }

    /// The day of the file to write to.
    pub fn file_date(&self) -> (r: Result<Date, ParquetWriteError>)
        ensures
            r is Ok <==> self@.date is Some,
            r matches Ok(date) ==> self@.date == Some(date),
            r matches Err(e) ==> e is NoDate,
    {
        match self.date_tracker.current_date() {
            Some(date) => Ok(date),
            None => Err(ParquetWriteError::NoDate),
        }
    }

    pub fn events_written(&self) -> (r: u64)
        ensures
            r == self@.events_written,
    {
        self.events_written
    }
}

/// The numbers that stand for the kinds of events and for their sides in a file.
pub proof fn codes_of_kinds_and_sides(
    kind: MarketEventType,
    side: Option<Side>,
    kind_code: i8,
    side_code: i8,
)
    ensures
        event_type_code(kind) == 0 <==> kind == MarketEventType::Trade,
        event_type_code(kind) == 1 <==> kind == MarketEventType::BidUpdate,
        event_type_code(kind) == 2 <==> kind == MarketEventType::AskUpdate,
        event_type_code(kind) == 3 <==> kind == MarketEventType::BookSnapshot,
        coded_event_type(kind_code) == MarketEventType::BidUpdate <==> kind_code == 1,
        coded_event_type(kind_code) == MarketEventType::AskUpdate <==> kind_code == 2,
        coded_event_type(kind_code) == MarketEventType::BookSnapshot <==> kind_code == 3,
        coded_event_type(kind_code) == MarketEventType::Trade <==> kind_code < 1 || kind_code > 3,
        side_column_code(side) == 0 <==> side == Some(Side::Buy),
        side_column_code(side) == 1 <==> side == Some(Side::Sell),
        side_column_code(side) == -1 <==> side is None,
        coded_column_side(side_code) == Some(Side::Buy) <==> side_code == 0,
        coded_column_side(side_code) == Some(Side::Sell) <==> side_code == 1,
        coded_column_side(side_code) is None <==> side_code < 0 || side_code > 1,
{
}

/// The columns of a file hold an event as it was seen, but for its sequence number.
pub proof fn columns_hold_the_event(columns: MarketColumns, i: int, event: MarketEvent)
    requires
        columns.row_holds(i, event),
    ensures
        event.timestamp.nanos <= i64::MAX ==> columns.timestamps@[i] == event.timestamp.nanos,
        columns.prices@[i] == event.price.quarter_ticks,
        columns.sizes@[i] == event.size,
        columns.symbol_ids@[i] == event.symbol_id,
        columns.row_event(i).timestamp == event.timestamp,
        columns.row_event(i).price == event.price,
        columns.row_event(i).size == event.size,
        columns.row_event(i).symbol_id == event.symbol_id,
        columns.row_event(i).side == event.side,
        columns.row_event(i).event_type == event.event_type,
        columns.row_event(i).sequence == 0,
{
    recorded_event_round_trip(columns, i, event);
}

/// A row is read as it stands.
pub proof fn rows_are_read_as_they_stand(columns: MarketColumns, i: int)
    ensures
        columns.timestamps@[i] >= 0 ==> columns.row_event(i).timestamp.nanos
            == columns.timestamps@[i],
        columns.row_event(i).price.quarter_ticks == columns.prices@[i],
        columns.row_event(i).size == columns.sizes@[i],
        columns.row_event(i).symbol_id == columns.symbol_ids@[i],
        columns.row_event(i).side == Some(Side::Buy) <==> columns.sides@[i] == 0,
        columns.row_event(i).side == Some(Side::Sell) <==> columns.sides@[i] == 1,
        columns.row_event(i).event_type == MarketEventType::BidUpdate <==> columns.event_types@[i]
            == 1,
        columns.row_event(i).event_type == MarketEventType::AskUpdate <==> columns.event_types@[i]
            == 2,
        columns.row_event(i).event_type == MarketEventType::BookSnapshot
            <==> columns.event_types@[i] == 3,
        columns.row_event(i).sequence == 0,
{
}

/// The recorder turns the page when an event belongs to another day than those
/// before it; the first event of all opens a page and turns none.
pub proof fn pages_turn_with_the_day(model: WriterModel, event: MarketEvent)
    ensures
        model.date is None ==> !model.turns_page(event),
        model.date matches Some(day) ==> (model.turns_page(event) <==> day != date_of(
            event.timestamp.nanos,
        )),
{
}

/// Zeros in front of a number change neither the number nor a text that is long
/// enough already.
pub proof fn padding_keeps_the_number(n: nat, width: nat)
    ensures
        decimal_value(padded(n, width)) == n,
        all_digits(padded(n, width)),
        padded(n, width).len() >= width,
        dec_nat(n).len() <= width ==> padded(n, width).len() == width,
        dec_nat(n).len() >= width ==> padded(n, width) == dec_nat(n),
{
    digits_write_the_number(n);
    if dec_nat(n).len() < width {
        lemma_leading_zeros((width - dec_nat(n).len()) as nat, dec_nat(n));
    }
}

proof fn lemma_leading_zeros(zeros: nat, s: Seq<char>)
    ensures
        decimal_value(Seq::new(zeros, |i: int| '0') + s) == decimal_value(s),
    decreases zeros + s.len(),
{
    let front = Seq::new(zeros, |i: int| '0');
    let whole = front + s;
    if s.len() > 0 {
        assert(whole.drop_last() =~= front + s.drop_last());
        assert(whole.last() == s.last());
        lemma_leading_zeros(zeros, s.drop_last());
    } else if zeros > 0 {
        let fewer = Seq::new((zeros - 1) as nat, |i: int| '0');
        assert(whole.drop_last() =~= fewer + s);
        lemma_leading_zeros((zeros - 1) as nat, s);
    }
}

/// A day of the years 0 to 9999 is written as `yyyy-mm-dd`.
pub proof fn days_are_written_year_month_day(date: Date)
    requires
        date.is_real(),
        0 <= date.year <= 9999,
    ensures
        date_text(date).len() == 10,
        date_text(date)[4] == '-',
        date_text(date)[7] == '-',
        decimal_value(date_text(date).subrange(0, 4)) == date.year,
        decimal_value(date_text(date).subrange(5, 7)) == date.month,
        decimal_value(date_text(date).subrange(8, 10)) == date.day,
{
    lemma_digits(date.year as nat);
    lemma_four_digits(date.year as nat);
    lemma_digits(date.month as nat);
    lemma_digits(date.day as nat);
    padding_keeps_the_number(date.year as nat, 4);
    padding_keeps_the_number(date.month as nat, 2);
    padding_keeps_the_number(date.day as nat, 2);
    reveal_strlit("-");
    assert("-"@.len() == 1 && "-"@[0] == '-');
    let text = date_text(date);
    assert(text.subrange(0, 4) =~= padded(date.year as nat, 4));
    assert(text.subrange(5, 7) =~= padded(date.month as nat, 2));
    assert(text.subrange(8, 10) =~= padded(date.day as nat, 2));
}

proof fn lemma_four_digits(n: nat)
    requires
        n <= 9999,
    ensures
        dec_nat(n).len() <= 4,
{
    reveal_with_fuel(dec_nat, 5);
}

/// A year beyond 9999 is written with a plus in front of it and one before the year
/// 0 with a minus, so that no other year starts with a sign.
pub proof fn far_years_carry_a_sign(year: int)
    ensures
        0 <= year <= 9999 ==> decimal_value(year_text(year)) == year && all_digits(year_text(year)),
        year > 9999 ==> year_text(year)[0] == '+' && decimal_value(year_text(year).skip(1)) == year,
        year < 0 ==> year_text(year)[0] == '-' && decimal_value(year_text(year).skip(1)) == -year,
{
    reveal_strlit("+");
    reveal_strlit("-");
    assert("+"@.len() == 1 && "+"@[0] == '+');
    assert("-"@.len() == 1 && "-"@[0] == '-');
    if year < 0 {
        padding_keeps_the_number((-year) as nat, 4);
        assert(year_text(year).skip(1) =~= padded((-year) as nat, 4));
    } else {
        padding_keeps_the_number(year as nat, 4);
        if year > 9999 {
            assert(year_text(year).skip(1) =~= padded(year as nat, 4));
        }
    }
}

/// The recording of a symbol and a day lies under the base directory, in `market`,
/// in the directory of the symbol, under the day's own name.
pub proof fn recordings_lie_by_symbol_and_day(
    base_dir: Seq<char>,
    symbol: Seq<char>,
    date: Date,
)
    requires
        base_dir.len() > 0,
        base_dir.last() != '/',
        symbol.len() > 0,
        symbol[0] != '/',
        symbol.last() != '/',
        date.is_real(),
        0 <= date.year <= 9999,
    ensures
        recording_path(base_dir, symbol, date) == base_dir + "/market/"@ + symbol + "/"@
            + date_text(date) + ".parquet"@,
{
    reveal_strlit("market");
    reveal_strlit("/market/");
    reveal_strlit("/");
    assert("market"@.len() == 6 && "market"@[0] == 'm' && "market"@[5] == 't');
    assert("/market/"@ =~= "/"@ + "market"@ + "/"@);
    days_are_written_year_month_day(date);
    far_years_carry_a_sign(date.year as int);
    lemma_digits(date.year as nat);
    lemma_four_digits(date.year as nat);
    padding_keeps_the_number(date.year as nat, 4);
    let name = date_text(date) + ".parquet"@;
    assert(name[0] == padded(date.year as nat, 4)[0]);
    assert(name[0] as int >= '0' as int);
    let under = joined(base_dir, "market"@);
    assert(under =~= base_dir + "/"@ + "market"@);
    assert(under.last() == 't');
    let own = joined(under, symbol);
    assert(own =~= base_dir + "/market/"@ + symbol);
    assert(own.last() == symbol.last());
    assert(joined(own, name) =~= own + "/"@ + name);
    assert(own + "/"@ + name =~= base_dir + "/market/"@ + symbol + "/"@ + date_text(date)
        + ".parquet"@);
}

/// A table has so many rows where each of its six columns does, and it has no second
/// number of rows.
pub proof fn columns_are_of_one_length(columns: MarketColumns, rows: nat, other: nat)
    ensures
        columns.has_rows(rows) ==> columns.timestamps@.len() == columns.prices@.len()
            == columns.sizes@.len() == columns.sides@.len() == columns.event_types@.len()
            == columns.symbol_ids@.len() == rows,
        columns.has_rows(rows) && columns.has_rows(other) ==> rows == other,
{
}

} // verus!
