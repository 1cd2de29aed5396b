use vstd::prelude::*;
use chrono::{Datelike, Timelike};
use crate::price::{price_text, push_price, Price};
use crate::text::{push_char, push_padded, zero_padded};

verus! {

/// An instant in UTC, as its calendar fields.
#[derive(Clone, Copy, Debug, PartialEq, Eq, Structural)]
pub struct UtcTime {
    pub year: i32,
    pub month: u32,
    pub day: u32,
    pub hour: u32,
    pub minute: u32,
    pub second: u32,
}

impl UtcTime {
    /// Every field lies in its calendar range.
    pub open spec fn wf(self) -> bool {
        1 <= self.month <= 12 && 1 <= self.day <= 31 && self.hour < 24 && self.minute < 60
            && self.second < 60
    }

    /// The current instant.
    pub fn now() -> (t: UtcTime)
        ensures
            t.wf(),
    {
        current_time()
    }
}

/// Relies on chrono's `Utc::now` and its `Datelike` and `Timelike`
/// accessors, documented as: month 1 to 12, day 1 to 31, hour 0 to 23,
/// minute and second 0 to 59.
#[verifier::external_body]
fn current_time() -> (t: UtcTime)
    ensures
        t.wf(),
{
    let now = chrono::Utc::now();
    UtcTime {
        year: now.year(),
        month: now.month(),
        day: now.day(),
        hour: now.hour(),
        minute: now.minute(),
        second: now.second(),
    }
}

/// A year in at least four digits; one outside `0..=9999` carries its sign.
pub open spec fn year_text(y: int) -> Seq<char> {
    if 0 <= y <= 9999 {
        zero_padded(y as nat, 4)
    } else if y > 9999 {
        seq!['+'] + zero_padded(y as nat, 4)
    } else {
        seq!['-'] + zero_padded((-y) as nat, 4)
    }
}

/// `YYYY-MM-DD`.
pub open spec fn date_text(t: UtcTime) -> Seq<char> {
    year_text(t.year as int) + seq!['-'] + zero_padded(t.month as nat, 2) + seq!['-']
        + zero_padded(t.day as nat, 2)
}

/// `HH:MM:SS`.
pub open spec fn clock_text(t: UtcTime) -> Seq<char> {
    zero_padded(t.hour as nat, 2) + seq![':'] + zero_padded(t.minute as nat, 2) + seq![':']
        + zero_padded(t.second as nat, 2)
}

/// `YYYY-MM-DD HH:MM:SS UTC`.
pub open spec fn timestamp_text(t: UtcTime) -> Seq<char> {
    date_text(t) + seq![' '] + clock_text(t) + seq![' ', 'U', 'T', 'C']
}

/// One persisted record: `<timestamp>: $<price>` and a line break.
pub open spec fn log_line_text(t: UtcTime, p: Price) -> Seq<char> {
    timestamp_text(t) + seq![':', ' ', '$'] + price_text(p) + seq!['\n']
}

fn push_year(s: &mut String, y: i32)
    ensures
        final(s)@ == old(s)@ + year_text(y as int),
{
    let ghost start = s@;
    if 0 <= y && y <= 9999 {
        push_padded(s, y as u64, 4);
    } else if y > 9999 {
        push_char(s, '+');
        push_padded(s, y as u64, 4);
    } else {
        push_char(s, '-');
        let m: i64 = -(y as i64);
        push_padded(s, m as u64, 4);
    }
    assert(s@ =~= start + year_text(y as int));
}

fn push_date(s: &mut String, t: &UtcTime)
    ensures
        final(s)@ == old(s)@ + date_text(*t),
{
    let ghost start = s@;
    push_year(s, t.year);
    push_char(s, '-');
    push_padded(s, t.month as u64, 2);
    push_char(s, '-');
    push_padded(s, t.day as u64, 2);
    assert(s@ =~= start + date_text(*t));
}

fn push_clock(s: &mut String, t: &UtcTime)
    ensures
        final(s)@ == old(s)@ + clock_text(*t),
{
    let ghost start = s@;
    push_padded(s, t.hour as u64, 2);
    push_char(s, ':');
    push_padded(s, t.minute as u64, 2);
    push_char(s, ':');
    push_padded(s, t.second as u64, 2);
    assert(s@ =~= start + clock_text(*t));
}

fn push_timestamp(s: &mut String, t: &UtcTime)
    ensures
        final(s)@ == old(s)@ + timestamp_text(*t),
{
    let ghost start = s@;
    push_date(s, t);
    push_char(s, ' ');
    push_clock(s, t);
    push_char(s, ' ');
    push_char(s, 'U');
    push_char(s, 'T');
    push_char(s, 'C');
    assert(s@ =~= start + timestamp_text(*t));
}

/// The text of an instant, `YYYY-MM-DD HH:MM:SS UTC`.
pub fn format_timestamp(t: &UtcTime) -> (r: String)
    ensures
        r@ == timestamp_text(*t),
{
    let mut s = String::new();
    push_timestamp(&mut s, t);
    assert(s@ =~= timestamp_text(*t));
    s
}

/// The record persisted for a price observed at `t`.
pub fn format_log_line(t: &UtcTime, p: Price) -> (r: String)
    ensures
        r@ == log_line_text(*t, p),
{
    let mut s = String::new();
    push_timestamp(&mut s, t);
    push_char(&mut s, ':');
    push_char(&mut s, ' ');
    push_char(&mut s, '$');
    push_price(&mut s, p);
    push_char(&mut s, '\n');
    assert(s@ =~= log_line_text(*t, p));
    s
}

} // verus!
