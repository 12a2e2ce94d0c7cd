//! Title generation for the created pull requests: `Release to {base}`
//! followed by the current date in `YYYY-MM-DD` form.
//!
//! The date is read from the system clock once per create step, after the
//! existing-pull-request check; everything from the calendar fields to the
//! final title text is rendered and proved here. The title depends on the
//! base branch and the date alone, so every repository targeting the same
//! base on the same day receives the identical title.
use chrono::Datelike;
use vstd::prelude::*;
use vstd::string::StringExecFns;

use crate::decimal::digit_str;
use crate::decimal::spec_digit;

verus! {

/// Whether calendar fields can come out of a clock reading: a four-digit
/// year and the month and day ranges of the calendar.
pub open spec fn spec_date_fields_ok(y: nat, m: nat, d: nat) -> bool {
    y <= 9999 && 1 <= m <= 12 && 1 <= d <= 31
}

/// The `YYYY-MM-DD` rendering of a date: the year zero-padded to four
/// digits, month and day to two.
pub open spec fn spec_ymd(y: nat, m: nat, d: nat) -> Seq<char> {
    seq![
        spec_digit(y / 1000 % 10),
        spec_digit(y / 100 % 10),
        spec_digit(y / 10 % 10),
        spec_digit(y % 10),
        '-',
        spec_digit(m / 10 % 10),
        spec_digit(m % 10),
        '-',
        spec_digit(d / 10 % 10),
        spec_digit(d % 10),
    ]
}

/// Renders a date as `YYYY-MM-DD`.
pub fn format_ymd(y: u32, m: u32, d: u32) -> (r: String)
    requires
        spec_date_fields_ok(y as nat, m as nat, d as nat),
    ensures
        r@ == spec_ymd(y as nat, m as nat, d as nat),
{
    let mut r = String::from_str(digit_str((y / 1000 % 10) as u64));
    r.append(digit_str((y / 100 % 10) as u64));
    r.append(digit_str((y / 10 % 10) as u64));
    r.append(digit_str((y % 10) as u64));
    r.append("-");
    r.append(digit_str((m / 10 % 10) as u64));
    r.append(digit_str((m % 10) as u64));
    r.append("-");
    r.append(digit_str((d / 10 % 10) as u64));
    r.append(digit_str((d % 10) as u64));
    proof {
        reveal_strlit("-");
        assert(r@ =~= spec_ymd(y as nat, m as nat, d as nat));
    }
    r
}

/// The title of a created pull request: the base branch name and the date,
/// independent of the repository.
pub open spec fn spec_title(base: Seq<char>, date: Seq<char>) -> Seq<char> {
    "Release to "@ + base + " "@ + date
}

/// Builds the title `Release to {base} {date}` for the given date fields.
pub fn release_title(base: &str, y: u32, m: u32, d: u32) -> (r: String)
    requires
        spec_date_fields_ok(y as nat, m as nat, d as nat),
    ensures
        r@ == spec_title(base@, spec_ymd(y as nat, m as nat, d as nat)),
{
    let mut r = String::from_str("Release to ");
    r.append(base);
    r.append(" ");
    let date = format_ymd(y, m, d);
    r.append(date.as_str());
    proof {
        assert(r@ =~= spec_title(base@, spec_ymd(y as nat, m as nat, d as nat)));
    }
    r
}

/// The date renders as ten characters in `YYYY-MM-DD` form: four year
/// digits, a dash, two month digits, a dash, two day digits.
pub proof fn lemma_ymd_shape(y: nat, m: nat, d: nat)
    ensures
        spec_ymd(y, m, d).len() == 10,
        spec_ymd(y, m, d)[4] == '-',
        spec_ymd(y, m, d)[7] == '-',
{
}

/// The title embeds the base branch name and the date, and nothing else
/// varies: it is a function of base and date alone, so every repository
/// targeting the same base on the same day receives the identical title.
pub proof fn lemma_title_embeds_base_and_date(base: Seq<char>, date: Seq<char>)
    ensures
        spec_title(base, date).len() == base.len() + date.len() + 12,
        spec_title(base, date).subrange(11, 11 + base.len() as int) == base,
        spec_title(base, date).subrange(
            12 + base.len() as int,
            spec_title(base, date).len() as int,
        ) == date,
{
    reveal_strlit("Release to ");
    reveal_strlit(" ");
    let title = spec_title(base, date);
    assert(title.subrange(11, 11 + base.len() as int) =~= base);
    assert(title.subrange(12 + base.len() as int, title.len() as int) =~= date);
}

/// Reads the local calendar date from the system clock.
///
/// Relies on chrono's `Local::now` and `Datelike`: `month` ranges from 1
/// to 12 and `day` from 1 to 31; the year is whatever the clock shows.
#[verifier::external_body]
fn today_fields() -> (r: (i32, u32, u32))
    ensures
        1 <= r.1 <= 12,
        1 <= r.2 <= 31,
{
    let today = chrono::Local::now().date_naive();
    (today.year(), today.month(), today.day())
}

/// Builds today's title `Release to {base} {current_date}`, reading the
/// clock at call time.
///
/// Returns `None` only when the clock shows a year that does not fit the
/// four-digit `YYYY-MM-DD` form.
pub fn release_title_today(base: &str) -> (r: Option<String>)
    ensures
        r matches Some(t) ==> exists|y: nat, m: nat, d: nat|
            spec_date_fields_ok(y, m, d) && t@ == spec_title(base@, spec_ymd(y, m, d)),
{
    let (y, m, d) = today_fields();
    if 0 <= y && y <= 9999 {
        let title = release_title(base, y as u32, m, d);
        proof {
            assert(spec_date_fields_ok(y as nat, m as nat, d as nat)
                && title@ == spec_title(base@, spec_ymd(y as nat, m as nat, d as nat)));
        }
        Some(title)
    } else {
        None
    }
}

} // verus!
