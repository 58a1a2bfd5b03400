//! DATE: shows the current date.

use vstd::prelude::*;
use vstd::string::StringSliceAdditionalSpecFns;
use crate::text::{push_bytes, push_zero_padded, zero_padded};

verus! {

/// The three-letter name of a day of the week (0 is Sunday; 6 and above
/// are Saturday).
pub open spec fn weekday_name(dow: u8) -> Seq<u8> {
    if dow == 0 {
        "Sun".spec_bytes()
    } else if dow == 1 {
        "Mon".spec_bytes()
    } else if dow == 2 {
        "Tue".spec_bytes()
    } else if dow == 3 {
        "Wed".spec_bytes()
    } else if dow == 4 {
        "Thu".spec_bytes()
    } else if dow == 5 {
        "Fri".spec_bytes()
    } else {
        "Sat".spec_bytes()
    }
}

/// The line DATE prints: `Current date is Www MM-DD-YYYY` and CR LF.
pub open spec fn date_text(year: u16, month: u8, day: u8, dow: u8) -> Seq<u8> {
    "Current date is ".spec_bytes() + weekday_name(dow) + " ".spec_bytes() + zero_padded(
        month as nat,
        2,
    ) + "-".spec_bytes() + zero_padded(day as nat, 2) + "-".spec_bytes() + zero_padded(
        year as nat,
        4,
    ) + "\r\n".spec_bytes()
}

/// The names of the week from Sunday, three letters each.
pub open spec fn week_from_sunday() -> Seq<u8> {
    "SunMonTueWedThuFriSat".spec_bytes()
}

/// The line DATE prints names day `dow` of the week (0 is Sunday) by the
/// `dow`-th three letters of `SunMonTueWedThuFriSat`, right after
/// `Current date is `; a day number above 6 is named Saturday.
pub proof fn lemma_date_line_names_weekday(year: u16, month: u8, day: u8, dow: u8)
    ensures
        week_from_sunday().len() == 21,
        date_text(year, month, day, dow).subrange(16, 19) == (if dow < 7 {
            week_from_sunday().subrange(3 * dow, 3 * dow + 3)
        } else {
            week_from_sunday().subrange(18, 21)
        }),
{
    broadcast use vstd::string::group_string_axioms;

    reveal_strlit("SunMonTueWedThuFriSat");
    reveal_strlit("Current date is ");
    reveal_strlit("Sun");
    reveal_strlit("Mon");
    reveal_strlit("Tue");
    reveal_strlit("Wed");
    reveal_strlit("Thu");
    reveal_strlit("Fri");
    reveal_strlit("Sat");
    assert(vstd::string::is_ascii("SunMonTueWedThuFriSat"));
    assert(vstd::string::is_ascii("Current date is "));
    assert(vstd::string::is_ascii("Sun"));
    assert(vstd::string::is_ascii("Mon"));
    assert(vstd::string::is_ascii("Tue"));
    assert(vstd::string::is_ascii("Wed"));
    assert(vstd::string::is_ascii("Thu"));
    assert(vstd::string::is_ascii("Fri"));
    assert(vstd::string::is_ascii("Sat"));
    let t = date_text(year, month, day, dow);
    let head = "Current date is ".spec_bytes();
    assert(head.len() == 16);
    assert(weekday_name(dow).len() == 3);
    let w = week_from_sunday();
    let expect = if dow < 7 {
        w.subrange(3 * dow, 3 * dow + 3)
    } else {
        w.subrange(18, 21)
    };
    assert(t.subrange(16, 19) =~= weekday_name(dow));
    assert(weekday_name(dow) =~= expect);
}

fn weekday_bytes(dow: u8) -> (r: &'static str)
    ensures
        r.spec_bytes() == weekday_name(dow),
{
    match dow {
        0 => "Sun",
        1 => "Mon",
        2 => "Tue",
        3 => "Wed",
        4 => "Thu",
        5 => "Fri",
        _ => "Sat",
    }
}

/// The line DATE prints for a date and its day of the week.
pub fn date_line(year: u16, month: u8, day: u8, dow: u8) -> (r: Vec<u8>)
    ensures
        r@ == date_text(year, month, day, dow),
{
    let mut out: Vec<u8> = Vec::new();
    push_bytes(&mut out, "Current date is ".as_bytes());
    push_bytes(&mut out, weekday_bytes(dow).as_bytes());
    push_bytes(&mut out, " ".as_bytes());
    push_zero_padded(&mut out, month as u64, 2);
    push_bytes(&mut out, "-".as_bytes());
    push_zero_padded(&mut out, day as u64, 2);
    push_bytes(&mut out, "-".as_bytes());
    push_zero_padded(&mut out, year as u64, 4);
    push_bytes(&mut out, "\r\n".as_bytes());
    assert(out@ =~= date_text(year, month, day, dow));
    out
}

} // verus!
