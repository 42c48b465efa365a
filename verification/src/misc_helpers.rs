//! Small deterministic conversions shared by the flattener: the tri-state
//! modality mapping and release-date normalization.

use vstd::prelude::*;

verus! {

/// Timestamp stored when no usable release date is known (a far-past epoch
/// marker standing for "no date").
pub const NO_DATE_SENTINEL: i64 = -62167201438;

/// Tri-state mode of a track or section: minor key, major key, or no result
/// from the analysis.
#[derive(Clone, Copy, PartialEq, Eq, Structural, Debug)]
pub enum Modality {
    Minor,
    Major,
    NoResult,
}

/// The integer encoding of a modality: 0 for minor, 1 for major, -1 for no
/// result.
pub open spec fn mode_int(m: Modality) -> i32 {
    match m {
        Modality::Minor => 0i32,
        Modality::Major => 1i32,
        Modality::NoResult => -1i32,
    }
}

pub fn convert_mode_to_int(mode: Modality) -> (r: i32)
    ensures
        r == mode_int(mode),
{
    match mode {
        Modality::Minor => 0,
        Modality::Major => 1,
        Modality::NoResult => -1,
    }
}

/// A decimal digit character.
pub open spec fn spec_is_digit(c: char) -> bool {
    48 <= c as u32 && c as u32 <= 57
}

/// Every character of `s` in the index range `[from, to)` is a decimal digit.
pub open spec fn digits_at(s: Seq<char>, from: int, to: int) -> bool {
    forall|i: int| from <= i < to ==> spec_is_digit(#[trigger] s[i])
}

/// The shape "YYYY-MM-DD": four digits, dash, two digits, dash, two digits.
pub open spec fn is_full_date(s: Seq<char>) -> bool {
    &&& s.len() == 10
    &&& digits_at(s, 0, 4)
    &&& s[4] == '-'
    &&& digits_at(s, 5, 7)
    &&& s[7] == '-'
    &&& digits_at(s, 8, 10)
}

/// The shape "YYYY-MM": four digits, dash, two digits.
pub open spec fn is_year_month(s: Seq<char>) -> bool {
    &&& s.len() == 7
    &&& digits_at(s, 0, 4)
    &&& s[4] == '-'
    &&& digits_at(s, 5, 7)
}

/// The shape "YYYY": four digits.
pub open spec fn is_year(s: Seq<char>) -> bool {
    s.len() == 4 && digits_at(s, 0, 4)
}

/// A release date is well formed when it has one of the three shapes the
/// provider emits: a full date, a year-month, or a bare year.
pub open spec fn is_well_formed_date(s: Seq<char>) -> bool {
    is_full_date(s) || is_year_month(s) || is_year(s)
}

/// A well-formed date completed to a full "YYYY-MM-DD": missing information
/// is taken as the middle of the possible range, day 15 and month 06.
pub open spec fn completed_date(s: Seq<char>) -> Seq<char> {
    if is_full_date(s) {
        s
    } else if is_year_month(s) {
        s + "-15"@
    } else {
        s + "-06-15"@
    }
}

/// The unix timestamp that the date parser resolves a full "YYYY-MM-DD"
/// string to (midnight UTC), or `None` where the digits name no valid
/// calendar date.
pub uninterp spec fn ymd_timestamp(s: Seq<char>) -> Option<i64>;

/// What release-date normalization returns: the timestamp of the completed
/// date for a well-formed input, and the sentinel for a malformed input or
/// for digits that name no valid calendar date.
pub open spec fn date_normalization(s: Seq<char>) -> i64 {
    if is_well_formed_date(s) {
        match ymd_timestamp(completed_date(s)) {
            Some(t) => t,
            None => NO_DATE_SENTINEL,
        }
    } else {
        NO_DATE_SENTINEL
    }
}

/// Relies on dateparser::parse_with: called with the UTC zone and a fixed
/// midnight default time on a "YYYY-MM-DD" digit string, the result is a
/// function of the string alone (every clock-dependent format either does not
/// match that shape or rejects it), and an out-of-range month or day is
/// rejected.  The parsed instant is returned through chrono's
/// DateTime::timestamp.
#[verifier::external_body]
fn parse_ymd_utc(s: &str) -> (r: Option<i64>)
    requires
        is_full_date(s@),
    ensures
        r == ymd_timestamp(s@),
{
    match dateparser::parse_with(s, &chrono::Utc, chrono::NaiveTime::MIN) {
        Ok(dt) => Some(dt.timestamp()),
        Err(_) => None,
    }
}

/// The shape of a release-date string, decided character by character.
enum DateForm {
    Full,
    YearMonth,
    Year,
    Malformed,
}

/// True when every character of `s` in `[from, to)` is a decimal digit.
fn check_digits(s: &str, from: usize, to: usize) -> (r: bool)
    requires
        from <= to <= s@.len(),
    ensures
        r == digits_at(s@, from as int, to as int),
{
    let mut i: usize = from;
    while i < to
        invariant
            from <= i <= to <= s@.len(),
            forall|j: int| from <= j < i ==> spec_is_digit(#[trigger] s@[j]),
        decreases to - i,
    {
        let c = s.get_char(i);
        let u = c as u32;
        if u < 48 || u > 57 {
            assert(!spec_is_digit(s@[i as int]));
            return false;
        }
        i = i + 1;
    }
    true
}

fn classify_date(s: &str) -> (f: DateForm)
    ensures
        f is Full <==> is_full_date(s@),
        f is YearMonth <==> is_year_month(s@),
        f is Year <==> is_year(s@),
{
    let n = s.unicode_len();
    if n == 10 {
        if check_digits(s, 0, 4) && s.get_char(4) == '-' && check_digits(s, 5, 7)
            && s.get_char(7) == '-' && check_digits(s, 8, 10) {
            DateForm::Full
        } else {
            DateForm::Malformed
        }
    } else if n == 7 {
        if check_digits(s, 0, 4) && s.get_char(4) == '-' && check_digits(s, 5, 7) {
            DateForm::YearMonth
        } else {
            DateForm::Malformed
        }
    } else if n == 4 {
        if check_digits(s, 0, 4) {
            DateForm::Year
        } else {
            DateForm::Malformed
        }
    } else {
        DateForm::Malformed
    }
}

/// Completing a year-month with "-15" yields a full date.
proof fn lemma_complete_year_month(s: Seq<char>)
    requires
        is_year_month(s),
    ensures
        is_full_date(s + "-15"@),
{
    reveal_strlit("-15");
    let t = s + "-15"@;
    assert(t.len() == 10);
    assert(t[7] == '-');
    assert(spec_is_digit(t[8]) && spec_is_digit(t[9]));
    assert(forall|i: int| 0 <= i < 7 ==> t[i] == s[i]);
    assert(digits_at(t, 0, 4));
    assert(digits_at(t, 5, 7));
    assert(digits_at(t, 8, 10));
}

/// Completing a bare year with "-06-15" yields a full date.
proof fn lemma_complete_year(s: Seq<char>)
    requires
        is_year(s),
    ensures
        is_full_date(s + "-06-15"@),
{
    reveal_strlit("-06-15");
    let t = s + "-06-15"@;
    assert(t.len() == 10);
    assert(t[4] == '-' && t[7] == '-');
    assert(spec_is_digit(t[5]) && spec_is_digit(t[6]));
    assert(spec_is_digit(t[8]) && spec_is_digit(t[9]));
    assert(forall|i: int| 0 <= i < 4 ==> t[i] == s[i]);
    assert(digits_at(t, 0, 4));
    assert(digits_at(t, 5, 7));
    assert(digits_at(t, 8, 10));
}

/// Normalizes a release date of variable precision to a unix timestamp:
/// "YYYY-MM-DD" is used as given, "YYYY-MM" is completed to day 15,
/// "YYYY" is completed to June 15, and anything else maps to the sentinel.
pub fn convert_to_parsable_date(date_str: String) -> (r: i64)
    ensures
        r == date_normalization(date_str@),
{
    let mut date_str = date_str;
    let ghost orig: Seq<char> = date_str@;
    let form = classify_date(date_str.as_str());
    match form {
        DateForm::Full => {},
        DateForm::YearMonth => {
            proof {
                lemma_complete_year_month(orig);
            }
            date_str.append("-15");
        },
        DateForm::Year => {
            proof {
                lemma_complete_year(orig);
            }
            date_str.append("-06-15");
        },
        DateForm::Malformed => {
            return NO_DATE_SENTINEL;
        },
    }
    assert(is_full_date(date_str@));
    assert(date_str@ == completed_date(orig));
    match parse_ymd_utc(date_str.as_str()) {
        Some(t) => t,
        None => NO_DATE_SENTINEL,
    }
}

/// Law: normalization is completion-consistent.  A bare year normalizes like
/// its mid-year completion and a year-month like its mid-month completion;
/// in particular "2020" and "2020-06-15" yield the same timestamp.
pub proof fn lemma_date_normalization_completion(y: Seq<char>, ym: Seq<char>)
    requires
        is_year(y),
        is_year_month(ym),
    ensures
        date_normalization(y) == date_normalization(y + "-06-15"@),
        date_normalization(ym) == date_normalization(ym + "-15"@),
{
    lemma_complete_year(y);
    assert(completed_date(y + "-06-15"@) == y + "-06-15"@);
    assert(completed_date(y) == y + "-06-15"@);
    lemma_complete_year_month(ym);
    assert(completed_date(ym + "-15"@) == ym + "-15"@);
    assert(completed_date(ym) == ym + "-15"@);
}

/// Law: every input that is not a well-formed date normalizes to the
/// sentinel.
pub proof fn lemma_malformed_date_is_sentinel(s: Seq<char>)
    requires
        !is_well_formed_date(s),
    ensures
        date_normalization(s) == NO_DATE_SENTINEL,
{
}

/// Law: the modality encoding is a bijection between the three modality
/// variants and the value set {0, 1, -1}; no other integer is ever produced.
pub proof fn lemma_mode_int_bijective()
    ensures
        forall|m: Modality| #[trigger] mode_int(m) == 0 || mode_int(m) == 1 || mode_int(m) == -1,
        forall|a: Modality, b: Modality| #[trigger] mode_int(a) == #[trigger] mode_int(b) ==> a == b,
        exists|m: Modality| #[trigger] mode_int(m) == 0,
        exists|m: Modality| #[trigger] mode_int(m) == 1,
        exists|m: Modality| #[trigger] mode_int(m) == -1,
{
    assert(mode_int(Modality::Minor) == 0);
    assert(mode_int(Modality::Major) == 1);
    assert(mode_int(Modality::NoResult) == -1);
}

} // verus!

