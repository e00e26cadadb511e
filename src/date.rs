use crate::error::OptError;
use chrono::Datelike;
use vstd::prelude::*;

verus! {

/// An outside error: why chrono refused a date string. Only its presence is read.
#[verifier::external_type_specification]
#[verifier::external_body]
pub struct ExParseError(chrono::format::ParseError);

/// A calendar date of the proleptic Gregorian calendar.
#[derive(Debug, Clone, Copy, PartialEq, Eq, Structural)]
pub struct Date {
    pub year: i32,
    pub month: u32,
    pub day: u32,
}

pub open spec fn is_leap_year(y: int) -> bool {
    (y % 4 == 0 && y % 100 != 0) || y % 400 == 0
}

pub open spec fn days_in_month(y: int, m: int) -> int {
    if m == 2 {
        if is_leap_year(y) {
            29
        } else {
            28
        }
    } else if m == 4 || m == 6 || m == 9 || m == 11 {
        30
    } else {
        31
    }
}

/// `y`-`m`-`d` names a day of the calendar.
pub open spec fn valid_date(y: int, m: int, d: int) -> bool {
    1 <= m <= 12 && 1 <= d <= days_in_month(y, m)
}

impl Date {
    pub open spec fn wf(&self) -> bool {
        valid_date(self.year as int, self.month as int, self.day as int)
    }
}

/// The characters of `s` with every hyphen removed, in order.
pub open spec fn strip_hyphens(s: Seq<char>) -> Seq<char>
    decreases s.len(),
{
    if s.len() == 0 {
        s
    } else if s.last() == '-' {
        strip_hyphens(s.drop_last())
    } else {
        strip_hyphens(s.drop_last()).push(s.last())
    }
}

pub open spec fn is_digit(c: char) -> bool {
    '0' <= c <= '9'
}

pub open spec fn all_digits(t: Seq<char>) -> bool {
    forall|i: int| 0 <= i < t.len() ==> is_digit(#[trigger] t[i])
}

/// The number that the decimal digits `t` write, most significant first.
pub open spec fn digits_value(t: Seq<char>) -> int
    decreases t.len(),
{
    if t.len() == 0 {
        0
    } else {
        digits_value(t.drop_last()) * 10 + (t.last() as int - '0' as int)
    }
}

pub open spec fn year_of(t: Seq<char>) -> int {
    digits_value(t.subrange(0, 4))
}

pub open spec fn month_of(t: Seq<char>) -> int {
    digits_value(t.subrange(4, 6))
}

pub open spec fn day_of(t: Seq<char>) -> int {
    digits_value(t.subrange(6, 8))
}

/// Eight decimal digits `YYYYMMDD`.
pub open spec fn is_ymd_digits(t: Seq<char>) -> bool {
    t.len() == 8 && all_digits(t)
}

/// `s` is accepted as a date: with hyphens removed it is `YYYYMMDD` and names a
/// calendar date.
pub open spec fn date_token(s: Seq<char>) -> bool {
    let t = strip_hyphens(s);
    is_ymd_digits(t) && valid_date(year_of(t), month_of(t), day_of(t))
}

/// The date that an accepted token `s` writes.
pub open spec fn date_value(s: Seq<char>) -> Date {
    let t = strip_hyphens(s);
    Date { year: year_of(t) as i32, month: month_of(t) as u32, day: day_of(t) as u32 }
}

/// Relies on chrono's `NaiveDate::parse_from_str` with the format `%Y%m%d`: on
/// eight ASCII digits it reads the year from the first four, the month from the
/// next two and the day from the last two, and succeeds exactly when these name
/// a calendar date, whose year, month and day it then holds.
#[verifier::external_body]
fn parse_ymd(digits: &Vec<char>) -> (r: Result<(i32, u32, u32), chrono::format::ParseError>)
    requires
        is_ymd_digits(digits@),
    ensures
        r is Ok <==> valid_date(year_of(digits@), month_of(digits@), day_of(digits@)),
        r matches Ok((y, m, d)) ==> y as int == year_of(digits@) && m as int == month_of(
            digits@,
        ) && d as int == day_of(digits@),
{
    let s: String = digits.iter().collect();
    chrono::NaiveDate::parse_from_str(&s, "%Y%m%d").map(|d| (d.year(), d.month(), d.day()))
}

proof fn lemma_strip_push(s: Seq<char>, i: int)
    requires
        0 <= i < s.len(),
    ensures
        strip_hyphens(s.subrange(0, i + 1)) == if s[i] == '-' {
            strip_hyphens(s.subrange(0, i))
        } else {
            strip_hyphens(s.subrange(0, i)).push(s[i])
        },
{
    assert(s.subrange(0, i + 1).drop_last() =~= s.subrange(0, i));
}

/// The characters of `s` without its hyphens.
fn without_hyphens(s: &str) -> (r: Vec<char>)
    ensures
        r@ == strip_hyphens(s@),
{
    let n = s.unicode_len();
    let mut out: Vec<char> = Vec::new();
    let mut i: usize = 0;
    while i < n
        invariant
            n == s@.len(),
            i <= n,
            out@ == strip_hyphens(s@.subrange(0, i as int)),
        decreases n - i,
    {
        let c = s.get_char(i);
        proof {
            lemma_strip_push(s@, i as int);
        }
        if c != '-' {
            out.push(c);
        }
        i = i + 1;
    }
    assert(s@.subrange(0, n as int) =~= s@);
    out
}

/// Parses a target date: `YYYYMMDD`, where hyphens anywhere are dropped first
/// (so `2023-01-01` and `2023-0101` both name the first of January 2023).
pub fn parse_date(src: &str) -> (r: Result<Date, OptError>)
    ensures
        r == (if date_token(src@) {
            Ok(date_value(src@))
        } else {
            Err(OptError::DateFormat)
        }),
        r matches Ok(d) ==> d.wf(),
{
    let t = without_hyphens(src);
    if t.len() != 8 {
        return Err(OptError::DateFormat);
    }
    let mut i: usize = 0;
    while i < 8
        invariant
            t@ == strip_hyphens(src@),
            t@.len() == 8,
            i <= 8,
            forall|j: int| 0 <= j < i ==> is_digit(#[trigger] t@[j]),
        decreases 8 - i,
    {
        let c = t[i];
        if !('0' <= c && c <= '9') {
            assert(!is_digit(t@[i as int]));
            assert(!all_digits(t@));
            return Err(OptError::DateFormat);
        }
        i = i + 1;
    }
    match parse_ymd(&t) {
        Ok((y, m, d)) => Ok(Date { year: y, month: m, day: d }),
        Err(_) => Err(OptError::DateFormat),
    }
}

/// `s` is written `YYYYMMDD` or `YYYY-MM-DD`, with decimal digits.
pub open spec fn date_shape(s: Seq<char>) -> bool {
    is_ymd_digits(s) || (s.len() == 10 && s[4] == '-' && s[7] == '-' && is_ymd_digits(
        shape_digits(s),
    ))
}

/// The eight digits of a string of either date shape.
pub open spec fn shape_digits(s: Seq<char>) -> Seq<char> {
    if s.len() == 10 {
        s.subrange(0, 4) + s.subrange(5, 7) + s.subrange(8, 10)
    } else {
        s
    }
}

proof fn lemma_strip_no_hyphen(s: Seq<char>)
    requires
        forall|i: int| 0 <= i < s.len() ==> #[trigger] s[i] != '-',
    ensures
        strip_hyphens(s) == s,
    decreases s.len(),
{
    if s.len() > 0 {
        lemma_strip_no_hyphen(s.drop_last());
        assert(s.drop_last().push(s.last()) =~= s);
    }
}

proof fn lemma_strip_concat(a: Seq<char>, b: Seq<char>)
    ensures
        strip_hyphens(a + b) == strip_hyphens(a) + strip_hyphens(b),
    decreases b.len(),
{
    if b.len() == 0 {
        assert(a + b =~= a);
        assert(strip_hyphens(a) + strip_hyphens(b) =~= strip_hyphens(a));
    } else {
        lemma_strip_concat(a, b.drop_last());
        assert((a + b).drop_last() =~= a + b.drop_last());
        assert((a + b).last() == b.last());
        if b.last() != '-' {
            assert(strip_hyphens(a) + strip_hyphens(b.drop_last()).push(b.last()) =~= (
            strip_hyphens(a) + strip_hyphens(b.drop_last())).push(b.last()));
        }
    }
}

/// A string written `YYYYMMDD` or `YYYY-MM-DD` whose digits name a calendar
/// date is accepted, and the date read is the one its digits write.
pub proof fn lemma_date_shapes_accepted(s: Seq<char>)
    requires
        date_shape(s),
        valid_date(
            year_of(shape_digits(s)),
            month_of(shape_digits(s)),
            day_of(shape_digits(s)),
        ),
    ensures
        strip_hyphens(s) == shape_digits(s),
        date_token(s),
        date_value(s) == (Date {
            year: year_of(shape_digits(s)) as i32,
            month: month_of(shape_digits(s)) as u32,
            day: day_of(shape_digits(s)) as u32,
        }),
{
    let t = shape_digits(s);
    if s.len() == 10 {
        let y = s.subrange(0, 4);
        let m = s.subrange(5, 7);
        let d = s.subrange(8, 10);
        let h = seq!['-'];
        assert(forall|i: int| 0 <= i < y.len() ==> #[trigger] y[i] == t[i]);
        assert(forall|i: int| 0 <= i < m.len() ==> #[trigger] m[i] == t[i + 4]);
        assert(forall|i: int| 0 <= i < d.len() ==> #[trigger] d[i] == t[i + 6]);
        lemma_strip_no_hyphen(y);
        lemma_strip_no_hyphen(m);
        lemma_strip_no_hyphen(d);
        assert(strip_hyphens(h) =~= Seq::<char>::empty()) by {
            assert(h.drop_last() =~= Seq::<char>::empty());
            assert(h.last() == '-');
            assert(strip_hyphens(Seq::<char>::empty()) =~= Seq::<char>::empty());
        }
        assert(s =~= y + h + m + h + d);
        lemma_strip_concat(y, h);
        lemma_strip_concat(y + h, m);
        lemma_strip_concat(y + h + m, h);
        lemma_strip_concat(y + h + m + h, d);
        assert(strip_hyphens(s) =~= t);
    } else {
        assert forall|i: int| 0 <= i < s.len() implies #[trigger] s[i] != '-' by {
            assert(is_digit(s[i]));
        }
        lemma_strip_no_hyphen(s);
    }
}

} // verus!
