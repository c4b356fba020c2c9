use vstd::prelude::*;

use crate::text::{push_char, push_str};

verus! {

/// The calendar fields of one UTC instant.
pub struct UtcParts {
    pub year: i32,
    pub month: u8,
    pub day: u8,
    pub hour: u8,
    pub minute: u8,
    pub second: u8,
}

/// The ranges that the `time` crate guarantees for its calendar fields
/// (years within ±9999 without its `large-dates` feature).
pub open spec fn valid_parts(p: UtcParts) -> bool {
    &&& -9999 <= p.year <= 9999
    &&& 1 <= p.month <= 12
    &&& 1 <= p.day <= 31
    &&& p.hour < 24
    &&& p.minute < 60
    &&& p.second < 60
}

/// Calls `time::OffsetDateTime::now_utc` and reads its calendar fields. The
/// instant depends on the clock; only the documented field ranges are stated.
#[verifier::external_body]
pub(crate) fn utc_now_parts() -> (r: UtcParts)
    ensures
        valid_parts(r),
{
    let now = time::OffsetDateTime::now_utc();
    UtcParts {
        year: now.year(),
        month: u8::from(now.month()),
        day: now.day(),
        hour: now.hour(),
        minute: now.minute(),
        second: now.second(),
    }
}

/// A fraction of a second as RFC 3339 writes it: nothing, or a dot and one
/// to nine decimal digits.
pub open spec fn is_second_fraction(f: Seq<char>) -> bool {
    f.len() == 0 || (f[0] == '.' && 2 <= f.len() <= 10 && forall|i: int|
        1 <= i < f.len() ==> '0' <= #[trigger] f[i] && f[i] <= '9')
}

/// The RFC 3339 text of a UTC instant with a year from 0 to 9999:
/// `YYYY-MM-DDTHH:MM:SS`, the fraction of a second, and `Z`.
pub open spec fn rfc3339_utc_text(p: UtcParts, fraction: Seq<char>) -> Seq<char> {
    padded(p.year as nat, 4) + "-"@ + padded(p.month as nat, 2) + "-"@ + padded(p.day as nat, 2)
        + "T"@ + padded(p.hour as nat, 2) + ":"@ + padded(p.minute as nat, 2) + ":"@ + padded(
        p.second as nat,
        2,
    ) + fraction + "Z"@
}

/// Calls `time::OffsetDateTime::now_utc` and formats the instant with the
/// `time` crate's `Rfc3339` format. The instant depends on the clock; what
/// holds of every outcome is stated: an `Ok` text is the RFC 3339 text of a
/// valid UTC instant whose year lies between 0 and 9999 (the formatter
/// rejects other years), and an `Err` holds the formatter's error message.
#[verifier::external_body]
pub(crate) fn utc_now_rfc3339() -> (r: Result<String, String>)
    ensures
        r matches Ok(t) ==> exists|p: UtcParts, fraction: Seq<char>|
            valid_parts(p) && 0 <= p.year && is_second_fraction(fraction) && t@ == rfc3339_utc_text(
                p,
                fraction,
            ),
{
    match time::OffsetDateTime::now_utc().format(&time::format_description::well_known::Rfc3339) {
        Ok(text) => Ok(text),
        Err(error) => Err(error.to_string()),
    }
}

/// The decimal digit of a number below ten.
pub open spec fn digit(n: int) -> char {
    (('0' as u32) + n) as char
}

/// A number below `10^width` in decimal with leading zeros to `width` digits.
pub open spec fn padded(n: nat, width: nat) -> Seq<char>
    decreases width,
{
    if width == 0 {
        Seq::empty()
    } else {
        padded(n / 10, (width - 1) as nat).push(digit((n % 10) as int))
    }
}

/// A year as the `time` crate's `[year]` component prints it: four digits,
/// with a minus sign before negative years.
pub open spec fn year_text(year: int) -> Seq<char> {
    if year < 0 {
        seq!['-'] + padded((-year) as nat, 4)
    } else {
        padded(year as nat, 4)
    }
}

/// The compact timestamp `YYYYMMDD-HHMMSS` used in generated file names.
pub open spec fn compact_timestamp(p: UtcParts) -> Seq<char> {
    year_text(p.year as int) + padded(p.month as nat, 2) + padded(p.day as nat, 2) + "-"@
        + padded(p.hour as nat, 2) + padded(p.minute as nat, 2) + padded(p.second as nat, 2)
}

/// The readable timestamp `YYYY-MM-DD HH:MM UTC` used in report metadata.
pub open spec fn report_timestamp(p: UtcParts) -> Seq<char> {
    year_text(p.year as int) + "-"@ + padded(p.month as nat, 2) + "-"@ + padded(p.day as nat, 2)
        + " "@ + padded(p.hour as nat, 2) + ":"@ + padded(p.minute as nat, 2) + " UTC"@
}

/// Appends `n` in decimal with leading zeros to `width` digits.
fn push_padded(out: &mut String, n: u32, width: u32)
    requires
        width <= 9,
    ensures
        final(out)@ == old(out)@ + padded(n as nat, width as nat),
    decreases width,
{
    if width == 0 {
        assert(padded(n as nat, 0) =~= Seq::<char>::empty());
        return;
    }
    push_padded(out, n / 10, width - 1);
    let d = n % 10;
    let c = ((('0' as u32) + d) as u8) as char;
    assert(c == digit((n % 10) as int));
    push_char(out, c);
}

fn push_year(out: &mut String, year: i32)
    requires
        -9999 <= year <= 9999,
    ensures
        final(out)@ == old(out)@ + year_text(year as int),
{
    if year < 0 {
        push_char(out, '-');
        push_padded(out, (0 - year) as u32, 4);
    } else {
        push_padded(out, year as u32, 4);
    }
}

/// Formats the compact file name timestamp `YYYYMMDD-HHMMSS`.
pub fn format_compact_timestamp(p: &UtcParts) -> (r: String)
    requires
        valid_parts(*p),
    ensures
        r@ == compact_timestamp(*p),
{
    let mut out = String::new();
    push_year(&mut out, p.year);
    push_padded(&mut out, p.month as u32, 2);
    push_padded(&mut out, p.day as u32, 2);
    push_str(&mut out, "-");
    push_padded(&mut out, p.hour as u32, 2);
    push_padded(&mut out, p.minute as u32, 2);
    push_padded(&mut out, p.second as u32, 2);
    assert(out@ =~= compact_timestamp(*p));
    out
}

/// Formats the readable report timestamp `YYYY-MM-DD HH:MM UTC`.
pub fn format_report_timestamp(p: &UtcParts) -> (r: String)
    requires
        valid_parts(*p),
    ensures
        r@ == report_timestamp(*p),
{
    let mut out = String::new();
    push_year(&mut out, p.year);
    push_str(&mut out, "-");
    push_padded(&mut out, p.month as u32, 2);
    push_str(&mut out, "-");
    push_padded(&mut out, p.day as u32, 2);
    push_str(&mut out, " ");
    push_padded(&mut out, p.hour as u32, 2);
    push_str(&mut out, ":");
    push_padded(&mut out, p.minute as u32, 2);
    push_str(&mut out, " UTC");
    assert(out@ =~= report_timestamp(*p));
    out
}

/// A number in decimal without leading zeros.
pub open spec fn decimal(n: nat) -> Seq<char>
    decreases n,
{
    if n < 10 {
        seq![digit(n as int)]
    } else {
        decimal(n / 10).push(digit((n % 10) as int))
    }
}

fn push_decimal(out: &mut String, n: usize)
    ensures
        final(out)@ == old(out)@ + decimal(n as nat),
    decreases n,
{
    if n >= 10 {
        push_decimal(out, n / 10);
    }
    let d = (n % 10) as u32;
    let c = ((('0' as u32) + d) as u8) as char;
    assert(c == digit((n % 10) as int));
    push_char(out, c);
}

/// A count in decimal.
pub fn decimal_text(n: usize) -> (r: String)
    ensures
        r@ == decimal(n as nat),
{
    let mut out = String::new();
    push_decimal(&mut out, n);
    assert(out@ =~= decimal(n as nat));
    out
}

/// The number that a string of decimal digits spells, most significant
/// digit first (the empty string spells zero).
pub open spec fn digits_value(s: Seq<char>) -> int
    decreases s.len(),
{
    if s.len() == 0 {
        0
    } else {
        digits_value(s.drop_last()) * 10 + (s.last() as u32 - '0' as u32)
    }
}

/// Whether every character of `s` is a decimal digit.
pub open spec fn all_digits(s: Seq<char>) -> bool {
    forall|i: int| 0 <= i < s.len() ==> '0' <= #[trigger] s[i] && s[i] <= '9'
}

/// Ten to the power `w`.
pub open spec fn pow10(w: nat) -> nat
    decreases w,
{
    if w == 0 {
        1
    } else {
        10 * pow10((w - 1) as nat)
    }
}

proof fn lemma_digit(d: int)
    requires
        0 <= d < 10,
    ensures
        '0' <= digit(d) && digit(d) <= '9',
        digit(d) as u32 - '0' as u32 == d,
{
}

/// A count printed in decimal reads back as that count: only digits, with
/// no leading zero, spelling exactly `n`.
pub proof fn law_decimal_reads_back(n: nat)
    ensures
        all_digits(decimal(n)),
        digits_value(decimal(n)) == n,
        decimal(n).len() >= 1,
        decimal(n)[0] == '0' ==> n == 0,
    decreases n,
{
    if n < 10 {
        lemma_digit(n as int);
        assert(decimal(n).drop_last() =~= Seq::<char>::empty());
        assert(digits_value(decimal(n)) == digits_value(Seq::<char>::empty()) * 10 + (digit(
            n as int,
        ) as u32 - '0' as u32));
    } else {
        law_decimal_reads_back(n / 10);
        lemma_digit((n % 10) as int);
        let s = decimal(n);
        assert(s.drop_last() =~= decimal(n / 10));
        assert(digits_value(s) == digits_value(decimal(n / 10)) * 10 + (digit((n % 10) as int) as u32
            - '0' as u32));
        assert(s[0] == decimal(n / 10)[0]);
        assert((n / 10) * 10 + n % 10 == n) by (nonlinear_arith);
    }
}

/// A number below `10^width` printed with leading zeros reads back as that
/// number: exactly `width` digits, spelling exactly `n`.
pub proof fn law_padded_reads_back(n: nat, width: nat)
    requires
        n < pow10(width),
    ensures
        padded(n, width).len() == width,
        all_digits(padded(n, width)),
        digits_value(padded(n, width)) == n,
    decreases width,
{
    if width > 0 {
        assert(n / 10 < pow10((width - 1) as nat)) by (nonlinear_arith)
            requires
                n < 10 * pow10((width - 1) as nat),
        ;
        law_padded_reads_back(n / 10, (width - 1) as nat);
        lemma_digit((n % 10) as int);
        assert(padded(n, width).drop_last() =~= padded(n / 10, (width - 1) as nat));
        assert((n / 10) * 10 + n % 10 == n) by (nonlinear_arith);
    }
}

proof fn lemma_pow10_small()
    ensures
        pow10(2) == 100,
        pow10(4) == 10000,
{
    assert(pow10(0) == 1);
    assert(pow10(1) == 10);
    assert(pow10(2) == 100);
    assert(pow10(3) == 1000);
}

/// The file name timestamp of an instant from year 0 on is fifteen
/// characters: the year, month and day as four, two and two digits, a dash,
/// then the hour, minute and second as two digits each.
pub proof fn law_compact_timestamp_fields(p: UtcParts)
    requires
        valid_parts(p),
        p.year >= 0,
    ensures
        compact_timestamp(p).len() == 15,
        all_digits(compact_timestamp(p).subrange(0, 8)),
        all_digits(compact_timestamp(p).subrange(9, 15)),
        digits_value(compact_timestamp(p).subrange(0, 4)) == p.year,
        digits_value(compact_timestamp(p).subrange(4, 6)) == p.month,
        digits_value(compact_timestamp(p).subrange(6, 8)) == p.day,
        compact_timestamp(p)[8] == '-',
        digits_value(compact_timestamp(p).subrange(9, 11)) == p.hour,
        digits_value(compact_timestamp(p).subrange(11, 13)) == p.minute,
        digits_value(compact_timestamp(p).subrange(13, 15)) == p.second,
{
    reveal_strlit("-");
    lemma_pow10_small();
    let y = padded(p.year as nat, 4);
    let mo = padded(p.month as nat, 2);
    let d = padded(p.day as nat, 2);
    let h = padded(p.hour as nat, 2);
    let mi = padded(p.minute as nat, 2);
    let se = padded(p.second as nat, 2);
    law_padded_reads_back(p.year as nat, 4);
    law_padded_reads_back(p.month as nat, 2);
    law_padded_reads_back(p.day as nat, 2);
    law_padded_reads_back(p.hour as nat, 2);
    law_padded_reads_back(p.minute as nat, 2);
    law_padded_reads_back(p.second as nat, 2);
    let t = compact_timestamp(p);
    assert(year_text(p.year as int) == y);
    assert(t =~= y + mo + d + "-"@ + h + mi + se);
    assert(t.subrange(0, 4) =~= y);
    assert(t.subrange(4, 6) =~= mo);
    assert(t.subrange(6, 8) =~= d);
    assert(t.subrange(9, 11) =~= h);
    assert(t.subrange(11, 13) =~= mi);
    assert(t.subrange(13, 15) =~= se);
    assert(t.subrange(0, 8) =~= y + mo + d);
    assert(t.subrange(9, 15) =~= h + mi + se);
}

/// The report timestamp of an instant from year 0 on reads
/// `YYYY-MM-DD HH:MM UTC`: each field in its place, with leading zeros.
pub proof fn law_report_timestamp_fields(p: UtcParts)
    requires
        valid_parts(p),
        p.year >= 0,
    ensures
        report_timestamp(p).len() == 20,
        digits_value(report_timestamp(p).subrange(0, 4)) == p.year,
        report_timestamp(p)[4] == '-',
        digits_value(report_timestamp(p).subrange(5, 7)) == p.month,
        report_timestamp(p)[7] == '-',
        digits_value(report_timestamp(p).subrange(8, 10)) == p.day,
        report_timestamp(p)[10] == ' ',
        digits_value(report_timestamp(p).subrange(11, 13)) == p.hour,
        report_timestamp(p)[13] == ':',
        digits_value(report_timestamp(p).subrange(14, 16)) == p.minute,
        report_timestamp(p).subrange(16, 20) == " UTC"@,
{
    reveal_strlit("-");
    reveal_strlit(" ");
    reveal_strlit(":");
    reveal_strlit(" UTC");
    lemma_pow10_small();
    let y = padded(p.year as nat, 4);
    let mo = padded(p.month as nat, 2);
    let d = padded(p.day as nat, 2);
    let h = padded(p.hour as nat, 2);
    let mi = padded(p.minute as nat, 2);
    law_padded_reads_back(p.year as nat, 4);
    law_padded_reads_back(p.month as nat, 2);
    law_padded_reads_back(p.day as nat, 2);
    law_padded_reads_back(p.hour as nat, 2);
    law_padded_reads_back(p.minute as nat, 2);
    let t = report_timestamp(p);
    assert(year_text(p.year as int) == y);
    assert(t =~= y + "-"@ + mo + "-"@ + d + " "@ + h + ":"@ + mi + " UTC"@);
    assert(t.subrange(0, 4) =~= y);
    assert(t.subrange(5, 7) =~= mo);
    assert(t.subrange(8, 10) =~= d);
    assert(t.subrange(11, 13) =~= h);
    assert(t.subrange(14, 16) =~= mi);
    assert(t.subrange(16, 20) =~= " UTC"@);
}

} // verus!
