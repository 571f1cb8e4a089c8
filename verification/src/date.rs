//! PDF date strings, `D:YYYYMMDDHHmmSSOHH'mm`.
use vstd::prelude::*;

use crate::decimal::{
    decimal_chars, digits_value, lemma_zero_padded_value, lemma_decimal_len_bound, lemma_zero_padded_are_digits, lemma_zero_padded_len, pow10,
    push_decimal_str, push_zero_padded, zero_padded_bytes,
};
use crate::error::PdfError;
use crate::strbuf::{ascii_chars, push_ascii_bytes, push_str, owned};

verus! {

/// The relation of local time to UT: later (`P`), earlier (`M`) or equal (`Z`).
#[derive(Debug, Clone, Copy, PartialEq, Eq, Structural)]
pub enum OffsetCode {
    P,
    M,
    Z,
}

/// The character written for an offset code.
pub open spec fn offset_char(code: OffsetCode) -> char {
    match code {
        OffsetCode::P => '+',
        OffsetCode::M => '-',
        OffsetCode::Z => 'Z',
    }
}

impl OffsetCode {
    pub fn to_pdf_string(&self) -> (s: String)
        ensures
            s@ == seq![offset_char(*self)],
    {
        let mut s = String::new();
        let c = match self {
            OffsetCode::P => '+',
            OffsetCode::M => '-',
            OffsetCode::Z => 'Z',
        };
        crate::strbuf::push_char(&mut s, c);
        s
    }
}

/// The message of a value outside its range: `"<name> <val> out of range <min>-<max>"`.
pub open spec fn range_message(name: Seq<char>, val: nat, min: nat, max: nat) -> Seq<char> {
    name + " "@ + decimal_chars(val) + " out of range "@ + decimal_chars(min) + "-"@ + decimal_chars(max)
}

/// The message of the first field, in the order of `Date::new`'s parameters, that is out of
/// its range; `None` when every field is in range.
pub open spec fn date_error(
    year: u16,
    month: u8,
    day: u8,
    hour: u8,
    minute: u8,
    second: u8,
    offset_hours: u8,
    offset_minutes: u8,
) -> Option<Seq<char>> {
    if !(1 <= year <= 9999) {
        Some(range_message("year"@, year as nat, 1, 9999))
    } else if !(1 <= month <= 12) {
        Some(range_message("month"@, month as nat, 1, 12))
    } else if !(1 <= day <= 31) {
        Some(range_message("day"@, day as nat, 1, 31))
    } else if !(hour <= 23) {
        Some(range_message("hour"@, hour as nat, 0, 23))
    } else if !(minute <= 59) {
        Some(range_message("minute"@, minute as nat, 0, 59))
    } else if !(second <= 59) {
        Some(range_message("second"@, second as nat, 0, 59))
    } else if !(offset_hours <= 11) {
        Some(range_message("offset_hours"@, offset_hours as nat, 0, 11))
    } else if !(offset_minutes <= 59) {
        Some(range_message("offset_minutes"@, offset_minutes as nat, 0, 59))
    } else {
        None
    }
}

/// The bytes of a PDF date string.
pub open spec fn date_bytes(
    year: u16,
    month: u8,
    day: u8,
    hour: u8,
    minute: u8,
    second: u8,
    code: OffsetCode,
    offset_hours: u8,
    offset_minutes: u8,
) -> Seq<u8> {
    seq![68u8, 58u8] + zero_padded_bytes(year as nat, 4) + zero_padded_bytes(month as nat, 2)
        + zero_padded_bytes(day as nat, 2) + zero_padded_bytes(hour as nat, 2)
        + zero_padded_bytes(minute as nat, 2) + zero_padded_bytes(second as nat, 2)
        + seq![offset_char(code) as u8] + zero_padded_bytes(offset_hours as nat, 2) + seq![39u8]
        + zero_padded_bytes(offset_minutes as nat, 2)
}

/// A calendar date and time with its offset from UT.
pub struct Date {
    year: u16,
    month: u8,
    day: u8,
    hour: u8,
    minute: u8,
    second: u8,
    offset_code: OffsetCode,
    offset_hours: u8,
    offset_minutes: u8,
}

impl Date {
    /// Every field is in its range.
    #[verifier::type_invariant]
    closed spec fn in_range(&self) -> bool {
        date_error(self.year, self.month, self.day, self.hour, self.minute, self.second,
            self.offset_hours, self.offset_minutes) is None
    }

    pub closed spec fn spec_year(&self) -> u16 { self.year }
    pub closed spec fn spec_month(&self) -> u8 { self.month }
    pub closed spec fn spec_day(&self) -> u8 { self.day }
    pub closed spec fn spec_hour(&self) -> u8 { self.hour }
    pub closed spec fn spec_minute(&self) -> u8 { self.minute }
    pub closed spec fn spec_second(&self) -> u8 { self.second }
    pub closed spec fn spec_offset_code(&self) -> OffsetCode { self.offset_code }
    pub closed spec fn spec_offset_hours(&self) -> u8 { self.offset_hours }
    pub closed spec fn spec_offset_minutes(&self) -> u8 { self.offset_minutes }

    /// A date, or the `InvalidArgument` error of the first field out of range.
    pub fn new(
        year: u16,
        month: u8,
        day: u8,
        hour: u8,
        minute: u8,
        second: u8,
        offset_code: OffsetCode,
        offset_hours: u8,
        offset_minutes: u8,
    ) -> (r: Result<Self, PdfError>)
        ensures
            (r is Ok) <==> date_error(year, month, day, hour, minute, second, offset_hours, offset_minutes) is None,
            r matches Ok(d) ==> {
                &&& d.spec_year() == year
                &&& d.spec_month() == month
                &&& d.spec_day() == day
                &&& d.spec_hour() == hour
                &&& d.spec_minute() == minute
                &&& d.spec_second() == second
                &&& d.spec_offset_code() == offset_code
                &&& d.spec_offset_hours() == offset_hours
                &&& d.spec_offset_minutes() == offset_minutes
            },
            r matches Err(e) ==> e matches PdfError::InvalidArgument(m) && m@ == date_error(
                year, month, day, hour, minute, second, offset_hours, offset_minutes).unwrap(),
    {
        Self::check("year", year as u64, 1, 9999)?;
        Self::check("month", month as u64, 1, 12)?;
        Self::check("day", day as u64, 1, 31)?;
        Self::check("hour", hour as u64, 0, 23)?;
        Self::check("minute", minute as u64, 0, 59)?;
        Self::check("second", second as u64, 0, 59)?;
        Self::check("offset_hours", offset_hours as u64, 0, 11)?;
        Self::check("offset_minutes", offset_minutes as u64, 0, 59)?;
        Ok(Self { year, month, day, hour, minute, second, offset_code, offset_hours, offset_minutes })
    }

    /// `Ok` when `min <= val <= max`, else an `InvalidArgument` error naming the value.
    fn check(name: &str, val: u64, min: u64, max: u64) -> (r: Result<(), PdfError>)
        ensures
            (r is Ok) <==> (min <= val <= max),
            r matches Err(e) ==> e matches PdfError::InvalidArgument(m) && m@ == range_message(
                name@, val as nat, min as nat, max as nat),
    {
        if val < min || val > max {
            let mut m = owned(name);
            push_str(&mut m, " ");
            push_decimal_str(&mut m, val);
            push_str(&mut m, " out of range ");
            push_decimal_str(&mut m, min);
            push_str(&mut m, "-");
            push_decimal_str(&mut m, max);
            return Err(PdfError::InvalidArgument(m));
        }
        Ok(())
    }

    /// The bytes of the date string.
    fn date_string_bytes(&self) -> (b: Vec<u8>)
        ensures
            b@ == date_bytes(self.year, self.month, self.day, self.hour, self.minute, self.second,
                self.offset_code, self.offset_hours, self.offset_minutes),
            forall|i: int| 0 <= i < b@.len() ==> b@[i] < 128,
    {
        let mut b: Vec<u8> = Vec::new();
        b.push(68u8);
        b.push(58u8);
        push_zero_padded(&mut b, self.year as u64, 4);
        push_zero_padded(&mut b, self.month as u64, 2);
        push_zero_padded(&mut b, self.day as u64, 2);
        push_zero_padded(&mut b, self.hour as u64, 2);
        push_zero_padded(&mut b, self.minute as u64, 2);
        push_zero_padded(&mut b, self.second as u64, 2);
        let code: u8 = match self.offset_code {
            OffsetCode::P => 43u8,
            OffsetCode::M => 45u8,
            OffsetCode::Z => 90u8,
        };
        b.push(code);
        push_zero_padded(&mut b, self.offset_hours as u64, 2);
        b.push(39u8);
        push_zero_padded(&mut b, self.offset_minutes as u64, 2);
        let ghost expected = date_bytes(self.year, self.month, self.day, self.hour, self.minute,
            self.second, self.offset_code, self.offset_hours, self.offset_minutes);
        assert(b@ =~= expected);
        proof {
            assert forall|i: int| 0 <= i < b@.len() implies b@[i] < 128 by {
                lemma_date_bytes_ascii(self.year, self.month, self.day, self.hour, self.minute,
                    self.second, self.offset_code, self.offset_hours, self.offset_minutes, i);
            }
        }
        b
    }

    /// `D:YYYYMMDDHHmmSS` followed by the offset code, its hours, `'` and its minutes.
    pub fn to_pdf_string(&self) -> (s: String)
        ensures
            s@ == ascii_chars(date_bytes(
                self.spec_year(),
                self.spec_month(),
                self.spec_day(),
                self.spec_hour(),
                self.spec_minute(),
                self.spec_second(),
                self.spec_offset_code(),
                self.spec_offset_hours(),
                self.spec_offset_minutes(),
            )),
            s@.len() == 22,
    {
        proof {
            use_type_invariant(self);
            lemma_date_len(self.year, self.month, self.day, self.hour, self.minute, self.second,
                self.offset_code, self.offset_hours, self.offset_minutes);
        }
        let b = self.date_string_bytes();
        let mut s = String::new();
        push_ascii_bytes(&mut s, b.as_slice());
        s
    }
}

/// The date string of fields in range is 22 bytes long.
pub proof fn lemma_date_len(
    year: u16,
    month: u8,
    day: u8,
    hour: u8,
    minute: u8,
    second: u8,
    code: OffsetCode,
    offset_hours: u8,
    offset_minutes: u8,
)
    requires
        date_error(year, month, day, hour, minute, second, offset_hours, offset_minutes) is None,
    ensures
        date_bytes(year, month, day, hour, minute, second, code, offset_hours, offset_minutes).len() == 22,
{
    reveal_with_fuel(pow10, 5);
    lemma_decimal_len_bound(year as nat, 4);
    lemma_zero_padded_len(year as nat, 4);
    lemma_decimal_len_bound(month as nat, 2);
    lemma_zero_padded_len(month as nat, 2);
    lemma_decimal_len_bound(day as nat, 2);
    lemma_zero_padded_len(day as nat, 2);
    lemma_decimal_len_bound(hour as nat, 2);
    lemma_zero_padded_len(hour as nat, 2);
    lemma_decimal_len_bound(minute as nat, 2);
    lemma_zero_padded_len(minute as nat, 2);
    lemma_decimal_len_bound(second as nat, 2);
    lemma_zero_padded_len(second as nat, 2);
    lemma_decimal_len_bound(offset_hours as nat, 2);
    lemma_zero_padded_len(offset_hours as nat, 2);
    lemma_decimal_len_bound(offset_minutes as nat, 2);
    lemma_zero_padded_len(offset_minutes as nat, 2);
}

/// The layout of a date string: `D:` first, then the digits of the year (four), month, day,
/// hour, minute and second (two each), which spell those fields, then the offset sign (`+`
/// when local time is later than UT, `-` when earlier, `Z` when equal), the same character
/// `OffsetCode::to_pdf_string` gives, the two digits of the offset hours, an apostrophe and
/// the two digits of the offset minutes.
pub proof fn lemma_date_layout(
    year: u16,
    month: u8,
    day: u8,
    hour: u8,
    minute: u8,
    second: u8,
    code: OffsetCode,
    offset_hours: u8,
    offset_minutes: u8,
)
    requires
        date_error(year, month, day, hour, minute, second, offset_hours, offset_minutes) is None,
    ensures
        ({
            let b = date_bytes(year, month, day, hour, minute, second, code, offset_hours, offset_minutes);
            &&& b.len() == 22
            &&& b[0] == 68u8 && b[1] == 58u8
            &&& code == OffsetCode::P ==> b[16] == 43u8
            &&& code == OffsetCode::M ==> b[16] == 45u8
            &&& code == OffsetCode::Z ==> b[16] == 90u8
            &&& b[16] as char == offset_char(code)
            &&& b[19] == 39u8
            &&& digits_value(b.subrange(2, 6)) == year
            &&& digits_value(b.subrange(6, 8)) == month
            &&& digits_value(b.subrange(8, 10)) == day
            &&& digits_value(b.subrange(10, 12)) == hour
            &&& digits_value(b.subrange(12, 14)) == minute
            &&& digits_value(b.subrange(14, 16)) == second
            &&& digits_value(b.subrange(17, 19)) == offset_hours
            &&& digits_value(b.subrange(20, 22)) == offset_minutes
        }),
{
    lemma_date_len(year, month, day, hour, minute, second, code, offset_hours, offset_minutes);
    reveal_with_fuel(pow10, 5);
    lemma_decimal_len_bound(year as nat, 4);
    lemma_zero_padded_len(year as nat, 4);
    lemma_decimal_len_bound(month as nat, 2);
    lemma_zero_padded_len(month as nat, 2);
    lemma_decimal_len_bound(day as nat, 2);
    lemma_zero_padded_len(day as nat, 2);
    lemma_decimal_len_bound(hour as nat, 2);
    lemma_zero_padded_len(hour as nat, 2);
    lemma_decimal_len_bound(minute as nat, 2);
    lemma_zero_padded_len(minute as nat, 2);
    lemma_decimal_len_bound(second as nat, 2);
    lemma_zero_padded_len(second as nat, 2);
    lemma_decimal_len_bound(offset_hours as nat, 2);
    lemma_zero_padded_len(offset_hours as nat, 2);
    let head = seq![68u8, 58u8] + zero_padded_bytes(year as nat, 4) + zero_padded_bytes(month as nat, 2)
        + zero_padded_bytes(day as nat, 2) + zero_padded_bytes(hour as nat, 2)
        + zero_padded_bytes(minute as nat, 2) + zero_padded_bytes(second as nat, 2);
    let sign: u8 = match code {
        OffsetCode::P => 43u8,
        OffsetCode::M => 45u8,
        OffsetCode::Z => 90u8,
    };
    let b = date_bytes(year, month, day, hour, minute, second, code, offset_hours, offset_minutes);
    assert(head.len() == 16);
    assert(b == head + seq![sign] + zero_padded_bytes(offset_hours as nat, 2) + seq![39u8]
        + zero_padded_bytes(offset_minutes as nat, 2));
    assert(b[0] == head[0] && b[1] == head[1]);
    assert(b[16] == sign);
    assert(b[19] == 39u8);
    lemma_decimal_len_bound(offset_minutes as nat, 2);
    lemma_zero_padded_len(offset_minutes as nat, 2);
    lemma_zero_padded_value(year as nat, 4);
    lemma_zero_padded_value(month as nat, 2);
    lemma_zero_padded_value(day as nat, 2);
    lemma_zero_padded_value(hour as nat, 2);
    lemma_zero_padded_value(minute as nat, 2);
    lemma_zero_padded_value(second as nat, 2);
    lemma_zero_padded_value(offset_hours as nat, 2);
    lemma_zero_padded_value(offset_minutes as nat, 2);
    assert(b.subrange(2, 6) =~= zero_padded_bytes(year as nat, 4));
    assert(b.subrange(6, 8) =~= zero_padded_bytes(month as nat, 2));
    assert(b.subrange(8, 10) =~= zero_padded_bytes(day as nat, 2));
    assert(b.subrange(10, 12) =~= zero_padded_bytes(hour as nat, 2));
    assert(b.subrange(12, 14) =~= zero_padded_bytes(minute as nat, 2));
    assert(b.subrange(14, 16) =~= zero_padded_bytes(second as nat, 2));
    assert(b.subrange(17, 19) =~= zero_padded_bytes(offset_hours as nat, 2));
    assert(b.subrange(20, 22) =~= zero_padded_bytes(offset_minutes as nat, 2));
}

/// Every byte of a date string is ASCII.
proof fn lemma_date_bytes_ascii(
    year: u16,
    month: u8,
    day: u8,
    hour: u8,
    minute: u8,
    second: u8,
    code: OffsetCode,
    offset_hours: u8,
    offset_minutes: u8,
    i: int,
)
    requires
        0 <= i < date_bytes(year, month, day, hour, minute, second, code, offset_hours, offset_minutes).len(),
    ensures
        date_bytes(year, month, day, hour, minute, second, code, offset_hours, offset_minutes)[i] < 128,
{
    let parts = seq![
        seq![68u8, 58u8],
        zero_padded_bytes(year as nat, 4),
        zero_padded_bytes(month as nat, 2),
        zero_padded_bytes(day as nat, 2),
        zero_padded_bytes(hour as nat, 2),
        zero_padded_bytes(minute as nat, 2),
        zero_padded_bytes(second as nat, 2),
        seq![offset_char(code) as u8],
        zero_padded_bytes(offset_hours as nat, 2),
        seq![39u8],
        zero_padded_bytes(offset_minutes as nat, 2),
    ];
    lemma_zero_padded_are_digits(year as nat, 4);
    lemma_zero_padded_are_digits(month as nat, 2);
    lemma_zero_padded_are_digits(day as nat, 2);
    lemma_zero_padded_are_digits(hour as nat, 2);
    lemma_zero_padded_are_digits(minute as nat, 2);
    lemma_zero_padded_are_digits(second as nat, 2);
    lemma_zero_padded_are_digits(offset_hours as nat, 2);
    lemma_zero_padded_are_digits(offset_minutes as nat, 2);
    let all = date_bytes(year, month, day, hour, minute, second, code, offset_hours, offset_minutes);
    assert(forall|k: int| 0 <= k < 11 ==> forall|m: int| 0 <= m < #[trigger] parts[k].len() ==> parts[k][m] < 128);
    assert(all =~= parts[0] + parts[1] + parts[2] + parts[3] + parts[4] + parts[5] + parts[6] + parts[7] + parts[8] + parts[9] + parts[10]);
}

} // verus!
