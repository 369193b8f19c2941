//! The date-time host values a cell can hold: a timestamp, a day-to-second
//! interval and a year-to-month interval, each with a canonical text form.

use vstd::prelude::*;

use crate::error::Error;
use crate::text::{
    all_digits, chars_to_string, spec_dec_digits, spec_dec_val, sub_chars, zero_pad_u64,
};

verus! {

use crate::text::spec_zero_pad;
use crate::text::pow10;

/// Computes a small power of ten.
pub fn pow10_u32(k: u32) -> (r: u32)
    requires
        k <= 9,
    ensures
        r == pow10(k as nat),
    decreases k,
{
    if k == 0 {
        1
    } else {
        proof {
            lemma_pow10_bound(k as nat);
        }
        10 * pow10_u32(k - 1)
    }
}

/// Powers of ten up to the ninth stay within `u32`'s range; the ninth is a
/// billion exactly.
pub proof fn lemma_pow10_bound(k: nat)
    requires
        k <= 9,
    ensures
        pow10(k) <= 1000000000,
        k == 9 ==> pow10(k) == 1000000000,
{
    reveal_with_fuel(pow10, 11);
    if k == 0 {
        assert(pow10(0) == 1);
    } else if k == 1 {
        assert(pow10(1) == 10);
    } else if k == 2 {
        assert(pow10(2) == 100);
    } else if k == 3 {
        assert(pow10(3) == 1000);
    } else if k == 4 {
        assert(pow10(4) == 10000);
    } else if k == 5 {
        assert(pow10(5) == 100000);
    } else if k == 6 {
        assert(pow10(6) == 1000000);
    } else if k == 7 {
        assert(pow10(7) == 10000000);
    } else if k == 8 {
        assert(pow10(8) == 100000000);
    } else {
        assert(pow10(9) == 1000000000);
    }
}

/// A digit group of at most nine places holds a value below a billion, so
/// it always fits a 64-bit integer.
proof fn lemma_group_fits(g: Seq<char>)
    requires
        g.len() <= 9,
        all_digits(g),
    ensures
        spec_dec_val(g) < 1000000000,
{
    crate::text::lemma_dec_val_len_bound(g);
    lemma_pow10_bound(g.len());
}

// ---------------------------------------------------------------------------
// Timestamp
// ---------------------------------------------------------------------------

/// A date-time value: date, time of day, fractional seconds, and an optional
/// time-zone offset. `precision` is the count of fractional digits the text
/// form shows; `with_tz` says whether the text form shows the offset.
#[derive(Debug, Clone, Copy, PartialEq, Eq, Structural)]
pub struct Timestamp {
    pub year: i32,
    pub month: u32,
    pub day: u32,
    pub hour: u32,
    pub minute: u32,
    pub second: u32,
    pub nanosecond: u32,
    pub tz_hour_offset: i32,
    pub tz_minute_offset: i32,
    pub precision: u8,
    pub with_tz: bool,
}

/// Well-formedness of a timestamp: every field within its calendar range,
/// the two offset parts never of opposite signs.
pub open spec fn ts_wf(t: Timestamp) -> bool {
    &&& -4713 <= t.year <= 9999
    &&& 1 <= t.month <= 12
    &&& 1 <= t.day <= 31
    &&& t.hour <= 23
    &&& t.minute <= 59
    &&& t.second <= 59
    &&& t.nanosecond < 1000000000
    &&& -23 <= t.tz_hour_offset <= 23
    &&& -59 <= t.tz_minute_offset <= 59
    &&& !(t.tz_hour_offset > 0 && t.tz_minute_offset < 0)
    &&& !(t.tz_hour_offset < 0 && t.tz_minute_offset > 0)
    &&& t.precision <= 9
}

impl Timestamp {
    /// Builds a timestamp without a time-zone offset, shown with nine
    /// fractional digits.
    pub fn new(year: i32, month: u32, day: u32, hour: u32, minute: u32, second: u32,
        nanosecond: u32) -> (r: Timestamp)
        requires
            -4713 <= year <= 9999,
            1 <= month <= 12,
            1 <= day <= 31,
            hour <= 23,
            minute <= 59,
            second <= 59,
            nanosecond < 1000000000,
        ensures
            r == (Timestamp {
                year,
                month,
                day,
                hour,
                minute,
                second,
                nanosecond,
                tz_hour_offset: 0,
                tz_minute_offset: 0,
                precision: 9,
                with_tz: false,
            }),
            ts_wf(r),
    {
        Timestamp {
            year,
            month,
            day,
            hour,
            minute,
            second,
            nanosecond,
            tz_hour_offset: 0,
            tz_minute_offset: 0,
            precision: 9,
            with_tz: false,
        }
    }

    /// The same instant with a time-zone offset, shown with the offset.
    pub fn and_tz_offset(self, hour_offset: i32, minute_offset: i32) -> (r: Timestamp)
        requires
            -23 <= hour_offset <= 23,
            -59 <= minute_offset <= 59,
            !(hour_offset > 0 && minute_offset < 0),
            !(hour_offset < 0 && minute_offset > 0),
        ensures
            r == (Timestamp {
                tz_hour_offset: hour_offset,
                tz_minute_offset: minute_offset,
                with_tz: true,
                ..self
            }),
    {
        Timestamp { tz_hour_offset: hour_offset, tz_minute_offset: minute_offset, with_tz: true, ..self }
    }

    /// The same instant shown with the given count of fractional digits.
    pub fn and_precision(self, precision: u8) -> (r: Timestamp)
        requires
            precision <= 9,
        ensures
            r == (Timestamp { precision, ..self }),
    {
        Timestamp { precision, ..self }
    }
}

/// A nonnegative value zero-padded to two places.
pub open spec fn pad2(n: nat) -> Seq<char> {
    spec_zero_pad(n, 2)
}

/// The canonical text of the date part: `YYYY-MM-DD`, the year four places,
/// a leading `-` on a negative year.
pub open spec fn spec_date_text(t: Timestamp) -> Seq<char> {
    let y = if t.year < 0 {
        seq!['-'] + spec_zero_pad((-t.year) as nat, 4)
    } else {
        spec_zero_pad(t.year as nat, 4)
    };
    y + seq!['-'] + pad2(t.month as nat) + seq!['-'] + pad2(t.day as nat)
}

/// The canonical text of the time part: ` HH:MM:SS`.
pub open spec fn spec_time_text(t: Timestamp) -> Seq<char> {
    seq![' '] + pad2(t.hour as nat) + seq![':'] + pad2(t.minute as nat) + seq![':'] + pad2(
        t.second as nat,
    )
}

/// The fractional part: a point and the first `precision` digits of the
/// nine-place nanosecond field; empty when the precision is zero.
pub open spec fn spec_frac_text(t: Timestamp) -> Seq<char> {
    if t.precision == 0 {
        Seq::empty()
    } else {
        seq!['.'] + spec_zero_pad(t.nanosecond as nat, 9).subrange(0, t.precision as int)
    }
}

/// The offset part: ` +HH:MM` or ` -HH:MM`; empty without an offset.
pub open spec fn spec_tz_text(t: Timestamp) -> Seq<char> {
    if !t.with_tz {
        Seq::empty()
    } else {
        let sign = if t.tz_hour_offset < 0 || t.tz_minute_offset < 0 {
            '-'
        } else {
            '+'
        };
        let h = if t.tz_hour_offset < 0 {
            (-t.tz_hour_offset) as nat
        } else {
            t.tz_hour_offset as nat
        };
        let m = if t.tz_minute_offset < 0 {
            (-t.tz_minute_offset) as nat
        } else {
            t.tz_minute_offset as nat
        };
        seq![' ', sign] + pad2(h) + seq![':'] + pad2(m)
    }
}

/// The canonical text of a timestamp.
pub open spec fn spec_ts_text(t: Timestamp) -> Seq<char> {
    spec_date_text(t) + spec_time_text(t) + spec_frac_text(t) + spec_tz_text(t)
}

/// Renders a timestamp in its canonical text form.
#[verifier::rlimit(60)]
pub fn format_timestamp(t: &Timestamp) -> (r: Vec<char>)
    requires
        ts_wf(*t),
    ensures
        r@ == spec_ts_text(*t),
{
    let mut v: Vec<char> = Vec::new();
    if t.year < 0 {
        v.push('-');
        let y = zero_pad_u64((-t.year) as u64, 4);
        crate::types::append_chars(&mut v, &y);
        assert(v@ =~= seq!['-'] + spec_zero_pad((-t.year) as nat, 4));
    } else {
        let y = zero_pad_u64(t.year as u64, 4);
        crate::types::append_chars(&mut v, &y);
        assert(v@ =~= spec_zero_pad(t.year as nat, 4));
    }
    let ghost ypart = v@;
    v.push('-');
    let mo = zero_pad_u64(t.month as u64, 2);
    crate::types::append_chars(&mut v, &mo);
    v.push('-');
    let d = zero_pad_u64(t.day as u64, 2);
    crate::types::append_chars(&mut v, &d);
    assert(v@ =~= spec_date_text(*t));
    let ghost dpart = v@;
    v.push(' ');
    let h = zero_pad_u64(t.hour as u64, 2);
    crate::types::append_chars(&mut v, &h);
    v.push(':');
    let mi = zero_pad_u64(t.minute as u64, 2);
    crate::types::append_chars(&mut v, &mi);
    v.push(':');
    let s = zero_pad_u64(t.second as u64, 2);
    crate::types::append_chars(&mut v, &s);
    assert(v@ =~= dpart + spec_time_text(*t));
    let ghost tpart = v@;
    if t.precision > 0 {
        v.push('.');
        let n9 = zero_pad_u64(t.nanosecond as u64, 9);
        proof {
            lemma_pow10_bound(9);
            crate::text::lemma_dec_digits_len_le(t.nanosecond as nat, 9);
        }
        let frac = sub_chars(&n9, 0, t.precision as usize);
        crate::types::append_chars(&mut v, &frac);
        assert(v@ =~= tpart + spec_frac_text(*t));
    }
    let ghost fpart = v@;
    assert(fpart == tpart + spec_frac_text(*t));
    if t.with_tz {
        v.push(' ');
        if t.tz_hour_offset < 0 || t.tz_minute_offset < 0 {
            v.push('-');
        } else {
            v.push('+');
        }
        let th: u64 = if t.tz_hour_offset < 0 {
            (-t.tz_hour_offset) as u64
        } else {
            t.tz_hour_offset as u64
        };
        let tm: u64 = if t.tz_minute_offset < 0 {
            (-t.tz_minute_offset) as u64
        } else {
            t.tz_minute_offset as u64
        };
        let hp = zero_pad_u64(th, 2);
        crate::types::append_chars(&mut v, &hp);
        v.push(':');
        let mp = zero_pad_u64(tm, 2);
        crate::types::append_chars(&mut v, &mp);
        assert(v@ =~= fpart + spec_tz_text(*t));
    }
    proof {
        assert(v@ =~= spec_ts_text(*t));
    }
    v
}

/// Renders a timestamp as a `String` in its canonical text form.
pub fn timestamp_to_string(t: &Timestamp) -> (r: String)
    requires
        ts_wf(*t),
    ensures
        r@ == spec_ts_text(*t),
{
    let v = format_timestamp(t);
    chars_to_string(&v)
}

/// The index of the first space at or after `i`, or the length.
pub open spec fn space_end(s: Seq<char>, i: int) -> int
    decreases s.len() - i,
{
    if i < 0 || i >= s.len() {
        s.len() as int
    } else if s[i] == ' ' {
        i
    } else {
        space_end(s, i + 1)
    }
}

/// The time-zone tail at position `p`: absent, or ` +HH:MM` / ` -HH:MM`
/// with the hours at most twenty-three and the minutes at most fifty-nine.
pub open spec fn ts_zone_shape(s: Seq<char>, p: int) -> bool {
    p == s.len() || {
        &&& s.len() == p + 7
        &&& s[p] == ' '
        &&& (s[p + 1] == '+' || s[p + 1] == '-')
        &&& s[p + 4] == ':'
        &&& all_digits(s.subrange(p + 2, p + 4))
        &&& spec_dec_val(s.subrange(p + 2, p + 4)) <= 23
        &&& all_digits(s.subrange(p + 5, p + 7))
        &&& spec_dec_val(s.subrange(p + 5, p + 7)) <= 59
    }
}

/// The canonical timestamp text: `YYYY-MM-DD`, optionally ` HH:MM:SS`,
/// optionally `.` and one to nine fractional places, optionally a zone
/// tail, every group of digits within its calendar range.
pub open spec fn ts_text_shape(s: Seq<char>) -> bool {
    &&& s.len() >= 10
    &&& all_digits(s.subrange(0, 4))
    &&& s[4] == '-' && s[7] == '-'
    &&& all_digits(s.subrange(5, 7))
    &&& 1 <= spec_dec_val(s.subrange(5, 7)) <= 12
    &&& all_digits(s.subrange(8, 10))
    &&& 1 <= spec_dec_val(s.subrange(8, 10)) <= 31
    &&& (s.len() > 10 ==> {
        &&& s.len() >= 19
        &&& s[10] == ' ' && s[13] == ':' && s[16] == ':'
        &&& all_digits(s.subrange(11, 13))
        &&& spec_dec_val(s.subrange(11, 13)) <= 23
        &&& all_digits(s.subrange(14, 16))
        &&& spec_dec_val(s.subrange(14, 16)) <= 59
        &&& all_digits(s.subrange(17, 19))
        &&& spec_dec_val(s.subrange(17, 19)) <= 59
        &&& (s.len() > 19 ==> if s[19] == '.' {
            let fe = space_end(s, 20);
            &&& 1 <= fe - 20 <= 9
            &&& all_digits(s.subrange(20, fe))
            &&& ts_zone_shape(s, fe)
        } else {
            ts_zone_shape(s, 19)
        })
    })
}

/// How a timestamp relates to the text it was parsed from: every field is
/// the decimal value of its digit group, the precision is the count of
/// fractional places, the offset is present exactly when the text holds
/// one and carries the text's sign.
pub open spec fn ts_fields_of_text(t: Timestamp, s: Seq<char>) -> bool {
    &&& s.len() >= 10
    &&& t.year == spec_dec_val(s.subrange(0, 4))
    &&& t.month == spec_dec_val(s.subrange(5, 7))
    &&& t.day == spec_dec_val(s.subrange(8, 10))
    &&& (s.len() > 10 ==> t.hour == spec_dec_val(s.subrange(11, 13)) && t.minute == spec_dec_val(
        s.subrange(14, 16),
    ) && t.second == spec_dec_val(s.subrange(17, 19)))
    &&& (s.len() == 10 ==> t.hour == 0 && t.minute == 0 && t.second == 0 && t.nanosecond == 0
        && t.precision == 0 && !t.with_tz)
    &&& (s.len() > 10 ==> {
        let frac_end = if t.precision > 0 {
            20 + t.precision as int
        } else {
            19
        };
        &&& (t.precision > 0 <==> s.len() > 19 && s[19] == '.')
        &&& (t.precision > 0 ==> frac_end == space_end(s, 20) && t.nanosecond == spec_dec_val(
            s.subrange(20, frac_end),
        ) * pow10((9 - t.precision) as nat))
        &&& (t.precision == 0 ==> t.nanosecond == 0)
        &&& (t.with_tz <==> frac_end < s.len())
        &&& (t.with_tz ==> s.len() == frac_end + 7 && (s[frac_end + 1] == '+' || s[frac_end + 1]
            == '-') && abs_nat(t.tz_hour_offset as int) == spec_dec_val(
            s.subrange(frac_end + 2, frac_end + 4),
        ) && abs_nat(t.tz_minute_offset as int) == spec_dec_val(
            s.subrange(frac_end + 5, frac_end + 7),
        ) && ((t.tz_hour_offset < 0 || t.tz_minute_offset < 0) ==> s[frac_end + 1] == '-') && (s[
            frac_end + 1] == '+' ==> t.tz_hour_offset >= 0 && t.tz_minute_offset >= 0))
        &&& (!t.with_tz ==> t.tz_hour_offset == 0 && t.tz_minute_offset == 0)
    })
}

/// Parses the canonical timestamp text: `YYYY-MM-DD`, optionally
/// ` HH:MM:SS`, optionally `.` and one to nine fractional digits, optionally
/// ` +HH:MM` or ` -HH:MM`. Succeeds exactly on [`ts_text_shape`], with the
/// result's fields pinned by [`ts_fields_of_text`].
pub fn parse_timestamp(s: &Vec<char>) -> (r: Result<Timestamp, Error>)
    ensures
        r is Ok <==> ts_text_shape(s@),
        r is Ok ==> ts_wf(r->Ok_0),
        r is Ok ==> ts_fields_of_text(r->Ok_0, s@),
        r is Err ==> r->Err_0 matches Error::ParseError(_),
{
    if s.len() < 10 {
        return Err(Error::ParseError(chars_to_string(s)));
    }
    let ydig = sub_chars(s, 0, 4);
    let year = match crate::text::parse_u64(&ydig) {
        Ok(v) => v,
        Err(e) => {
            proof {
                crate::text::lemma_pow10_values();
                if all_digits(ydig@) {
                    crate::text::lemma_dec_val_len_bound(ydig@);
                }
            }
            return Err(e);
        },
    };
    proof {
        crate::text::lemma_pow10_values();
        crate::text::lemma_dec_val_len_bound(ydig@);
    }
    if !(s[4] == '-' && s[7] == '-') {
        return Err(Error::ParseError(chars_to_string(s)));
    }
    let modig = sub_chars(s, 5, 7);
    let month = match crate::text::parse_u64(&modig) {
        Ok(v) => v,
        Err(e) => {
            proof {
                if all_digits(modig@) {
                    lemma_group_fits(modig@);
                }
            }
            return Err(e);
        },
    };
    let ddig = sub_chars(s, 8, 10);
    let day = match crate::text::parse_u64(&ddig) {
        Ok(v) => v,
        Err(e) => {
            proof {
                if all_digits(ddig@) {
                    lemma_group_fits(ddig@);
                }
            }
            return Err(e);
        },
    };
    if year > 9999 || month < 1 || month > 12 || day < 1 || day > 31 {
        return Err(Error::ParseError(chars_to_string(s)));
    }
    if s.len() == 10 {
        return Ok(
            Timestamp {
                year: year as i32,
                month: month as u32,
                day: day as u32,
                hour: 0,
                minute: 0,
                second: 0,
                nanosecond: 0,
                tz_hour_offset: 0,
                tz_minute_offset: 0,
                precision: 0,
                with_tz: false,
            },
        );
    }
    if s.len() < 19 {
        return Err(Error::ParseError(chars_to_string(s)));
    }
    if !(s[10] == ' ' && s[13] == ':' && s[16] == ':') {
        return Err(Error::ParseError(chars_to_string(s)));
    }
    let hdig = sub_chars(s, 11, 13);
    let hour = match crate::text::parse_u64(&hdig) {
        Ok(v) => v,
        Err(e) => {
            proof {
                if all_digits(hdig@) {
                    lemma_group_fits(hdig@);
                }
            }
            return Err(e);
        },
    };
    let midig = sub_chars(s, 14, 16);
    let minute = match crate::text::parse_u64(&midig) {
        Ok(v) => v,
        Err(e) => {
            proof {
                if all_digits(midig@) {
                    lemma_group_fits(midig@);
                }
            }
            return Err(e);
        },
    };
    let sdig = sub_chars(s, 17, 19);
    let second = match crate::text::parse_u64(&sdig) {
        Ok(v) => v,
        Err(e) => {
            proof {
                if all_digits(sdig@) {
                    lemma_group_fits(sdig@);
                }
            }
            return Err(e);
        },
    };
    if hour > 23 || minute > 59 || second > 59 {
        return Err(Error::ParseError(chars_to_string(s)));
    }
    let mut pos: usize = 19;
    let mut nanosecond: u32 = 0;
    let mut precision: u8 = 0;
    if pos < s.len() && s[pos] == '.' {
        let mut end: usize = pos + 1;
        while end < s.len() && s[end] != ' '
            invariant
                pos == 19,
                pos + 1 <= end <= s@.len(),
                space_end(s@, 20) == space_end(s@, end as int),
            decreases s@.len() - end,
        {
            end = end + 1;
        }
        proof {
            assert(space_end(s@, 20) == end as int);
        }
        let count = end - (pos + 1);
        if count < 1 || count > 9 {
            return Err(Error::ParseError(chars_to_string(s)));
        }
        let fdig = sub_chars(s, pos + 1, end);
        let fval = match crate::text::parse_u64(&fdig) {
            Ok(v) => v,
            Err(e) => {
                proof {
                    if all_digits(fdig@) {
                        lemma_group_fits(fdig@);
                    }
                }
                return Err(e);
            },
        };
        proof {
            crate::text::lemma_dec_val_len_bound(fdig@);
            lemma_pow10_mul_bound(fval as nat, count as nat, 9);
            lemma_pow10_pos((9 - count) as nat);
            assert(fval as nat * pow10((9 - count) as nat) >= fval as nat * 1) by (nonlinear_arith)
                requires
                    pow10((9 - count) as nat) >= 1,
            ;
        }
        let scale = pow10_u32((9 - count) as u32);
        let prod: u64 = fval * (scale as u64);
        nanosecond = prod as u32;
        precision = count as u8;
        pos = end;
    }
    let mut tz_hour: i32 = 0;
    let mut tz_minute: i32 = 0;
    let mut with_tz = false;
    if pos < s.len() {
        if !(pos + 7 == s.len() && s[pos] == ' ' && (s[pos + 1] == '+' || s[pos + 1] == '-')
            && s[pos + 4] == ':') {
            return Err(Error::ParseError(chars_to_string(s)));
        }
        let hdig2 = sub_chars(s, pos + 2, pos + 4);
        let th = match crate::text::parse_u64(&hdig2) {
            Ok(v) => v,
            Err(e) => {
                proof {
                    if all_digits(hdig2@) {
                        lemma_group_fits(hdig2@);
                    }
                }
                return Err(e);
            },
        };
        let mdig2 = sub_chars(s, pos + 5, pos + 7);
        let tm = match crate::text::parse_u64(&mdig2) {
            Ok(v) => v,
            Err(e) => {
                proof {
                    if all_digits(mdig2@) {
                        lemma_group_fits(mdig2@);
                    }
                }
                return Err(e);
            },
        };
        if th > 23 || tm > 59 {
            return Err(Error::ParseError(chars_to_string(s)));
        }
        let negative = s[pos + 1] == '-';
        tz_hour = if negative {
            -(th as i32)
        } else {
            th as i32
        };
        tz_minute = if negative {
            -(tm as i32)
        } else {
            tm as i32
        };
        with_tz = true;
    }
    Ok(
        Timestamp {
            year: year as i32,
            month: month as u32,
            day: day as u32,
            hour: hour as u32,
            minute: minute as u32,
            second: second as u32,
            nanosecond,
            tz_hour_offset: tz_hour,
            tz_minute_offset: tz_minute,
            precision,
            with_tz,
        },
    )
}

/// A fractional-digit value scaled to nine places stays below a billion.
proof fn lemma_pow10_mul_bound(v: nat, count: nat, total: nat)
    requires
        1 <= count <= total <= 9,
        v < pow10(count),
    ensures
        v * pow10((total - count) as nat) < pow10(total),
        pow10(total) <= 1000000000,
    decreases count,
{
    lemma_pow10_bound(total);
    lemma_pow10_split(count, (total - count) as nat);
    lemma_pow10_pos((total - count) as nat);
    let p = pow10((total - count) as nat);
    assert(v * p < pow10(count) * p) by (nonlinear_arith)
        requires
            v < pow10(count),
            p >= 1,
    ;
}

/// `pow10` turns addition of exponents into multiplication.
pub proof fn lemma_pow10_split(a: nat, b: nat)
    ensures
        pow10(a + b) == pow10(a) * pow10(b),
    decreases a,
{
    if a == 0 {
        assert(pow10(0) == 1);
    } else {
        lemma_pow10_split((a - 1) as nat, b);
        assert(a + b >= 1);
        assert(pow10(a + b) == 10 * pow10((a + b - 1) as nat));
        assert((a + b - 1) as nat == (a - 1) as nat + b);
        assert(pow10((a - 1) as nat + b) == pow10((a - 1) as nat) * pow10(b));
        assert(10 * (pow10((a - 1) as nat) * pow10(b)) == (10 * pow10((a - 1) as nat)) * pow10(b))
            by (nonlinear_arith);
        assert(pow10(a) == 10 * pow10((a - 1) as nat));
    }
}

/// Powers of ten are positive.
pub proof fn lemma_pow10_pos(k: nat)
    ensures
        pow10(k) >= 1,
    decreases k,
{
    if k > 0 {
        lemma_pow10_pos((k - 1) as nat);
    }
}

/// The canonical timestamp text determines the date and time fields: the
/// digit groups at the fixed positions evaluate back to exactly the fields
/// that were rendered. Together with the parser's field contract, a
/// rendering that parses recovers the rendered date and time, and two
/// timestamps with the same rendering agree on them. Negative years are
/// excluded: their rendering carries a sign the fixed positions do not.
#[verifier::rlimit(100)]
pub proof fn lemma_ts_text_determines_fields(t: Timestamp)
    requires
        ts_wf(t),
        0 <= t.year,
    ensures
        spec_ts_text(t).len() >= 19,
        spec_dec_val(spec_ts_text(t).subrange(0, 4)) == t.year,
        spec_ts_text(t)[4] == '-',
        spec_dec_val(spec_ts_text(t).subrange(5, 7)) == t.month,
        spec_ts_text(t)[7] == '-',
        spec_dec_val(spec_ts_text(t).subrange(8, 10)) == t.day,
        spec_ts_text(t)[10] == ' ',
        spec_dec_val(spec_ts_text(t).subrange(11, 13)) == t.hour,
        spec_dec_val(spec_ts_text(t).subrange(14, 16)) == t.minute,
        spec_dec_val(spec_ts_text(t).subrange(17, 19)) == t.second,
{
    crate::text::lemma_pow10_values();
    crate::text::lemma_dec_digits_len_le(t.year as nat, 4);
    crate::text::lemma_dec_digits_len_le(t.month as nat, 2);
    crate::text::lemma_dec_digits_len_le(t.day as nat, 2);
    crate::text::lemma_dec_digits_len_le(t.hour as nat, 2);
    crate::text::lemma_dec_digits_len_le(t.minute as nat, 2);
    crate::text::lemma_dec_digits_len_le(t.second as nat, 2);
    crate::text::lemma_zero_pad_val(t.year as nat, 4);
    crate::text::lemma_zero_pad_val(t.month as nat, 2);
    crate::text::lemma_zero_pad_val(t.day as nat, 2);
    crate::text::lemma_zero_pad_val(t.hour as nat, 2);
    crate::text::lemma_zero_pad_val(t.minute as nat, 2);
    crate::text::lemma_zero_pad_val(t.second as nat, 2);
    let y = spec_zero_pad(t.year as nat, 4);
    let mo = pad2(t.month as nat);
    let d = pad2(t.day as nat);
    let h = pad2(t.hour as nat);
    let mi = pad2(t.minute as nat);
    let se = pad2(t.second as nat);
    let text = spec_ts_text(t);
    assert(y.len() == 4 && mo.len() == 2 && d.len() == 2 && h.len() == 2 && mi.len() == 2
        && se.len() == 2);
    assert(spec_date_text(t) == y + seq!['-'] + mo + seq!['-'] + d);
    assert(text.subrange(0, 4) =~= y);
    assert(text.subrange(5, 7) =~= mo);
    assert(text.subrange(8, 10) =~= d);
    assert(text.subrange(11, 13) =~= h);
    assert(text.subrange(14, 16) =~= mi);
    assert(text.subrange(17, 19) =~= se);
}

/// Decides [`ts_wf`].
pub fn ts_wf_check(t: &Timestamp) -> (r: bool)
    ensures
        r == ts_wf(*t),
{
    -4713 <= t.year && t.year <= 9999 && 1 <= t.month && t.month <= 12 && 1 <= t.day && t.day <= 31
        && t.hour <= 23 && t.minute <= 59 && t.second <= 59 && t.nanosecond < 1000000000 && -23
        <= t.tz_hour_offset && t.tz_hour_offset <= 23 && -59 <= t.tz_minute_offset
        && t.tz_minute_offset <= 59 && !(t.tz_hour_offset > 0 && t.tz_minute_offset < 0) && !(
    t.tz_hour_offset < 0 && t.tz_minute_offset > 0) && t.precision <= 9
}

// ---------------------------------------------------------------------------
// Day-to-second interval
// ---------------------------------------------------------------------------

/// A day-to-second interval. All components carry the interval's sign; no
/// two are of opposite signs. `lfprec` is the count of places the day count
/// shows; `fsprec` the count of fractional-second places.
#[derive(Debug, Clone, Copy, PartialEq, Eq, Structural)]
pub struct IntervalDS {
    pub days: i32,
    pub hours: i32,
    pub minutes: i32,
    pub seconds: i32,
    pub nanoseconds: i32,
    pub lfprec: u8,
    pub fsprec: u8,
}

/// Well-formedness of a day-to-second interval.
pub open spec fn ids_wf(v: IntervalDS) -> bool {
    &&& -999999999 <= v.days <= 999999999
    &&& -23 <= v.hours <= 23
    &&& -59 <= v.minutes <= 59
    &&& -59 <= v.seconds <= 59
    &&& -999999999 <= v.nanoseconds <= 999999999
    &&& ids_signs_agree(v)
    &&& v.lfprec <= 9
    &&& v.fsprec <= 9
}

/// No component is positive while another is negative.
pub open spec fn ids_signs_agree(v: IntervalDS) -> bool {
    let any_pos = v.days > 0 || v.hours > 0 || v.minutes > 0 || v.seconds > 0 || v.nanoseconds > 0;
    let any_neg = v.days < 0 || v.hours < 0 || v.minutes < 0 || v.seconds < 0 || v.nanoseconds < 0;
    !(any_pos && any_neg)
}

impl IntervalDS {
    /// Builds a day-to-second interval shown with nine day places and nine
    /// fractional places.
    pub fn new(days: i32, hours: i32, minutes: i32, seconds: i32, nanoseconds: i32) -> (r:
        IntervalDS)
        requires
            -999999999 <= days <= 999999999,
            -23 <= hours <= 23,
            -59 <= minutes <= 59,
            -59 <= seconds <= 59,
            -999999999 <= nanoseconds <= 999999999,
            ids_signs_agree(IntervalDS {
                days,
                hours,
                minutes,
                seconds,
                nanoseconds,
                lfprec: 9,
                fsprec: 9,
            }),
        ensures
            r == (IntervalDS { days, hours, minutes, seconds, nanoseconds, lfprec: 9, fsprec: 9 }),
            ids_wf(r),
    {
        IntervalDS { days, hours, minutes, seconds, nanoseconds, lfprec: 9, fsprec: 9 }
    }

    /// The same interval with the given day and fractional place counts.
    pub fn and_prec(self, lfprec: u8, fsprec: u8) -> (r: IntervalDS)
        requires
            lfprec <= 9,
            fsprec <= 9,
        ensures
            r == (IntervalDS { lfprec, fsprec, ..self }),
    {
        IntervalDS { lfprec, fsprec, ..self }
    }
}

/// Decides [`ids_wf`].
pub fn ids_wf_check(v: &IntervalDS) -> (r: bool)
    ensures
        r == ids_wf(*v),
{
    let any_pos = v.days > 0 || v.hours > 0 || v.minutes > 0 || v.seconds > 0 || v.nanoseconds > 0;
    let any_neg = v.days < 0 || v.hours < 0 || v.minutes < 0 || v.seconds < 0 || v.nanoseconds < 0;
    -999999999 <= v.days && v.days <= 999999999 && -23 <= v.hours && v.hours <= 23 && -59
        <= v.minutes && v.minutes <= 59 && -59 <= v.seconds && v.seconds <= 59 && -999999999
        <= v.nanoseconds && v.nanoseconds <= 999999999 && !(any_pos && any_neg) && v.lfprec <= 9
        && v.fsprec <= 9
}

/// Decides [`iym_wf`].
pub fn iym_wf_check(v: &IntervalYM) -> (r: bool)
    ensures
        r == iym_wf(*v),
{
    -999999999 <= v.years && v.years <= 999999999 && -11 <= v.months && v.months <= 11 && !(v.years
        > 0 && v.months < 0) && !(v.years < 0 && v.months > 0) && v.lfprec <= 9
}

/// Whether any component of the interval is negative.
pub open spec fn ids_negative(v: IntervalDS) -> bool {
    v.days < 0 || v.hours < 0 || v.minutes < 0 || v.seconds < 0 || v.nanoseconds < 0
}

/// The canonical text of a day-to-second interval: an explicit sign, the
/// day count padded to `lfprec` places, ` HH:MM:SS`, and `.` with the first
/// `fsprec` places of the nine-place nanosecond count when `fsprec` is not
/// zero.
pub open spec fn spec_ids_text(v: IntervalDS) -> Seq<char> {
    let sign = if ids_negative(v) {
        seq!['-']
    } else {
        seq!['+']
    };
    let days = spec_zero_pad(abs_nat(v.days as int), v.lfprec as nat);
    let hms = seq![' '] + pad2(abs_nat(v.hours as int)) + seq![':'] + pad2(abs_nat(v.minutes as int))
        + seq![':'] + pad2(abs_nat(v.seconds as int));
    let frac = if v.fsprec == 0 {
        Seq::<char>::empty()
    } else {
        seq!['.'] + spec_zero_pad(abs_nat(v.nanoseconds as int), 9).subrange(0, v.fsprec as int)
    };
    sign + days + hms + frac
}

/// The magnitude of an integer, as a natural number.
pub open spec fn abs_nat(v: int) -> nat {
    if v < 0 {
        (-v) as nat
    } else {
        v as nat
    }
}

/// The magnitude of a 32-bit integer.
pub fn abs_i32(v: i32) -> (r: u64)
    ensures
        r == abs_nat(v as int),
{
    if v < 0 {
        if v == i32::MIN {
            2147483648u64
        } else {
            (-v) as u64
        }
    } else {
        v as u64
    }
}

/// Renders a day-to-second interval in its canonical text form.
pub fn format_interval_ds(v: &IntervalDS) -> (r: Vec<char>)
    requires
        ids_wf(*v),
    ensures
        r@ == spec_ids_text(*v),
{
    let mut out: Vec<char> = Vec::new();
    if v.days < 0 || v.hours < 0 || v.minutes < 0 || v.seconds < 0 || v.nanoseconds < 0 {
        out.push('-');
    } else {
        out.push('+');
    }
    let ghost spart = out@;
    let days = zero_pad_u64(abs_i32(v.days), v.lfprec as usize);
    crate::types::append_chars(&mut out, &days);
    out.push(' ');
    let h = zero_pad_u64(abs_i32(v.hours), 2);
    crate::types::append_chars(&mut out, &h);
    out.push(':');
    let mi = zero_pad_u64(abs_i32(v.minutes), 2);
    crate::types::append_chars(&mut out, &mi);
    out.push(':');
    let se = zero_pad_u64(abs_i32(v.seconds), 2);
    crate::types::append_chars(&mut out, &se);
    let ghost tpart = out@;
    if v.fsprec > 0 {
        out.push('.');
        let n9 = zero_pad_u64(abs_i32(v.nanoseconds), 9);
        proof {
            lemma_pow10_bound(9);
            crate::text::lemma_dec_digits_len_le(abs_nat(v.nanoseconds as int), 9);
        }
        let frac = sub_chars(&n9, 0, v.fsprec as usize);
        crate::types::append_chars(&mut out, &frac);
    }
    proof {
        assert(out@ =~= spec_ids_text(*v));
    }
    out
}

/// Renders a day-to-second interval as a `String`.
pub fn interval_ds_to_string(v: &IntervalDS) -> (r: String)
    requires
        ids_wf(*v),
    ensures
        r@ == spec_ids_text(*v),
{
    let chars = format_interval_ds(v);
    chars_to_string(&chars)
}

/// The canonical day-to-second interval text determines the interval: the
/// sign is explicit and every component's digit group evaluates back to
/// its magnitude.
pub proof fn lemma_ids_text_determines_fields(v: IntervalDS)
    requires
        ids_wf(v),
    ensures
        ({
            let text = spec_ids_text(v);
            let dlen = spec_zero_pad(abs_nat(v.days as int), v.lfprec as nat).len() as int;
            &&& text.len() >= dlen + 10
            &&& text[0] == (if ids_negative(v) {
                '-'
            } else {
                '+'
            })
            &&& spec_dec_val(text.subrange(1, 1 + dlen)) == abs_nat(v.days as int)
            &&& text[1 + dlen] == ' '
            &&& spec_dec_val(text.subrange(dlen + 2, dlen + 4)) == abs_nat(v.hours as int)
            &&& spec_dec_val(text.subrange(dlen + 5, dlen + 7)) == abs_nat(v.minutes as int)
            &&& spec_dec_val(text.subrange(dlen + 8, dlen + 10)) == abs_nat(v.seconds as int)
        }),
{
    crate::text::lemma_pow10_values();
    crate::text::lemma_dec_digits_len_le(abs_nat(v.hours as int), 2);
    crate::text::lemma_dec_digits_len_le(abs_nat(v.minutes as int), 2);
    crate::text::lemma_dec_digits_len_le(abs_nat(v.seconds as int), 2);
    crate::text::lemma_zero_pad_val(abs_nat(v.days as int), v.lfprec as nat);
    crate::text::lemma_zero_pad_val(abs_nat(v.hours as int), 2);
    crate::text::lemma_zero_pad_val(abs_nat(v.minutes as int), 2);
    crate::text::lemma_zero_pad_val(abs_nat(v.seconds as int), 2);
    let text = spec_ids_text(v);
    let days = spec_zero_pad(abs_nat(v.days as int), v.lfprec as nat);
    let dlen = days.len() as int;
    let h = pad2(abs_nat(v.hours as int));
    let mi = pad2(abs_nat(v.minutes as int));
    let se = pad2(abs_nat(v.seconds as int));
    assert(h.len() == 2 && mi.len() == 2 && se.len() == 2);
    assert(text.subrange(1, 1 + dlen) =~= days);
    assert(text.subrange(dlen + 2, dlen + 4) =~= h);
    assert(text.subrange(dlen + 5, dlen + 7) =~= mi);
    assert(text.subrange(dlen + 8, dlen + 10) =~= se);
}

/// The canonical year-to-month interval text determines the interval.
pub proof fn lemma_iym_text_determines_fields(v: IntervalYM)
    requires
        iym_wf(v),
    ensures
        ({
            let text = spec_iym_text(v);
            let ylen = spec_zero_pad(abs_nat(v.years as int), v.lfprec as nat).len() as int;
            &&& text.len() == ylen + 4
            &&& text[0] == (if v.years < 0 || v.months < 0 {
                '-'
            } else {
                '+'
            })
            &&& spec_dec_val(text.subrange(1, 1 + ylen)) == abs_nat(v.years as int)
            &&& text[1 + ylen] == '-'
            &&& spec_dec_val(text.subrange(ylen + 2, ylen + 4)) == abs_nat(v.months as int)
        }),
{
    crate::text::lemma_pow10_values();
    crate::text::lemma_dec_digits_len_le(abs_nat(v.months as int), 2);
    crate::text::lemma_zero_pad_val(abs_nat(v.years as int), v.lfprec as nat);
    crate::text::lemma_zero_pad_val(abs_nat(v.months as int), 2);
    let text = spec_iym_text(v);
    let years = spec_zero_pad(abs_nat(v.years as int), v.lfprec as nat);
    let ylen = years.len() as int;
    let m = pad2(abs_nat(v.months as int));
    assert(m.len() == 2);
    assert(text.subrange(1, 1 + ylen) =~= years);
    assert(text.subrange(ylen + 2, ylen + 4) =~= m);
}

/// The index of the first `-` at or after `i`, or the length.
pub open spec fn dash_end(s: Seq<char>, i: int) -> int
    decreases s.len() - i,
{
    if i < 0 || i >= s.len() {
        s.len() as int
    } else if s[i] == '-' {
        i
    } else {
        dash_end(s, i + 1)
    }
}

/// A scan for a separator never leaves the text.
proof fn lemma_scan_bounds(s: Seq<char>, i: int)
    requires
        0 <= i <= s.len(),
    ensures
        i <= space_end(s, i) <= s.len(),
        i <= dash_end(s, i) <= s.len(),
    decreases s.len() - i,
{
    if i < s.len() {
        lemma_scan_bounds(s, i + 1);
    }
}

/// The canonical day-to-second interval text: a sign, one to nine day
/// places, ` HH:MM:SS` with each pair within its range, and an optional
/// fraction of one to nine places.
pub open spec fn ids_text_shape(s: Seq<char>) -> bool {
    &&& s.len() >= 2
    &&& (s[0] == '+' || s[0] == '-')
    &&& {
        let de = space_end(s, 1);
        &&& de < s.len()
        &&& 2 <= de <= 10
        &&& all_digits(s.subrange(1, de))
        &&& s.len() >= de + 9
        &&& s[de + 3] == ':' && s[de + 6] == ':'
        &&& all_digits(s.subrange(de + 1, de + 3))
        &&& spec_dec_val(s.subrange(de + 1, de + 3)) <= 23
        &&& all_digits(s.subrange(de + 4, de + 6))
        &&& spec_dec_val(s.subrange(de + 4, de + 6)) <= 59
        &&& all_digits(s.subrange(de + 7, de + 9))
        &&& spec_dec_val(s.subrange(de + 7, de + 9)) <= 59
        &&& (s.len() > de + 9 ==> s[de + 9] == '.' && s.len() > de + 10 && s.len() - (de + 10) <= 9
            && all_digits(s.subrange(de + 10, s.len() as int)))
    }
}

/// How a day-to-second interval relates to the text it was parsed from:
/// the day-place count is the width of the day group, every component's
/// magnitude is the decimal value of its digit group, the fractional-place
/// count is the width of the fraction, and every component carries the
/// leading sign.
pub open spec fn ids_fields_of_text(v: IntervalDS, s: Seq<char>) -> bool {
    let d = 1 + v.lfprec as int;
    &&& s.len() >= d + 9
    &&& (s[0] == '+' || s[0] == '-')
    &&& (s[0] == '+' ==> v.days >= 0 && v.hours >= 0 && v.minutes >= 0 && v.seconds >= 0
        && v.nanoseconds >= 0)
    &&& (s[0] == '-' ==> v.days <= 0 && v.hours <= 0 && v.minutes <= 0 && v.seconds <= 0
        && v.nanoseconds <= 0)
    &&& 1 <= v.lfprec
    &&& d == space_end(s, 1)
    &&& abs_nat(v.days as int) == spec_dec_val(s.subrange(1, d))
    &&& abs_nat(v.hours as int) == spec_dec_val(s.subrange(d + 1, d + 3))
    &&& abs_nat(v.minutes as int) == spec_dec_val(s.subrange(d + 4, d + 6))
    &&& abs_nat(v.seconds as int) == spec_dec_val(s.subrange(d + 7, d + 9))
    &&& (s.len() == d + 9 ==> v.nanoseconds == 0 && v.fsprec == 0)
    &&& (s.len() > d + 9 ==> v.fsprec as int == s.len() - (d + 10) && abs_nat(
        v.nanoseconds as int,
    ) == spec_dec_val(s.subrange(d + 10, s.len() as int)) * pow10((9 - v.fsprec) as nat))
}

/// Parses the canonical day-to-second interval text: a sign, day places,
/// ` HH:MM:SS`, and an optional fraction of one to nine places. Succeeds
/// exactly on [`ids_text_shape`], with the result's components pinned by
/// [`ids_fields_of_text`].
pub fn parse_interval_ds(s: &Vec<char>) -> (r: Result<IntervalDS, Error>)
    ensures
        r is Ok <==> ids_text_shape(s@),
        r is Ok ==> ids_wf(r->Ok_0),
        r is Ok ==> ids_fields_of_text(r->Ok_0, s@),
        r is Err ==> r->Err_0 matches Error::ParseError(_),
{
    if s.len() < 2 || (s[0] != '+' && s[0] != '-') {
        return Err(Error::ParseError(chars_to_string(s)));
    }
    let negative = s[0] == '-';
    // The day places end at the space.
    let mut dend: usize = 1;
    while dend < s.len() && s[dend] != ' '
        invariant
            1 <= dend <= s@.len(),
            space_end(s@, 1) == space_end(s@, dend as int),
        decreases s@.len() - dend,
    {
        dend = dend + 1;
    }
    proof {
        assert(space_end(s@, 1) == dend as int);
    }
    if dend == s.len() || dend == 1 || dend - 1 > 9 {
        return Err(Error::ParseError(chars_to_string(s)));
    }
    let ddig = sub_chars(s, 1, dend);
    let days = match crate::text::parse_u64(&ddig) {
        Ok(x) => x,
        Err(e) => {
            proof {
                if all_digits(ddig@) {
                    lemma_group_fits(ddig@);
                }
            }
            return Err(e);
        },
    };
    proof {
        lemma_group_fits(ddig@);
    }
    let lfprec = (dend - 1) as u8;
    if s.len() < dend + 9 {
        return Err(Error::ParseError(chars_to_string(s)));
    }
    if !(s[dend + 3] == ':' && s[dend + 6] == ':') {
        return Err(Error::ParseError(chars_to_string(s)));
    }
    let hdig = sub_chars(s, dend + 1, dend + 3);
    let hours = match crate::text::parse_u64(&hdig) {
        Ok(x) => x,
        Err(e) => {
            proof {
                if all_digits(hdig@) {
                    lemma_group_fits(hdig@);
                }
            }
            return Err(e);
        },
    };
    let midig = sub_chars(s, dend + 4, dend + 6);
    let minutes = match crate::text::parse_u64(&midig) {
        Ok(x) => x,
        Err(e) => {
            proof {
                if all_digits(midig@) {
                    lemma_group_fits(midig@);
                }
            }
            return Err(e);
        },
    };
    let sdig = sub_chars(s, dend + 7, dend + 9);
    let seconds = match crate::text::parse_u64(&sdig) {
        Ok(x) => x,
        Err(e) => {
            proof {
                if all_digits(sdig@) {
                    lemma_group_fits(sdig@);
                }
            }
            return Err(e);
        },
    };
    if days > 999999999 || hours > 23 || minutes > 59 || seconds > 59 {
        return Err(Error::ParseError(chars_to_string(s)));
    }
    let mut nanos: u64 = 0;
    let mut fsprec: u8 = 0;
    let pos = dend + 9;
    if pos < s.len() {
        if s[pos] != '.' || pos + 1 == s.len() || s.len() - (pos + 1) > 9 {
            return Err(Error::ParseError(chars_to_string(s)));
        }
        let count = s.len() - (pos + 1);
        let fdig = sub_chars(s, pos + 1, s.len());
        let fval = match crate::text::parse_u64(&fdig) {
            Ok(x) => x,
            Err(e) => {
                proof {
                    if all_digits(fdig@) {
                        lemma_group_fits(fdig@);
                    }
                }
                return Err(e);
            },
        };
        proof {
            crate::text::lemma_dec_val_len_bound(fdig@);
            lemma_pow10_mul_bound(fval as nat, count as nat, 9);
            assert(fval as nat * pow10((9 - count) as nat) < 1000000000);
        }
        let scale = pow10_u32((9 - count) as u32);
        nanos = fval * (scale as u64);
        proof {
            assert(nanos < 1000000000);
        }
        fsprec = count as u8;
    }
    Ok(
        IntervalDS {
            days: apply_sign(negative, days),
            hours: apply_sign(negative, hours),
            minutes: apply_sign(negative, minutes),
            seconds: apply_sign(negative, seconds),
            nanoseconds: apply_sign(negative, nanos),
            lfprec,
            fsprec,
        },
    )
}

/// A magnitude with a sign applied, as a 32-bit integer.
fn apply_sign(negative: bool, v: u64) -> (r: i32)
    requires
        v <= 999999999,
    ensures
        r == if negative {
            -(v as int)
        } else {
            v as int
        },
{
    if negative {
        -(v as i32)
    } else {
        v as i32
    }
}

// ---------------------------------------------------------------------------
// Year-to-month interval
// ---------------------------------------------------------------------------

/// A year-to-month interval. Both components carry the interval's sign.
/// `lfprec` is the count of places the year count shows.
#[derive(Debug, Clone, Copy, PartialEq, Eq, Structural)]
pub struct IntervalYM {
    pub years: i32,
    pub months: i32,
    pub lfprec: u8,
}

/// Well-formedness of a year-to-month interval.
pub open spec fn iym_wf(v: IntervalYM) -> bool {
    &&& -999999999 <= v.years <= 999999999
    &&& -11 <= v.months <= 11
    &&& !(v.years > 0 && v.months < 0)
    &&& !(v.years < 0 && v.months > 0)
    &&& v.lfprec <= 9
}

impl IntervalYM {
    /// Builds a year-to-month interval shown with nine year places.
    pub fn new(years: i32, months: i32) -> (r: IntervalYM)
        requires
            -999999999 <= years <= 999999999,
            -11 <= months <= 11,
            !(years > 0 && months < 0),
            !(years < 0 && months > 0),
        ensures
            r == (IntervalYM { years, months, lfprec: 9 }),
            iym_wf(r),
    {
        IntervalYM { years, months, lfprec: 9 }
    }

    /// The same interval with the given year place count.
    pub fn and_prec(self, lfprec: u8) -> (r: IntervalYM)
        requires
            lfprec <= 9,
        ensures
            r == (IntervalYM { lfprec, ..self }),
    {
        IntervalYM { lfprec, ..self }
    }
}

/// The canonical text of a year-to-month interval: a sign, the year count
/// padded to `lfprec` places, `-`, and the month count in two places.
pub open spec fn spec_iym_text(v: IntervalYM) -> Seq<char> {
    let sign = if v.years < 0 || v.months < 0 {
        seq!['-']
    } else {
        seq!['+']
    };
    sign + spec_zero_pad(abs_nat(v.years as int), v.lfprec as nat) + seq!['-'] + pad2(
        abs_nat(v.months as int),
    )
}

/// Renders a year-to-month interval in its canonical text form.
pub fn format_interval_ym(v: &IntervalYM) -> (r: Vec<char>)
    requires
        iym_wf(*v),
    ensures
        r@ == spec_iym_text(*v),
{
    let mut out: Vec<char> = Vec::new();
    if v.years < 0 || v.months < 0 {
        out.push('-');
    } else {
        out.push('+');
    }
    let y = zero_pad_u64(abs_i32(v.years), v.lfprec as usize);
    crate::types::append_chars(&mut out, &y);
    out.push('-');
    let m = zero_pad_u64(abs_i32(v.months), 2);
    crate::types::append_chars(&mut out, &m);
    proof {
        assert(out@ =~= spec_iym_text(*v));
    }
    out
}

/// Renders a year-to-month interval as a `String`.
pub fn interval_ym_to_string(v: &IntervalYM) -> (r: String)
    requires
        iym_wf(*v),
    ensures
        r@ == spec_iym_text(*v),
{
    let chars = format_interval_ym(v);
    chars_to_string(&chars)
}

/// The canonical year-to-month interval text: a sign, one to nine year
/// places, `-`, and a month group within its range.
pub open spec fn iym_text_shape(s: Seq<char>) -> bool {
    &&& s.len() >= 2
    &&& (s[0] == '+' || s[0] == '-')
    &&& {
        let ye = dash_end(s, 1);
        &&& ye < s.len()
        &&& 2 <= ye <= 10
        &&& all_digits(s.subrange(1, ye))
        &&& ye + 1 < s.len()
        &&& all_digits(s.subrange(ye + 1, s.len() as int))
        &&& spec_dec_val(s.subrange(ye + 1, s.len() as int)) <= 11
    }
}

/// How a year-to-month interval relates to the text it was parsed from:
/// the year-place count is the width of the year group, both magnitudes are
/// the decimal values of their digit groups, and both components carry the
/// leading sign.
pub open spec fn iym_fields_of_text(v: IntervalYM, s: Seq<char>) -> bool {
    let d = 1 + v.lfprec as int;
    &&& s.len() >= d + 2
    &&& (s[0] == '+' || s[0] == '-')
    &&& (s[0] == '+' ==> v.years >= 0 && v.months >= 0)
    &&& (s[0] == '-' ==> v.years <= 0 && v.months <= 0)
    &&& 1 <= v.lfprec
    &&& d == dash_end(s, 1)
    &&& s[d] == '-'
    &&& abs_nat(v.years as int) == spec_dec_val(s.subrange(1, d))
    &&& abs_nat(v.months as int) == spec_dec_val(s.subrange(d + 1, s.len() as int))
}

/// Parses the canonical year-to-month interval text: a sign, year places,
/// `-`, and the month count. Succeeds exactly on [`iym_text_shape`], with
/// the result's components pinned by [`iym_fields_of_text`].
pub fn parse_interval_ym(s: &Vec<char>) -> (r: Result<IntervalYM, Error>)
    ensures
        r is Ok <==> iym_text_shape(s@),
        r is Ok ==> iym_wf(r->Ok_0),
        r is Ok ==> iym_fields_of_text(r->Ok_0, s@),
        r is Err ==> r->Err_0 matches Error::ParseError(_),
{
    if s.len() < 4 || (s[0] != '+' && s[0] != '-') {
        proof {
            if 1 <= s@.len() < 4 {
                lemma_scan_bounds(s@, 1);
            }
        }
        return Err(Error::ParseError(chars_to_string(s)));
    }
    let negative = s[0] == '-';
    // The year places end at the first `-` past the sign.
    let mut yend: usize = 1;
    while yend < s.len() && s[yend] != '-'
        invariant
            1 <= yend <= s@.len(),
            dash_end(s@, 1) == dash_end(s@, yend as int),
        decreases s@.len() - yend,
    {
        yend = yend + 1;
    }
    proof {
        assert(dash_end(s@, 1) == yend as int);
    }
    if yend == s.len() || yend == 1 || yend - 1 > 9 || yend + 1 == s.len() {
        return Err(Error::ParseError(chars_to_string(s)));
    }
    let ydig = sub_chars(s, 1, yend);
    let years = match crate::text::parse_u64(&ydig) {
        Ok(x) => x,
        Err(e) => {
            proof {
                if all_digits(ydig@) {
                    lemma_group_fits(ydig@);
                }
            }
            return Err(e);
        },
    };
    proof {
        lemma_group_fits(ydig@);
    }
    let mdig = sub_chars(s, yend + 1, s.len());
    let months = match crate::text::parse_u64(&mdig) {
        Ok(x) => x,
        Err(e) => {
            return Err(e);
        },
    };
    if years > 999999999 || months > 11 {
        return Err(Error::ParseError(chars_to_string(s)));
    }
    Ok(
        IntervalYM {
            years: apply_sign(negative, years),
            months: apply_sign(negative, months),
            lfprec: (yend - 1) as u8,
        },
    )
}

} // verus!
