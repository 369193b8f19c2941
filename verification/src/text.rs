//! Text utilities the value cells and the bind directory rest on: decimal
//! rendering and parsing of integers, hexadecimal rendering and parsing of
//! byte strings, case folding, the numeric-text format check, and the
//! bridge between `String` and `Vec<char>`.

use vstd::prelude::*;

use crate::error::Error;

verus! {

use vstd::std_specs::iter::IteratorSpec;

// ---------------------------------------------------------------------------
// String <-> Vec<char>
// ---------------------------------------------------------------------------

/// Relies on `String::push`: appends exactly the one character to the string.
#[verifier::external_body]
pub fn push_char(s: &mut String, c: char)
    ensures
        final(s)@ == old(s)@.push(c),
{
    s.push(c);
}

/// Builds a `String` holding exactly the given characters.
pub fn chars_to_string(v: &Vec<char>) -> (r: String)
    ensures
        r@ == v@,
{
    let mut r = String::new();
    let mut i: usize = 0;
    while i < v.len()
        invariant
            i <= v.len(),
            r@ == v@.subrange(0, i as int),
        decreases v.len() - i,
    {
        push_char(&mut r, v[i]);
        i = i + 1;
        assert(v@.subrange(0, i - 1).push(v@[i - 1]) =~= v@.subrange(0, i as int));
    }
    assert(v@.subrange(0, v.len() as int) =~= v@);
    r
}

/// Collects the characters of a string slice, in order.
pub fn str_to_chars(s: &str) -> (r: Vec<char>)
    ensures
        r@ == s@,
{
    broadcast use vstd::string::axiom_spec_iter, vstd::string::next_postcondition;

    let mut it = s.chars();
    let mut r: Vec<char> = Vec::new();
    loop
        invariant
            it.obeys_prophetic_iter_laws(),
            it.decrease() is Some,
            r@ + it.remaining() == s@,
        ensures
            r@ == s@,
        decreases it.decrease()->0,
    {
        let ghost prev = it.remaining();
        match it.next() {
            Some(c) => {
                r.push(c);
                proof {
                    assert(r@ + it.remaining() =~= s@);
                }
            }
            None => {
                proof {
                    assert(r@ + it.remaining() =~= r@);
                }
                break;
            }
        }
    }
    r
}

// ---------------------------------------------------------------------------
// Case folding
// ---------------------------------------------------------------------------

/// The upper-case image of one character, the fold bind and column names
/// are compared under: the ASCII letters `a..=z` and the Latin-1 letters
/// `\u{e0}..=\u{fe}` (excepting the division sign) each have their
/// upper-case form a fixed thirty-two places below and fold to it;
/// everything else is kept as it is.
pub open spec fn spec_upper_char(c: char) -> char {
    if 97 <= c as int && c as int <= 122 {
        ((c as int - 32) as u8) as char
    } else if 224 <= c as int && c as int <= 254 && c as int != 247 {
        ((c as int - 32) as u8) as char
    } else {
        c
    }
}

/// The elementwise upper-case image of a character sequence.
pub open spec fn spec_upper(s: Seq<char>) -> Seq<char> {
    s.map_values(|c: char| spec_upper_char(c))
}

/// Upper-cases one character ([`spec_upper_char`]).
pub fn upper_char(c: char) -> (r: char)
    ensures
        r == spec_upper_char(c),
{
    let u = c as u32;
    if 97 <= u && u <= 122 {
        ((u - 32) as u8) as char
    } else if 224 <= u && u <= 254 && u != 247 {
        ((u - 32) as u8) as char
    } else {
        c
    }
}

/// Upper-cases a character vector ([`spec_upper_char`] elementwise).
pub fn upper_chars(v: &Vec<char>) -> (r: Vec<char>)
    ensures
        r@ == spec_upper(v@),
{
    let mut r: Vec<char> = Vec::new();
    let mut i: usize = 0;
    while i < v.len()
        invariant
            i <= v.len(),
            r@ == spec_upper(v@.subrange(0, i as int)),
        decreases v.len() - i,
    {
        r.push(upper_char(v[i]));
        i = i + 1;
        assert(spec_upper(v@.subrange(0, i - 1)).push(spec_upper_char(v@[i - 1]))
            =~= spec_upper(v@.subrange(0, i as int)));
    }
    assert(v@.subrange(0, v.len() as int) =~= v@);
    r
}

/// Case folding is idempotent: folding a folded sequence changes nothing.
pub proof fn lemma_upper_idempotent(s: Seq<char>)
    ensures
        spec_upper(spec_upper(s)) == spec_upper(s),
{
    assert(spec_upper(spec_upper(s)) =~= spec_upper(s)) by {
        assert forall|i: int| 0 <= i < s.len() implies spec_upper_char(spec_upper_char(s[i]))
            == spec_upper_char(s[i]) by {
            let c = s[i];
            if 97 <= c as int && c as int <= 122 {
                assert(spec_upper_char(c) as int == c as int - 32);
            } else if 224 <= c as int && c as int <= 254 && c as int != 247 {
                assert(spec_upper_char(c) as int == c as int - 32);
            }
        }
    }
}

// ---------------------------------------------------------------------------
// Decimal rendering and parsing
// ---------------------------------------------------------------------------

/// The character of one decimal digit value below ten.
pub open spec fn spec_digit_char(d: nat) -> char {
    ((48 + d) as u8) as char
}

/// The canonical decimal digit string of a natural number: no sign and no
/// leading zero, except for the single digit `0` itself.
pub open spec fn spec_dec_digits(n: nat) -> Seq<char>
    decreases n,
{
    if n < 10 {
        seq![spec_digit_char(n)]
    } else {
        spec_dec_digits(n / 10).push(spec_digit_char(n % 10))
    }
}

/// The decimal rendering of a signed integer: a `-` before the digit string
/// of the magnitude when negative.
pub open spec fn spec_dec_int(n: int) -> Seq<char> {
    if n < 0 {
        seq!['-'] + spec_dec_digits((-n) as nat)
    } else {
        spec_dec_digits(n as nat)
    }
}

pub open spec fn is_digit(c: char) -> bool {
    48 <= c as int && c as int <= 57
}

pub open spec fn digit_val(c: char) -> nat {
    (c as int - 48) as nat
}

pub open spec fn all_digits(s: Seq<char>) -> bool {
    forall|i: int| 0 <= i < s.len() ==> is_digit(#[trigger] s[i])
}

/// The numeric value of a digit string, most significant digit first.
pub open spec fn spec_dec_val(s: Seq<char>) -> nat
    decreases s.len(),
{
    if s.len() == 0 {
        0
    } else {
        spec_dec_val(s.drop_last()) * 10 + digit_val(s.last())
    }
}

/// The canonical digit string of `n` consists of digits and evaluates back
/// to `n`.
pub proof fn lemma_dec_digits_val(n: nat)
    ensures
        all_digits(spec_dec_digits(n)),
        spec_dec_val(spec_dec_digits(n)) == n,
        spec_dec_digits(n).len() >= 1,
    decreases n,
{
    if n < 10 {
        let s = spec_dec_digits(n);
        assert(s.len() == 1);
        assert(s.drop_last().len() == 0);
        assert(spec_digit_char(n) as nat == 48 + n);
        assert(digit_val(s.last()) == n);
        assert(spec_dec_val(s) == spec_dec_val(s.drop_last()) * 10 + digit_val(s.last()));
        assert(is_digit(s[0]));
    } else {
        lemma_dec_digits_val(n / 10);
        let s = spec_dec_digits(n);
        let p = spec_dec_digits(n / 10);
        assert(s.drop_last() =~= p);
        assert(spec_digit_char(n % 10) as nat == 48 + n % 10);
        assert(digit_val(s.last()) == n % 10);
        assert(spec_dec_val(s) == (n / 10) * 10 + n % 10);
        assert((n / 10) * 10 + n % 10 == n) by (nonlinear_arith);
        assert(forall|i: int| 0 <= i < s.len() ==> is_digit(#[trigger] s[i])) by {
            assert(forall|i: int| 0 <= i < p.len() ==> is_digit(#[trigger] p[i]));
            assert(s.last() == spec_digit_char(n % 10));
        }
    }
}

/// Renders a natural number as its canonical decimal digit string.
pub fn format_u64(n: u64) -> (r: Vec<char>)
    ensures
        r@ == spec_dec_digits(n as nat),
    decreases n,
{
    if n < 10 {
        let d: u8 = (48 + (n as u8));
        let mut r: Vec<char> = Vec::new();
        r.push(d as char);
        r
    } else {
        let mut r = format_u64(n / 10);
        let d: u8 = (48 + ((n % 10) as u8));
        r.push(d as char);
        r
    }
}

/// Renders a signed integer in decimal, with a leading `-` when negative.
pub fn format_i64(n: i64) -> (r: Vec<char>)
    ensures
        r@ == spec_dec_int(n as int),
{
    if n >= 0 {
        format_u64(n as u64)
    } else {
        let mag: u64 = if n == i64::MIN {
            9223372036854775808u64
        } else {
            (-n) as u64
        };
        let mut r: Vec<char> = Vec::new();
        r.push('-');
        let mut digits = format_u64(mag);
        let mut i: usize = 0;
        while i < digits.len()
            invariant
                i <= digits.len(),
                r@ == seq!['-'] + digits@.subrange(0, i as int),
                digits@ == spec_dec_digits((-(n as int)) as nat),
            decreases digits.len() - i,
        {
            r.push(digits[i]);
            i = i + 1;
            assert((seq!['-'] + digits@.subrange(0, i - 1)).push(digits@[i - 1])
                =~= seq!['-'] + digits@.subrange(0, i as int));
        }
        assert(digits@.subrange(0, digits.len() as int) =~= digits@);
        r
    }
}

/// Renders a natural number as a `String`.
pub fn u64_to_string(n: u64) -> (r: String)
    ensures
        r@ == spec_dec_digits(n as nat),
{
    let v = format_u64(n);
    chars_to_string(&v)
}

/// Renders a signed integer as a `String`.
pub fn i64_to_string(n: i64) -> (r: String)
    ensures
        r@ == spec_dec_int(n as int),
{
    let v = format_i64(n);
    chars_to_string(&v)
}

/// The digit string of `n` zero-padded on the left to at least `w` places.
pub open spec fn spec_zero_pad(n: nat, w: nat) -> Seq<char> {
    if spec_dec_digits(n).len() >= w {
        spec_dec_digits(n)
    } else {
        Seq::new((w - spec_dec_digits(n).len()) as nat, |i: int| '0') + spec_dec_digits(n)
    }
}

/// Renders `n` in decimal, zero-padded on the left to at least `w` places.
pub fn zero_pad_u64(n: u64, w: usize) -> (r: Vec<char>)
    ensures
        r@ == spec_zero_pad(n as nat, w as nat),
        r@.len() >= w,
{
    let digits = format_u64(n);
    if digits.len() >= w {
        return digits;
    }
    let pad = w - digits.len();
    let mut r: Vec<char> = Vec::new();
    let mut i: usize = 0;
    while i < pad
        invariant
            i <= pad,
            r@ == Seq::new(i as nat, |k: int| '0'),
        decreases pad - i,
    {
        r.push('0');
        i = i + 1;
        assert(r@ =~= Seq::new(i as nat, |k: int| '0'));
    }
    let mut j: usize = 0;
    while j < digits.len()
        invariant
            j <= digits.len(),
            r@ == Seq::new(pad as nat, |k: int| '0') + digits@.subrange(0, j as int),
        decreases digits.len() - j,
    {
        r.push(digits[j]);
        j = j + 1;
        assert(r@ =~= Seq::new(pad as nat, |k: int| '0') + digits@.subrange(0, j as int));
    }
    assert(digits@.subrange(0, digits@.len() as int) =~= digits@);
    r
}

/// Ten to the `k`-th power.
pub open spec fn pow10(k: nat) -> nat
    decreases k,
{
    if k == 0 {
        1
    } else {
        10 * pow10((k - 1) as nat)
    }
}

/// A value below the `k`-th power of ten has at most `k` decimal places.
pub proof fn lemma_dec_digits_len_le(n: nat, k: nat)
    requires
        1 <= k,
        n < pow10(k),
    ensures
        spec_dec_digits(n).len() <= k,
    decreases k,
{
    if n < 10 {
    } else {
        assert(pow10(k) == 10 * pow10((k - 1) as nat));
        assert(n / 10 < pow10((k - 1) as nat)) by (nonlinear_arith)
            requires
                n < 10 * pow10((k - 1) as nat),
                n >= 10,
        ;
        lemma_dec_digits_len_le(n / 10, (k - 1) as nat);
    }
}

/// A digit string's value lies below the power of ten of its length.
pub proof fn lemma_dec_val_len_bound(s: Seq<char>)
    requires
        all_digits(s),
    ensures
        spec_dec_val(s) < pow10(s.len()),
    decreases s.len(),
{
    if s.len() == 0 {
    } else {
        assert(all_digits(s.drop_last())) by {
            assert forall|i: int| 0 <= i < s.drop_last().len() implies is_digit(
                #[trigger] s.drop_last()[i],
            ) by {
                assert(s.drop_last()[i] == s[i]);
            }
        }
        lemma_dec_val_len_bound(s.drop_last());
        let p = spec_dec_val(s.drop_last());
        assert(digit_val(s.last()) <= 9);
        assert(p * 10 + 9 < pow10(s.len())) by (nonlinear_arith)
            requires
                p < pow10((s.len() - 1) as nat),
                pow10(s.len() as nat) == 10 * pow10((s.len() - 1) as nat),
        ;
    }
}

/// Parses an unsigned decimal digit string. Succeeds exactly on a non-empty
/// all-digit string whose value fits in a `u64`.
pub fn parse_u64(s: &Vec<char>) -> (r: Result<u64, Error>)
    ensures
        (s@.len() > 0 && all_digits(s@) && spec_dec_val(s@) <= u64::MAX) <==> r is Ok,
        r is Ok ==> r->Ok_0 == spec_dec_val(s@),
        r is Err ==> r->Err_0 matches Error::ParseError(_),
{
    if s.len() == 0 {
        return Err(Error::ParseError(chars_to_string(s)));
    }
    let mut acc: u64 = 0;
    let mut i: usize = 0;
    proof {
        assert(s@.subrange(0, s@.len() as int) =~= s@);
    }
    while i < s.len()
        invariant
            i <= s.len(),
            acc == spec_dec_val(s@.subrange(0, i as int)),
            forall|j: int| 0 <= j < i ==> is_digit(#[trigger] s@[j]),
            s@.subrange(0, s@.len() as int) == s@,
        decreases s.len() - i,
    {
        let c = s[i];
        if c < '0' || c > '9' {
            proof {
                assert(!is_digit(s@[i as int]));
            }
            return Err(Error::ParseError(chars_to_string(s)));
        }
        let u = c as u32;
        proof {
            assert(u == c as int);
        }
        let d: u64 = (u - 48) as u64;
        let wide: u128 = (acc as u128) * 10 + (d as u128);
        proof {
            assert(is_digit(c));
            assert(digit_val(c) == d);
            let pre = s@.subrange(0, i + 1);
            assert(pre.drop_last() =~= s@.subrange(0, i as int));
            assert(pre.last() == s@[i as int]);
            assert(spec_dec_val(pre) == acc * 10 + d);
        }
        if wide > u64::MAX as u128 {
            proof {
                if all_digits(s@) {
                    lemma_dec_val_prefix_monotone(s@, i + 1);
                }
            }
            return Err(Error::ParseError(chars_to_string(s)));
        }
        acc = wide as u64;
        i = i + 1;
    }
    Ok(acc)
}

/// A digit string's value is at least the value of any of its prefixes times
/// the scale of the dropped digits; in particular a prefix that already
/// exceeds a bound keeps the whole string above it.
pub proof fn lemma_dec_val_prefix_monotone(s: Seq<char>, k: int)
    requires
        0 <= k <= s.len(),
        all_digits(s),
    ensures
        spec_dec_val(s) >= spec_dec_val(s.subrange(0, k)),
    decreases s.len() - k,
{
    if k < s.len() {
        lemma_dec_val_prefix_monotone(s, k + 1);
        assert(s.subrange(0, k + 1).drop_last() =~= s.subrange(0, k));
        assert(spec_dec_val(s.subrange(0, k + 1)) == spec_dec_val(s.subrange(0, k)) * 10
            + digit_val(s[k]));
        assert(spec_dec_val(s.subrange(0, k)) * 10 >= spec_dec_val(s.subrange(0, k)))
            by (nonlinear_arith)
            requires spec_dec_val(s.subrange(0, k)) >= 0;
    } else {
        assert(s.subrange(0, s.len() as int) =~= s);
    }
}

/// The integer a character string denotes in decimal: an optional sign
/// followed by at least one digit. `None` when the string has another shape.
pub open spec fn spec_parse_int(s: Seq<char>) -> Option<int> {
    if s.len() > 0 && s[0] == '-' {
        if s.len() > 1 && all_digits(s.subrange(1, s.len() as int)) {
            Some(-(spec_dec_val(s.subrange(1, s.len() as int)) as int))
        } else {
            None
        }
    } else if s.len() > 0 && s[0] == '+' {
        if s.len() > 1 && all_digits(s.subrange(1, s.len() as int)) {
            Some(spec_dec_val(s.subrange(1, s.len() as int)) as int)
        } else {
            None
        }
    } else if s.len() > 0 && all_digits(s) {
        Some(spec_dec_val(s) as int)
    } else {
        None
    }
}

/// Parses a signed decimal integer. Succeeds exactly on an optional sign
/// followed by digits denoting a value within `i64`'s range.
pub fn parse_i64(s: &Vec<char>) -> (r: Result<i64, Error>)
    ensures
        (spec_parse_int(s@) matches Some(v) && i64::MIN <= v <= i64::MAX) <==> r is Ok,
        r is Ok ==> Some(r->Ok_0 as int) == spec_parse_int(s@),
        r is Err ==> r->Err_0 matches Error::ParseError(_),
{
    if s.len() == 0 {
        return Err(Error::ParseError(chars_to_string(s)));
    }
    let negative = s[0] == '-';
    let signed = negative || s[0] == '+';
    let mut digits: Vec<char> = Vec::new();
    let start: usize = if signed {
        1
    } else {
        0
    };
    let mut i: usize = start;
    while i < s.len()
        invariant
            start <= i <= s.len(),
            digits@ == s@.subrange(start as int, i as int),
        decreases s.len() - i,
    {
        digits.push(s[i]);
        i = i + 1;
        assert(s@.subrange(start as int, i - 1).push(s@[i - 1]) =~= s@.subrange(
            start as int,
            i as int,
        ));
    }
    proof {
        if !signed {
            assert(s@.subrange(0, s@.len() as int) =~= s@);
        }
    }
    let mag = match parse_u64(&digits) {
        Ok(m) => m,
        Err(e) => {
            proof {
                let sp = spec_parse_int(s@);
                if sp is Some && i64::MIN <= sp->0 <= i64::MAX {
                    lemma_dec_val_prefix_monotone(digits@, digits@.len() as int);
                }
            }
            return Err(e);
        }
    };
    if negative {
        if mag > 9223372036854775808u64 {
            return Err(Error::ParseError(chars_to_string(s)));
        }
        if mag == 9223372036854775808u64 {
            Ok(i64::MIN)
        } else {
            Ok(-(mag as i64))
        }
    } else {
        if mag > i64::MAX as u64 {
            return Err(Error::ParseError(chars_to_string(s)));
        }
        Ok(mag as i64)
    }
}

/// Parses an unsigned decimal integer, allowing one leading `+`.
pub fn parse_u64_signed(s: &Vec<char>) -> (r: Result<u64, Error>)
    ensures
        (spec_parse_int(s@) matches Some(v) && 0 <= v <= u64::MAX) <==> r is Ok,
        r is Ok ==> Some(r->Ok_0 as int) == spec_parse_int(s@),
        r is Err ==> r->Err_0 matches Error::ParseError(_),
{
    if s.len() == 0 {
        return Err(Error::ParseError(chars_to_string(s)));
    }
    if s[0] == '-' {
        let mut digits: Vec<char> = Vec::new();
        let mut i: usize = 1;
        while i < s.len()
            invariant
                1 <= i <= s.len(),
                s@.len() > 0,
                digits@ == s@.subrange(1, i as int),
            decreases s.len() - i,
        {
            digits.push(s[i]);
            i = i + 1;
            assert(s@.subrange(1, i - 1).push(s@[i - 1]) =~= s@.subrange(1, i as int));
        }
        match parse_u64(&digits) {
            Ok(m) => {
                if m == 0 {
                    Ok(0)
                } else {
                    Err(Error::ParseError(chars_to_string(s)))
                }
            }
            Err(e) => Err(e),
        }
    } else if s[0] == '+' {
        let mut digits: Vec<char> = Vec::new();
        let mut i: usize = 1;
        while i < s.len()
            invariant
                1 <= i <= s.len(),
                s@.len() > 0,
                digits@ == s@.subrange(1, i as int),
            decreases s.len() - i,
        {
            digits.push(s[i]);
            i = i + 1;
            assert(s@.subrange(1, i - 1).push(s@[i - 1]) =~= s@.subrange(1, i as int));
        }
        parse_u64(&digits)
    } else {
        proof {
            assert(s@.subrange(0, s@.len() as int) =~= s@);
        }
        parse_u64(s)
    }
}

/// A run of zero characters denotes zero.
pub proof fn lemma_dec_val_zeros(p: Seq<char>)
    requires
        forall|i: int| 0 <= i < p.len() ==> #[trigger] p[i] == '0',
    ensures
        spec_dec_val(p) == 0,
        all_digits(p),
    decreases p.len(),
{
    if p.len() > 0 {
        assert(forall|i: int| 0 <= i < p.drop_last().len() ==> #[trigger] p.drop_last()[i] == p[i]);
        lemma_dec_val_zeros(p.drop_last());
        assert(digit_val(p.last()) == 0);
    }
}

/// Leading zeros do not change a digit string's value.
pub proof fn lemma_dec_val_leading_zeros(p: Seq<char>, d: Seq<char>)
    requires
        forall|i: int| 0 <= i < p.len() ==> #[trigger] p[i] == '0',
    ensures
        spec_dec_val(p + d) == spec_dec_val(d),
    decreases d.len(),
{
    if d.len() == 0 {
        assert(p + d =~= p);
        lemma_dec_val_zeros(p);
    } else {
        lemma_dec_val_leading_zeros(p, d.drop_last());
        assert((p + d).drop_last() =~= p + d.drop_last());
        assert((p + d).last() == d.last());
    }
}

/// A zero-padded rendering is all digits, has at least the requested
/// width — exactly that width when the digits fit it — and evaluates back
/// to the rendered value.
pub proof fn lemma_zero_pad_val(n: nat, w: nat)
    ensures
        all_digits(spec_zero_pad(n, w)),
        spec_dec_val(spec_zero_pad(n, w)) == n,
        spec_zero_pad(n, w).len() >= w,
        spec_zero_pad(n, w).len() >= 1,
        spec_dec_digits(n).len() <= w ==> spec_zero_pad(n, w).len() == w,
{
    lemma_dec_digits_val(n);
    let d = spec_dec_digits(n);
    if d.len() >= w {
        assert(spec_zero_pad(n, w) == d);
    } else {
        let p = Seq::new((w - d.len()) as nat, |i: int| '0');
        assert(forall|i: int| 0 <= i < p.len() ==> #[trigger] p[i] == '0');
        lemma_dec_val_leading_zeros(p, d);
        lemma_dec_val_zeros(p);
        assert(all_digits(spec_zero_pad(n, w))) by {
            assert forall|i: int| 0 <= i < (p + d).len() implies is_digit(#[trigger] (p + d)[i])
            by {
                if i < p.len() {
                    assert((p + d)[i] == '0');
                } else {
                    assert((p + d)[i] == d[i - p.len()]);
                }
            }
        }
    }
}

/// The values of the small powers of ten.
pub proof fn lemma_pow10_values()
    ensures
        pow10(0) == 1,
        pow10(1) == 10,
        pow10(2) == 100,
        pow10(3) == 1000,
        pow10(4) == 10000,
        pow10(5) == 100000,
        pow10(6) == 1000000,
        pow10(7) == 10000000,
        pow10(8) == 100000000,
        pow10(9) == 1000000000,
{
    reveal_with_fuel(pow10, 11);
}

/// Parsing the decimal rendering of an integer yields the integer back.
pub proof fn lemma_parse_dec_int(v: int)
    ensures
        spec_parse_int(spec_dec_int(v)) == Some(v),
{
    if v < 0 {
        let d = spec_dec_digits((-v) as nat);
        lemma_dec_digits_val((-v) as nat);
        let s = seq!['-'] + d;
        assert(s[0] == '-');
        assert(s.subrange(1, s.len() as int) =~= d);
        assert(s.len() > 1);
    } else {
        let d = spec_dec_digits(v as nat);
        lemma_dec_digits_val(v as nat);
        assert(is_digit(d[0]));
        assert(d[0] as int != 45 && d[0] as int != 43);
        assert('-' as int == 45 && '+' as int == 43);
    }
}

// ---------------------------------------------------------------------------
// Hexadecimal rendering and parsing
// ---------------------------------------------------------------------------

/// The upper-case hexadecimal character of one value below sixteen.
pub open spec fn spec_hex_char(d: nat) -> char {
    if d < 10 {
        ((48 + d) as u8) as char
    } else {
        ((55 + d) as u8) as char
    }
}

/// The upper-case hexadecimal rendering of a byte string: two characters per
/// byte, high half first.
pub open spec fn spec_hex(bytes: Seq<u8>) -> Seq<char>
    decreases bytes.len(),
{
    if bytes.len() == 0 {
        Seq::empty()
    } else {
        spec_hex(bytes.drop_last()).push(spec_hex_char((bytes.last() >> 4) as nat)).push(
            spec_hex_char((bytes.last() & 15) as nat),
        )
    }
}

/// Hexadecimal rendering distributes over concatenation.
pub proof fn lemma_hex_append(a: Seq<u8>, b: Seq<u8>)
    ensures
        spec_hex(a + b) == spec_hex(a) + spec_hex(b),
    decreases b.len(),
{
    if b.len() == 0 {
        assert(a + b =~= a);
        assert(spec_hex(a) + spec_hex(b) =~= spec_hex(a));
    } else {
        lemma_hex_append(a, b.drop_last());
        assert((a + b).drop_last() =~= a + b.drop_last());
        assert((a + b).last() == b.last());
        assert(spec_hex(a) + spec_hex(b) =~= (spec_hex(a) + spec_hex(b.drop_last())).push(
            spec_hex_char((b.last() >> 4) as nat),
        ).push(spec_hex_char((b.last() & 15) as nat)));
    }
}

/// Appends the upper-case hexadecimal rendering of the bytes to the vector.
pub fn push_hex(out: &mut Vec<char>, bytes: &[u8])
    ensures
        final(out)@ == old(out)@ + spec_hex(bytes@),
{
    let mut i: usize = 0;
    while i < bytes.len()
        invariant
            i <= bytes.len(),
            out@ == old(out)@ + spec_hex(bytes@.subrange(0, i as int)),
        decreases bytes.len() - i,
    {
        let b = bytes[i];
        proof {
            assert(b >> 4 < 16 && b & 15 < 16) by (bit_vector);
        }
        let hi: u8 = b >> 4;
        let lo: u8 = b & 15;
        let hc: u8 = if hi < 10 {
            48 + hi
        } else {
            55 + hi
        };
        let lc: u8 = if lo < 10 {
            48 + lo
        } else {
            55 + lo
        };
        out.push(hc as char);
        out.push(lc as char);
        i = i + 1;
        proof {
            let pre = bytes@.subrange(0, i as int);
            assert(pre.drop_last() =~= bytes@.subrange(0, i - 1));
            assert(pre.last() == bytes@[i - 1]);
            assert(out@ =~= old(out)@ + spec_hex(pre));
        }
    }
    assert(bytes@.subrange(0, bytes@.len() as int) =~= bytes@);
}

/// The value of one hexadecimal digit character, either case, if it is one.
pub open spec fn spec_hex_val(c: char) -> Option<nat> {
    if 48 <= c as int && c as int <= 57 {
        Some((c as int - 48) as nat)
    } else if 65 <= c as int && c as int <= 70 {
        Some((c as int - 55) as nat)
    } else if 97 <= c as int && c as int <= 102 {
        Some((c as int - 87) as nat)
    } else {
        None
    }
}

pub open spec fn all_hex_digits(s: Seq<char>) -> bool {
    forall|i: int| 0 <= i < s.len() ==> (#[trigger] spec_hex_val(s[i])) is Some
}

/// The byte string a hexadecimal character string denotes, two characters a
/// byte; meaningful when the length is even and every character is a digit.
pub open spec fn spec_hex_bytes(s: Seq<char>) -> Seq<u8>
    decreases s.len(),
{
    if s.len() < 2 {
        Seq::empty()
    } else {
        spec_hex_bytes(s.subrange(0, s.len() - 2)).push(
            ((spec_hex_val(s[s.len() - 2]).unwrap_or(0) * 16 + spec_hex_val(
                s[s.len() - 1],
            ).unwrap_or(0)) as u8),
        )
    }
}

/// Parses a hexadecimal character string into bytes. Succeeds exactly on an
/// even-length string of hexadecimal digits, either case.
pub fn parse_hex(s: &Vec<char>) -> (r: Result<Vec<u8>, Error>)
    ensures
        (s@.len() % 2 == 0 && all_hex_digits(s@)) <==> r is Ok,
        r is Ok ==> r->Ok_0@ == spec_hex_bytes(s@),
        r is Err ==> r->Err_0 matches Error::ParseError(_),
{
    if s.len() % 2 != 0 {
        return Err(Error::ParseError(chars_to_string(s)));
    }
    let mut out: Vec<u8> = Vec::new();
    let mut i: usize = 0;
    proof {
        assert(s@.subrange(0, s@.len() as int) =~= s@);
    }
    while i < s.len()
        invariant
            i <= s.len(),
            i % 2 == 0,
            s@.len() % 2 == 0,
            out@ == spec_hex_bytes(s@.subrange(0, i as int)),
            forall|j: int| 0 <= j < i ==> (#[trigger] spec_hex_val(s@[j])) is Some,
            s@.subrange(0, s@.len() as int) == s@,
        decreases s.len() - i,
    {
        let hi = match hex_digit(s[i]) {
            Some(d) => d,
            None => {
                proof {
                    assert(spec_hex_val(s@[i as int]) is None);
                }
                return Err(Error::ParseError(chars_to_string(s)));
            }
        };
        let lo = match hex_digit(s[i + 1]) {
            Some(d) => d,
            None => {
                proof {
                    assert(spec_hex_val(s@[i + 1]) is None);
                }
                return Err(Error::ParseError(chars_to_string(s)));
            }
        };
        out.push(hi * 16 + lo);
        i = i + 2;
        proof {
            let pre = s@.subrange(0, i as int);
            assert(pre.subrange(0, pre.len() - 2) =~= s@.subrange(0, i - 2));
            assert(pre[pre.len() - 2] == s@[i - 2] && pre[pre.len() - 1] == s@[i - 1]);
            assert(spec_hex_val(s@[i - 2])->0 == hi as nat);
            assert(spec_hex_val(s@[i - 1])->0 == lo as nat);
            assert(out@ =~= spec_hex_bytes(pre));
        }
    }
    Ok(out)
}

/// The value of one hexadecimal digit character, or `None`.
pub fn hex_digit(c: char) -> (r: Option<u8>)
    ensures
        r is Some <==> spec_hex_val(c) is Some,
        r is Some ==> r->0 as nat == spec_hex_val(c)->0 && r->0 < 16,
{
    let u = c as u32;
    if 48 <= u && u <= 57 {
        Some((u - 48) as u8)
    } else if 65 <= u && u <= 70 {
        Some((u - 55) as u8)
    } else if 97 <= u && u <= 102 {
        Some((u - 87) as u8)
    } else {
        None
    }
}

/// Rendering bytes as hexadecimal and parsing the rendering back yields the
/// same bytes.
pub proof fn lemma_hex_round_trip(b: Seq<u8>)
    ensures
        spec_hex(b).len() == 2 * b.len(),
        all_hex_digits(spec_hex(b)),
        spec_hex_bytes(spec_hex(b)) == b,
    decreases b.len(),
{
    if b.len() == 0 {
        assert(spec_hex_bytes(spec_hex(b)) =~= b);
    } else {
        lemma_hex_round_trip(b.drop_last());
        let s = spec_hex(b);
        let p = spec_hex(b.drop_last());
        let x = b.last();
        let hi = (x >> 4) as nat;
        let lo = (x & 15) as nat;
        assert(x >> 4 < 16 && x & 15 < 16 && ((x >> 4) as nat * 16 + (x & 15) as nat) == x as nat)
            by (bit_vector);
        assert(s =~= p.push(spec_hex_char(hi)).push(spec_hex_char(lo)));
        assert(forall|i: int| 0 <= i < p.len() ==> (#[trigger] spec_hex_val(p[i])) is Some);
        assert(spec_hex_val(spec_hex_char(hi)) == Some(hi));
        assert(spec_hex_val(spec_hex_char(lo)) == Some(lo));
        assert(all_hex_digits(s));
        assert(s.subrange(0, s.len() - 2) =~= p);
        assert(spec_hex_bytes(s) =~= b);
    }
}

// ---------------------------------------------------------------------------
// Numeric-text format
// ---------------------------------------------------------------------------

/// A mantissa without sign: digits, or digits around one point with digits
/// on at least one side.
pub open spec fn is_unsigned_mantissa(s: Seq<char>) -> bool {
    (s.len() > 0 && all_digits(s)) || (exists|k: int|
        0 <= k < s.len() && s[k] == '.' && all_digits(s.subrange(0, k)) && all_digits(
            s.subrange(k + 1, s.len() as int),
        ) && s.len() > 1)
}

/// A mantissa with an optional leading sign.
pub open spec fn is_signed_mantissa(s: Seq<char>) -> bool {
    if s.len() > 0 && (s[0] == '+' || s[0] == '-') {
        is_unsigned_mantissa(s.subrange(1, s.len() as int))
    } else {
        is_unsigned_mantissa(s)
    }
}

/// An exponent part: `e` or `E`, an optional sign, at least one digit.
pub open spec fn is_exponent(s: Seq<char>) -> bool {
    s.len() >= 2 && (s[0] == 'e' || s[0] == 'E') && {
        let t = if s[1] == '+' || s[1] == '-' {
            s.subrange(2, s.len() as int)
        } else {
            s.subrange(1, s.len() as int)
        };
        t.len() > 0 && all_digits(t)
    }
}

/// The numeric-text format a numeric cell accepts: a signed mantissa with an
/// optional exponent part.
pub open spec fn is_number_format(s: Seq<char>) -> bool {
    is_signed_mantissa(s) || (exists|k: int|
        0 <= k < s.len() && (s[k] == 'e' || s[k] == 'E') && is_signed_mantissa(s.subrange(0, k))
            && is_exponent(s.subrange(k, s.len() as int)))
}

/// Decides the numeric-text format.
pub fn check_number_format(s: &Vec<char>) -> (r: bool)
    ensures
        r == is_number_format(s@),
{
    // Find the first exponent marker, if any; the mantissa may not itself
    // hold `e`, so the first marker is the only candidate split.
    let mut epos: usize = s.len();
    let mut i: usize = 0;
    while i < s.len()
        invariant
            i <= s.len(),
            epos == s.len() || (epos < i && (s@[epos as int] == 'e' || s@[epos as int] == 'E')),
            forall|j: int|
                0 <= j < i && j < epos ==> !(#[trigger] s@[j] == 'e' || s@[j] == 'E'),
        decreases s.len() - i,
    {
        let c = s[i];
        if epos == s.len() && (c == 'e' || c == 'E') {
            epos = i;
        }
        i = i + 1;
    }
    if epos == s.len() {
        let ok = check_signed_mantissa(s);
        proof {
            if !ok {
                assert(forall|k: int| 0 <= k < s@.len() ==> !(#[trigger] s@[k] == 'e' || s@[k]
                    == 'E'));
                assert(!is_number_format(s@));
            }
        }
        ok
    } else {
        let m = sub_chars(s, 0, epos);
        let e = sub_chars(s, epos, s.len());
        let ok = check_signed_mantissa(&m) && check_exponent(&e);
        proof {
            let k = epos as int;
            if ok {
                assert(0 <= k < s@.len() && (s@[k] == 'e' || s@[k] == 'E') && is_signed_mantissa(
                    s@.subrange(0, k),
                ) && is_exponent(s@.subrange(k, s@.len() as int)));
            } else {
                assert forall|j: int|
                    0 <= j < s@.len() && (s@[j] == 'e' || s@[j] == 'E') && is_signed_mantissa(
                        s@.subrange(0, j),
                    ) implies !is_exponent(s@.subrange(j, s@.len() as int)) by {
                    if j > k {
                        let ms = s@.subrange(0, j);
                        assert(ms[k] == s@[k]);
                        lemma_mantissa_no_marker(ms, k);
                    }
                }
                if is_signed_mantissa(s@) {
                    lemma_mantissa_no_marker(s@, k);
                }
                assert(!is_number_format(s@));
            }
        }
        ok
    }
}

/// A signed mantissa holds no exponent marker.
proof fn lemma_mantissa_no_marker(s: Seq<char>, k: int)
    requires
        is_signed_mantissa(s),
    ensures
        0 <= k < s.len() ==> !(s[k] == 'e' || s[k] == 'E'),
{
    if 0 <= k < s.len() && (s[k] == 'e' || s[k] == 'E') {
        if s.len() > 0 && (s[0] == '+' || s[0] == '-') {
            let t = s.subrange(1, s.len() as int);
            assert(k >= 1);
            assert(t[k - 1] == s[k]);
            lemma_unsigned_mantissa_no_marker(t, k - 1);
        } else {
            lemma_unsigned_mantissa_no_marker(s, k);
        }
    }
}

proof fn lemma_unsigned_mantissa_no_marker(s: Seq<char>, k: int)
    requires
        is_unsigned_mantissa(s),
    ensures
        0 <= k < s.len() ==> !(s[k] == 'e' || s[k] == 'E'),
{
    if 0 <= k < s.len() && (s[k] == 'e' || s[k] == 'E') {
        if s.len() > 0 && all_digits(s) {
            assert(is_digit(s[k]));
        } else {
            let d = choose|d: int|
                0 <= d < s.len() && s[d] == '.' && all_digits(s.subrange(0, d)) && all_digits(
                    s.subrange(d + 1, s.len() as int),
                ) && s.len() > 1;
            if k < d {
                assert(is_digit(s.subrange(0, d)[k]));
            } else if k > d {
                assert(is_digit(s.subrange(d + 1, s.len() as int)[k - d - 1]));
            }
        }
    }
}

/// Copies the character range `from..to` out of the vector.
pub fn sub_chars(s: &Vec<char>, from: usize, to: usize) -> (r: Vec<char>)
    requires
        from <= to <= s@.len(),
    ensures
        r@ == s@.subrange(from as int, to as int),
{
    let mut r: Vec<char> = Vec::new();
    let mut i: usize = from;
    while i < to
        invariant
            from <= i <= to <= s@.len(),
            r@ == s@.subrange(from as int, i as int),
        decreases to - i,
    {
        r.push(s[i]);
        i = i + 1;
        assert(s@.subrange(from as int, i - 1).push(s@[i - 1]) =~= s@.subrange(
            from as int,
            i as int,
        ));
    }
    r
}

fn check_all_digits(s: &Vec<char>, from: usize, to: usize) -> (r: bool)
    requires
        from <= to <= s@.len(),
    ensures
        r == all_digits(s@.subrange(from as int, to as int)),
{
    let mut i: usize = from;
    while i < to
        invariant
            from <= i <= to <= s@.len(),
            forall|j: int| from <= j < i ==> is_digit(#[trigger] s@[j]),
        decreases to - i,
    {
        let c = s[i];
        if c < '0' || c > '9' {
            proof {
                assert(s@.subrange(from as int, to as int)[i - from] == s@[i as int]);
                assert(!is_digit(s@[i as int]));
            }
            return false;
        }
        proof {
            assert(is_digit(s@[i as int]));
        }
        i = i + 1;
    }
    proof {
        assert forall|j: int|
            0 <= j < to - from implies is_digit(#[trigger] s@.subrange(from as int, to as int)[j])
        by {
            assert(s@.subrange(from as int, to as int)[j] == s@[from + j]);
        }
    }
    true
}

fn check_unsigned_mantissa(s: &Vec<char>) -> (r: bool)
    ensures
        r == is_unsigned_mantissa(s@),
{
    // Find the first point, if any; digits may not hold a second one.
    let mut dot: usize = s.len();
    let mut i: usize = 0;
    while i < s.len()
        invariant
            i <= s.len(),
            dot == s.len() || (dot < i && s@[dot as int] == '.'),
            forall|j: int| 0 <= j < i && j < dot ==> #[trigger] s@[j] != '.',
        decreases s.len() - i,
    {
        if dot == s.len() && s[i] == '.' {
            dot = i;
        }
        i = i + 1;
    }
    if dot == s.len() {
        let ok = s.len() > 0 && check_all_digits(s, 0, s.len());
        proof {
            assert(s@.subrange(0, s@.len() as int) =~= s@);
            if !ok {
                assert(forall|k: int| 0 <= k < s@.len() ==> #[trigger] s@[k] != '.');
                assert(!is_unsigned_mantissa(s@));
            }
        }
        ok
    } else {
        let ok = s.len() > 1 && check_all_digits(s, 0, dot) && check_all_digits(
            s,
            dot + 1,
            s.len(),
        );
        proof {
            let k = dot as int;
            if ok {
                assert(0 <= k < s@.len() && s@[k] == '.' && all_digits(s@.subrange(0, k))
                    && all_digits(s@.subrange(k + 1, s@.len() as int)) && s@.len() > 1);
            } else {
                if s@.len() > 0 && all_digits(s@) {
                    assert(is_digit(s@[k]));
                    assert(s@[k] as int == 46);
                }
                assert forall|j: int|
                    0 <= j < s@.len() && s@[j] == '.' && all_digits(s@.subrange(0, j)) && all_digits(
                        s@.subrange(j + 1, s@.len() as int),
                    ) implies !(s@.len() > 1) by {
                    if j > k {
                        assert(s@.subrange(0, j)[k] == s@[k]);
                        assert(is_digit(s@[k]));
                        assert(s@[k] as int == 46);
                    }
                }
                assert(!is_unsigned_mantissa(s@));
            }
        }
        ok
    }
}

fn check_signed_mantissa(s: &Vec<char>) -> (r: bool)
    ensures
        r == is_signed_mantissa(s@),
{
    if s.len() > 0 && (s[0] == '+' || s[0] == '-') {
        let t = sub_chars(s, 1, s.len());
        check_unsigned_mantissa(&t)
    } else {
        check_unsigned_mantissa(s)
    }
}

fn check_exponent(s: &Vec<char>) -> (r: bool)
    ensures
        r == is_exponent(s@),
{
    if s.len() < 2 {
        return false;
    }
    let c0 = s[0];
    if c0 != 'e' && c0 != 'E' {
        return false;
    }
    let c1 = s[1];
    if c1 == '+' || c1 == '-' {
        s.len() > 2 && check_all_digits(s, 2, s.len())
    } else {
        check_all_digits(s, 1, s.len())
    }
}

} // verus!
