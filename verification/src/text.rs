//! Character-level string helpers with exact specifications: trimming,
//! ASCII case folding, searching, decimal formatting and integer parsing.

use vstd::prelude::*;

verus! {

/// `String::push` appends one character.
pub assume_specification[ String::push ](s: &mut String, ch: char)
    ensures
        final(s)@ == old(s)@.push(ch),
;

// ---------------------------------------------------------------------------
// Conversions between strings and character vectors
// ---------------------------------------------------------------------------

/// The characters of `s`, in order.
pub fn chars_of(s: &str) -> (out: Vec<char>)
    ensures
        out@ == s@,
{
    let n = s.unicode_len();
    let mut out: Vec<char> = Vec::with_capacity(n);
    let mut i: usize = 0;
    while i < n
        invariant
            n == s@.len(),
            i <= n,
            out@ == s@.subrange(0, i as int),
        decreases n - i,
    {
        out.push(s.get_char(i));
        i = i + 1;
    }
    proof {
        assert(out@ =~= s@);
    }
    out
}

/// The string made of `chars`.
pub fn string_from_chars(chars: &[char]) -> (out: String)
    ensures
        out@ == chars@,
{
    let mut out = String::new();
    let mut i: usize = 0;
    while i < chars.len()
        invariant
            i <= chars@.len(),
            out@ == chars@.subrange(0, i as int),
        decreases chars@.len() - i,
    {
        out.push(chars[i]);
        proof {
            assert(chars@.subrange(0, i + 1) =~= chars@.subrange(0, i as int).push(chars@[i as int]));
        }
        i = i + 1;
    }
    proof {
        assert(out@ =~= chars@);
    }
    out
}

/// The string made of `chars[from..to]`.
pub fn string_from_range(chars: &Vec<char>, from: usize, to: usize) -> (out: String)
    requires
        from <= to <= chars@.len(),
    ensures
        out@ == chars@.subrange(from as int, to as int),
{
    let mut out = String::new();
    let mut i: usize = from;
    while i < to
        invariant
            from <= i <= to <= chars@.len(),
            out@ == chars@.subrange(from as int, i as int),
        decreases to - i,
    {
        out.push(chars[i]);
        proof {
            assert(chars@.subrange(from as int, i + 1) =~= chars@.subrange(from as int, i as int).push(
                chars@[i as int],
            ));
        }
        i = i + 1;
    }
    out
}

/// Appends every character of `tail` to `s`.
pub fn push_all(s: &mut String, tail: &str)
    ensures
        final(s)@ == old(s)@ + tail@,
{
    s.append(tail);
}

// ---------------------------------------------------------------------------
// Whitespace and trimming
// ---------------------------------------------------------------------------

/// Unicode `White_Space`, the set that `char::is_whitespace` accepts.
pub open spec fn is_ws(c: char) -> bool {
    let u = c as u32;
    u == 0x20 || (0x09 <= u && u <= 0x0d) || u == 0x85 || u == 0xa0 || u == 0x1680 || (0x2000 <= u
        && u <= 0x200a) || u == 0x2028 || u == 0x2029 || u == 0x202f || u == 0x205f || u == 0x3000
}

/// `char::is_whitespace`.
pub fn is_whitespace(c: char) -> (b: bool)
    ensures
        b == is_ws(c),
{
    let u = c as u32;
    u == 0x20 || (0x09 <= u && u <= 0x0d) || u == 0x85 || u == 0xa0 || u == 0x1680 || (0x2000 <= u
        && u <= 0x200a) || u == 0x2028 || u == 0x2029 || u == 0x202f || u == 0x205f || u == 0x3000
}

/// `s` without its leading whitespace.
pub open spec fn trim_start(s: Seq<char>) -> Seq<char>
    decreases s.len(),
{
    if s.len() > 0 && is_ws(s[0]) {
        trim_start(s.drop_first())
    } else {
        s
    }
}

/// `s` without its trailing whitespace.
pub open spec fn trim_end(s: Seq<char>) -> Seq<char>
    decreases s.len(),
{
    if s.len() > 0 && is_ws(s.last()) {
        trim_end(s.drop_last())
    } else {
        s
    }
}

/// `str::trim`: `s` without leading and trailing whitespace.
pub open spec fn trim(s: Seq<char>) -> Seq<char> {
    trim_end(trim_start(s))
}

/// `s` without the leading copies of `c`.
pub open spec fn trim_start_char(s: Seq<char>, c: char) -> Seq<char>
    decreases s.len(),
{
    if s.len() > 0 && s[0] == c {
        trim_start_char(s.drop_first(), c)
    } else {
        s
    }
}

/// `s` without the trailing copies of `c`.
pub open spec fn trim_end_char(s: Seq<char>, c: char) -> Seq<char>
    decreases s.len(),
{
    if s.len() > 0 && s.last() == c {
        trim_end_char(s.drop_last(), c)
    } else {
        s
    }
}

/// The index of the first character of `s` from `from` on that is no whitespace.
fn skip_ws_forward(s: &Vec<char>, from: usize) -> (i: usize)
    requires
        from <= s@.len(),
    ensures
        from <= i <= s@.len(),
        trim_start(s@.subrange(from as int, s@.len() as int)) == s@.subrange(i as int, s@.len() as int),
{
    let mut i = from;
    while i < s.len() && is_whitespace(s[i])
        invariant
            from <= i <= s@.len(),
            trim_start(s@.subrange(from as int, s@.len() as int)) == trim_start(
                s@.subrange(i as int, s@.len() as int),
            ),
        decreases s@.len() - i,
    {
        proof {
            let sub = s@.subrange(i as int, s@.len() as int);
            assert(sub.drop_first() =~= s@.subrange(i + 1, s@.len() as int));
        }
        i = i + 1;
    }
    i
}

/// The end of the trimmed range of `s[from..to]`.
fn skip_ws_backward(s: &Vec<char>, from: usize, to: usize) -> (j: usize)
    requires
        from <= to <= s@.len(),
    ensures
        from <= j <= to,
        trim_end(s@.subrange(from as int, to as int)) == s@.subrange(from as int, j as int),
{
    let mut j = to;
    while j > from && is_whitespace(s[j - 1])
        invariant
            from <= j <= to <= s@.len(),
            trim_end(s@.subrange(from as int, to as int)) == trim_end(
                s@.subrange(from as int, j as int),
            ),
        decreases j - from,
    {
        proof {
            let sub = s@.subrange(from as int, j as int);
            assert(sub.drop_last() =~= s@.subrange(from as int, j - 1));
        }
        j = j - 1;
    }
    j
}

/// The range of `s` that `trim` keeps.
pub fn trim_bounds(s: &Vec<char>) -> (r: (usize, usize))
    ensures
        r.0 <= r.1 <= s@.len(),
        s@.subrange(r.0 as int, r.1 as int) == trim(s@),
{
    let i = skip_ws_forward(s, 0);
    let j = skip_ws_backward(s, i, s.len());
    proof {
        assert(s@.subrange(0, s@.len() as int) =~= s@);
    }
    (i, j)
}

/// `str::trim`, as a new string.
pub fn trim_string(s: &str) -> (out: String)
    ensures
        out@ == trim(s@),
{
    let cs = chars_of(s);
    let (i, j) = trim_bounds(&cs);
    string_from_range(&cs, i, j)
}

/// `str::trim_end_matches(c)` on `s[0..to]`: the end of what it keeps.
pub fn trim_end_char_index(s: &Vec<char>, to: usize, c: char) -> (j: usize)
    requires
        to <= s@.len(),
    ensures
        j <= to,
        trim_end_char(s@.subrange(0, to as int), c) == s@.subrange(0, j as int),
{
    let mut j = to;
    while j > 0 && s[j - 1] == c
        invariant
            j <= to <= s@.len(),
            trim_end_char(s@.subrange(0, to as int), c) == trim_end_char(s@.subrange(0, j as int), c),
        decreases j,
    {
        proof {
            assert(s@.subrange(0, j as int).drop_last() =~= s@.subrange(0, j - 1));
        }
        j = j - 1;
    }
    j
}

/// `str::trim_start_matches(c)` on `s[from..]`: the start of what it keeps.
pub fn trim_start_char_index(s: &Vec<char>, from: usize, c: char) -> (i: usize)
    requires
        from <= s@.len(),
    ensures
        from <= i <= s@.len(),
        trim_start_char(s@.subrange(from as int, s@.len() as int), c) == s@.subrange(
            i as int,
            s@.len() as int,
        ),
{
    let mut i = from;
    while i < s.len() && s[i] == c
        invariant
            from <= i <= s@.len(),
            trim_start_char(s@.subrange(from as int, s@.len() as int), c) == trim_start_char(
                s@.subrange(i as int, s@.len() as int),
                c,
            ),
        decreases s@.len() - i,
    {
        proof {
            assert(s@.subrange(i as int, s@.len() as int).drop_first() =~= s@.subrange(
                i + 1,
                s@.len() as int,
            ));
        }
        i = i + 1;
    }
    i
}

// ---------------------------------------------------------------------------
// ASCII classes and case
// ---------------------------------------------------------------------------

/// `char::is_ascii_digit`.
pub open spec fn is_digit(c: char) -> bool {
    '0' <= c && c <= '9'
}

/// `char::is_ascii_hexdigit`.
pub open spec fn is_hex(c: char) -> bool {
    is_digit(c) || ('a' <= c && c <= 'f') || ('A' <= c && c <= 'F')
}

/// `char::to_ascii_lowercase`.
pub open spec fn lower(c: char) -> char {
    if 'A' <= c && c <= 'Z' {
        ((c as u32) + 32) as char
    } else {
        c
    }
}

/// `str::to_ascii_lowercase`: every ASCII capital letter of `s` made small.
pub open spec fn lower_seq(s: Seq<char>) -> Seq<char> {
    s.map_values(|c: char| lower(c))
}

/// `str::eq_ignore_ascii_case`.
pub open spec fn eq_ignore_case(a: Seq<char>, b: Seq<char>) -> bool {
    a.len() == b.len() && forall|i: int| 0 <= i < a.len() ==> #[trigger] lower(a[i]) == lower(b[i])
}

/// `char::is_ascii_digit`.
pub fn is_ascii_digit(c: char) -> (b: bool)
    ensures
        b == is_digit(c),
{
    '0' <= c && c <= '9'
}

/// `char::is_ascii_hexdigit`.
pub fn is_ascii_hexdigit(c: char) -> (b: bool)
    ensures
        b == is_hex(c),
{
    ('0' <= c && c <= '9') || ('a' <= c && c <= 'f') || ('A' <= c && c <= 'F')
}

/// `char::to_ascii_lowercase`.
pub fn to_lower(c: char) -> (out: char)
    ensures
        out == lower(c),
{
    if 'A' <= c && c <= 'Z' {
        let b: u8 = (c as u8) + 32;
        b as char
    } else {
        c
    }
}

/// `str::to_ascii_lowercase` on a character vector.
pub fn lower_chars(s: &Vec<char>) -> (out: Vec<char>)
    ensures
        out@ == lower_seq(s@),
{
    let mut out: Vec<char> = Vec::with_capacity(s.len());
    let mut i: usize = 0;
    while i < s.len()
        invariant
            i <= s@.len(),
            out@ == lower_seq(s@.subrange(0, i as int)),
        decreases s@.len() - i,
    {
        out.push(to_lower(s[i]));
        proof {
            assert(lower_seq(s@.subrange(0, i + 1)) =~= lower_seq(s@.subrange(0, i as int)).push(
                lower(s@[i as int]),
            ));
        }
        i = i + 1;
    }
    proof {
        assert(s@.subrange(0, s@.len() as int) =~= s@);
    }
    out
}

/// `str::eq_ignore_ascii_case` on `a[a_from..a_from + b.len()]` and `b`.
pub fn eq_ignore_case_at(a: &Vec<char>, a_from: usize, b: &Vec<char>) -> (r: bool)
    requires
        a_from + b@.len() <= a@.len(),
    ensures
        r == eq_ignore_case(a@.subrange(a_from as int, a_from + b@.len()), b@),
{
    let mut i: usize = 0;
    while i < b.len()
        invariant
            i <= b@.len(),
            a_from + b.len() <= a.len(),
            forall|k: int| 0 <= k < i ==> lower(a@[a_from + k]) == lower(b@[k]),
        decreases b@.len() - i,
    {
        if to_lower(a[a_from + i]) != to_lower(b[i]) {
            proof {
                let sub = a@.subrange(a_from as int, a_from + b@.len());
                assert(lower(sub[i as int]) != lower(b@[i as int]));
            }
            return false;
        }
        i = i + 1;
    }
    proof {
        let sub = a@.subrange(a_from as int, a_from + b@.len());
        assert forall|k: int| 0 <= k < sub.len() implies #[trigger] lower(sub[k]) == lower(b@[k]) by {
            assert(sub[k] == a@[a_from + k]);
        }
    }
    true
}

/// `str::eq_ignore_ascii_case`.
pub fn eq_ignore_ascii_case(a: &Vec<char>, b: &Vec<char>) -> (r: bool)
    ensures
        r == eq_ignore_case(a@, b@),
{
    if a.len() != b.len() {
        return false;
    }
    let r = eq_ignore_case_at(a, 0, b);
    proof {
        assert(a@.subrange(0, b@.len() as int) =~= a@);
    }
    r
}

/// Whether `needle` occurs in `hay` starting at index `at`.
pub open spec fn occurs_at(hay: Seq<char>, needle: Seq<char>, at: int) -> bool {
    0 <= at && at + needle.len() <= hay.len() && hay.subrange(at, at + needle.len()) == needle
}

/// `str::contains` for a string pattern.
pub open spec fn contains_seq(hay: Seq<char>, needle: Seq<char>) -> bool {
    exists|at: int| occurs_at(hay, needle, at)
}

/// Whether `needle` occurs in `hay` at `at`.
fn matches_at(hay: &Vec<char>, needle: &Vec<char>, at: usize) -> (r: bool)
    requires
        at + needle@.len() <= hay@.len(),
    ensures
        r == occurs_at(hay@, needle@, at as int),
{
    let mut k: usize = 0;
    while k < needle.len()
        invariant
            k <= needle@.len(),
            at + needle.len() <= hay.len(),
            forall|m: int| 0 <= m < k ==> hay@[at + m] == needle@[m],
        decreases needle@.len() - k,
    {
        if hay[at + k] != needle[k] {
            proof {
                let sub = hay@.subrange(at as int, at + needle@.len());
                assert(sub[k as int] != needle@[k as int]);
            }
            return false;
        }
        k = k + 1;
    }
    proof {
        assert(hay@.subrange(at as int, at + needle@.len()) =~= needle@);
    }
    true
}

/// `str::contains` for a string pattern.
pub fn contains_chars(hay: &Vec<char>, needle: &Vec<char>) -> (r: bool)
    ensures
        r == contains_seq(hay@, needle@),
{
    if needle.len() > hay.len() {
        return false;
    }
    let last = hay.len() - needle.len();
    let mut at: usize = 0;
    loop
        invariant
            at <= last,
            last + needle@.len() == hay@.len(),
            forall|p: int| 0 <= p < at ==> !occurs_at(hay@, needle@, p),
        decreases last - at,
    {
        if matches_at(hay, needle, at) {
            return true;
        }
        if at == last {
            proof {
                assert forall|p: int| !occurs_at(hay@, needle@, p) by {
                    if 0 <= p < at {
                    }
                }
            }
            return false;
        }
        at = at + 1;
    }
}

// ---------------------------------------------------------------------------
// Decimal formatting
// ---------------------------------------------------------------------------

/// The ASCII digit for `d < 10`.
pub open spec fn digit_char(d: nat) -> char {
    (48 + d) as char
}

/// The value of an ASCII digit.
pub open spec fn digit_value(c: char) -> nat {
    ((c as u32) - 48) as nat
}

/// The decimal representation of `n`, without sign or leading zeros.
pub open spec fn decimal(n: nat) -> Seq<char>
    decreases n,
{
    if n < 10 {
        seq![digit_char(n)]
    } else {
        decimal(n / 10).push(digit_char(n % 10))
    }
}

/// `digits` left-padded with zeros to at least `width` characters.
pub open spec fn zero_pad(digits: Seq<char>, width: nat) -> Seq<char> {
    if digits.len() >= width {
        digits
    } else {
        Seq::new((width - digits.len()) as nat, |i: int| '0') + digits
    }
}

/// `format!("{v}")` for a signed integer.
pub open spec fn int_decimal(v: int) -> Seq<char> {
    if v < 0 {
        seq!['-'] + decimal((-v) as nat)
    } else {
        decimal(v as nat)
    }
}

/// `format!("{v:0width$}")` for a signed integer: the sign counts toward the width.
pub open spec fn int_padded(v: int, width: nat) -> Seq<char> {
    if v < 0 {
        seq!['-'] + zero_pad(decimal((-v) as nat), (width - 1) as nat)
    } else {
        zero_pad(decimal(v as nat), width)
    }
}

fn digit_to_char(d: u64) -> (c: char)
    requires
        d < 10,
    ensures
        c == digit_char(d as nat),
{
    let b: u8 = 48 + (d as u8);
    b as char
}

/// Appends the decimal representation of `n` to `out`.
pub fn push_decimal(out: &mut Vec<char>, n: u64)
    ensures
        final(out)@ == old(out)@ + decimal(n as nat),
    decreases n,
{
    if n >= 10 {
        push_decimal(out, n / 10);
    }
    out.push(digit_to_char(n % 10));
    proof {
        if n >= 10 {
            assert(old(out)@ + decimal(n as nat) =~= old(out)@ + decimal((n / 10) as nat) + seq![
                digit_char((n % 10) as nat),
            ]);
        }
    }
}

/// Appends `digits` zero-padded to `width` to `out`.
fn push_zero_padded(out: &mut Vec<char>, digits: &Vec<char>, width: usize)
    ensures
        final(out)@ == old(out)@ + zero_pad(digits@, width as nat),
{
    let ghost start = out@;
    if digits.len() < width {
        let pad = width - digits.len();
        let mut k: usize = 0;
        while k < pad
            invariant
                k <= pad,
                out@ == start + Seq::new(k as nat, |i: int| '0'),
            decreases pad - k,
        {
            out.push('0');
            proof {
                assert(Seq::new((k + 1) as nat, |i: int| '0') =~= Seq::new(k as nat, |i: int| '0').push('0'));
            }
            k = k + 1;
        }
    }
    let mut k: usize = 0;
    let ghost mid = out@;
    while k < digits.len()
        invariant
            k <= digits@.len(),
            out@ == mid + digits@.subrange(0, k as int),
        decreases digits@.len() - k,
    {
        out.push(digits[k]);
        proof {
            assert(digits@.subrange(0, k + 1) =~= digits@.subrange(0, k as int).push(digits@[k as int]));
        }
        k = k + 1;
    }
    proof {
        assert(digits@.subrange(0, digits@.len() as int) =~= digits@);
    }
}

/// `format!("{n:0width$}")` for an unsigned integer.
pub fn u64_padded(n: u64, width: usize) -> (out: Vec<char>)
    ensures
        out@ == zero_pad(decimal(n as nat), width as nat),
{
    let mut digits: Vec<char> = Vec::new();
    push_decimal(&mut digits, n);
    let mut out: Vec<char> = Vec::new();
    push_zero_padded(&mut out, &digits, width);
    out
}

/// `n.to_string()` for an unsigned integer.
pub fn u64_to_string(n: u64) -> (out: String)
    ensures
        out@ == decimal(n as nat),
{
    let mut digits: Vec<char> = Vec::new();
    push_decimal(&mut digits, n);
    string_from_chars(digits.as_slice())
}

/// `format!("{v:0width$}")` for a signed integer.
pub fn i64_padded(v: i64, width: usize) -> (out: Vec<char>)
    requires
        width >= 1,
    ensures
        out@ == int_padded(v as int, width as nat),
{
    let mut out: Vec<char> = Vec::new();
    let mut digits: Vec<char> = Vec::new();
    if v < 0 {
        let magnitude: u64 = ((-(v + 1)) as u64) + 1;
        push_decimal(&mut digits, magnitude);
        out.push('-');
        push_zero_padded(&mut out, &digits, width - 1);
        proof {
            assert(out@ =~= seq!['-'] + zero_pad(decimal((-v) as nat), (width - 1) as nat));
        }
    } else {
        push_decimal(&mut digits, v as u64);
        push_zero_padded(&mut out, &digits, width);
        proof {
            assert(out@ =~= zero_pad(decimal(v as nat), width as nat));
        }
    }
    out
}

/// `v.to_string()` for a signed integer.
pub fn i64_to_string(v: i64) -> (out: String)
    ensures
        out@ == int_decimal(v as int),
{
    let mut digits: Vec<char> = Vec::new();
    if v < 0 {
        let magnitude: u64 = ((-(v + 1)) as u64) + 1;
        digits.push('-');
        push_decimal(&mut digits, magnitude);
        proof {
            assert(digits@ =~= seq!['-'] + decimal((-v) as nat));
        }
    } else {
        push_decimal(&mut digits, v as u64);
        proof {
            assert(digits@ =~= decimal(v as nat));
        }
    }
    string_from_chars(digits.as_slice())
}

// ---------------------------------------------------------------------------
// Integer parsing
// ---------------------------------------------------------------------------

/// The value of a run of ASCII digits.
pub open spec fn digits_value(s: Seq<char>) -> nat
    decreases s.len(),
{
    if s.len() == 0 {
        0
    } else {
        digits_value(s.drop_last()) * 10 + digit_value(s.last())
    }
}

/// Whether every character of `s` is an ASCII digit.
pub open spec fn all_digits(s: Seq<char>) -> bool {
    forall|i: int| 0 <= i < s.len() ==> #[trigger] is_digit(s[i])
}

/// Why `str::parse` refused an integer (`core::num::IntErrorKind`).
#[derive(Debug, Clone, Copy, PartialEq, Eq, Structural)]
pub enum IntErrorKind {
    Empty,
    InvalidDigit,
    PosOverflow,
    NegOverflow,
}

impl IntErrorKind {
    /// The text that `ParseIntError` displays for this kind.
    pub fn message(&self) -> (m: String)
        ensures
            m@ == int_error_text(*self),
    {
        match self {
            IntErrorKind::Empty => String::from_str("cannot parse integer from empty string"),
            IntErrorKind::InvalidDigit => String::from_str("invalid digit found in string"),
            IntErrorKind::PosOverflow => String::from_str("number too large to fit in target type"),
            IntErrorKind::NegOverflow => String::from_str("number too small to fit in target type"),
        }
    }
}

/// The text that `ParseIntError` displays for `kind`.
pub open spec fn int_error_text(kind: IntErrorKind) -> Seq<char> {
    match kind {
        IntErrorKind::Empty => "cannot parse integer from empty string"@,
        IntErrorKind::InvalidDigit => "invalid digit found in string"@,
        IntErrorKind::PosOverflow => "number too large to fit in target type"@,
        IntErrorKind::NegOverflow => "number too small to fit in target type"@,
    }
}

/// Reading the first `n` characters of unsigned digits `s` left to right, as
/// `from_str` does: the first character that is no digit, or the first digit
/// that takes the value past `max`, decides the error.
pub open spec fn scan_unsigned(s: Seq<char>, n: nat, max: nat) -> Result<nat, IntErrorKind>
    decreases n,
{
    if n == 0 {
        Ok(0)
    } else {
        match scan_unsigned(s, (n - 1) as nat, max) {
            Err(e) => Err(e),
            Ok(v) => if !is_digit(s[n - 1]) {
                Err(IntErrorKind::InvalidDigit)
            } else if v * 10 + digit_value(s[n - 1]) > max {
                Err(IntErrorKind::PosOverflow)
            } else {
                Ok(v * 10 + digit_value(s[n - 1]))
            },
        }
    }
}

/// `str::parse` for an unsigned integer type whose largest value is `max`.
pub open spec fn parse_unsigned(s: Seq<char>, max: nat) -> Result<nat, IntErrorKind> {
    if s.len() == 0 {
        Err(IntErrorKind::Empty)
    } else if s.len() == 1 && (s[0] == '+' || s[0] == '-') {
        Err(IntErrorKind::InvalidDigit)
    } else if s[0] == '+' {
        scan_unsigned(s.drop_first(), (s.len() - 1) as nat, max)
    } else {
        scan_unsigned(s, s.len(), max)
    }
}

/// `str::parse::<i64>().ok()`: an optional sign, then one or more digits
/// whose signed value fits in an `i64`.
pub open spec fn parse_i64_value(s: Seq<char>) -> Option<int> {
    if s.len() == 0 {
        None
    } else {
        let negative = s[0] == '-';
        let body = if s[0] == '+' || s[0] == '-' {
            s.drop_first()
        } else {
            s
        };
        let magnitude = digits_value(body);
        let value = if negative {
            -magnitude
        } else {
            magnitude as int
        };
        if body.len() > 0 && all_digits(body) && i64::MIN <= value <= i64::MAX {
            Some(value)
        } else {
            None
        }
    }
}

proof fn lemma_digits_value_step(s: Seq<char>, i: int)
    requires
        0 <= i < s.len(),
    ensures
        digits_value(s.subrange(0, i + 1)) == digits_value(s.subrange(0, i)) * 10 + digit_value(
            s[i],
        ),
{
    assert(s.subrange(0, i + 1).drop_last() =~= s.subrange(0, i));
}

/// Unsigned parsing of `s[from..]` as `scan_unsigned` reads it, for `max <= u64::MAX`.
pub fn scan_unsigned_exec(s: &Vec<char>, from: usize, max: u64) -> (r: Result<u64, IntErrorKind>)
    requires
        from <= s@.len(),
    ensures
        match scan_unsigned(
            s@.subrange(from as int, s@.len() as int),
            (s@.len() - from) as nat,
            max as nat,
        ) {
            Ok(v) => r == Ok::<u64, IntErrorKind>(v as u64) && v <= max,
            Err(e) => r == Err::<u64, IntErrorKind>(e),
        },
{
    let ghost body = s@.subrange(from as int, s@.len() as int);
    let mut acc: u64 = 0;
    let mut i: usize = from;
    while i < s.len()
        invariant
            from <= i <= s@.len(),
            body == s@.subrange(from as int, s@.len() as int),
            scan_unsigned(body, (i - from) as nat, max as nat) == Ok::<nat, IntErrorKind>(acc as nat),
            acc <= max,
        decreases s@.len() - i,
    {
        let c = s[i];
        proof {
            assert(body[i - from] == c);
        }
        if !is_ascii_digit(c) {
            proof {
                assert(scan_unsigned(body, (i - from + 1) as nat, max as nat) == Err::<nat, IntErrorKind>(IntErrorKind::InvalidDigit));
                lemma_scan_stays_err(body, (i - from + 1) as nat, body.len(), max as nat);
            }
            return Err(IntErrorKind::InvalidDigit);
        }
        let d: u64 = ((c as u32) - 48) as u64;
        let next: u128 = (acc as u128) * 10 + (d as u128);
        if next > max as u128 {
            proof {
                assert(scan_unsigned(body, (i - from + 1) as nat, max as nat) == Err::<nat, IntErrorKind>(IntErrorKind::PosOverflow));
                lemma_scan_stays_err(body, (i - from + 1) as nat, body.len(), max as nat);
            }
            return Err(IntErrorKind::PosOverflow);
        }
        acc = next as u64;
        i = i + 1;
    }
    Ok(acc)
}

proof fn lemma_scan_stays_err(s: Seq<char>, n: nat, m: nat, max: nat)
    requires
        n <= m,
        scan_unsigned(s, n, max) is Err,
    ensures
        scan_unsigned(s, m, max) == scan_unsigned(s, n, max),
    decreases m - n,
{
    if n < m {
        lemma_scan_stays_err(s, n, (m - 1) as nat, max);
    }
}

/// `str::parse::<u64>()`.
pub fn parse_u64(s: &str) -> (r: Result<u64, IntErrorKind>)
    ensures
        match parse_unsigned(s@, u64::MAX as nat) {
            Ok(v) => r == Ok::<u64, IntErrorKind>(v as u64),
            Err(e) => r == Err::<u64, IntErrorKind>(e),
        },
{
    let cs = chars_of(s);
    if cs.len() == 0 {
        return Err(IntErrorKind::Empty);
    }
    if cs.len() == 1 && (cs[0] == '+' || cs[0] == '-') {
        return Err(IntErrorKind::InvalidDigit);
    }
    if cs[0] == '+' {
        let r = scan_unsigned_exec(&cs, 1, u64::MAX);
        proof {
            assert(cs@.subrange(1, cs@.len() as int) =~= cs@.drop_first());
        }
        r
    } else {
        let r = scan_unsigned_exec(&cs, 0, u64::MAX);
        proof {
            assert(cs@.subrange(0, cs@.len() as int) =~= cs@);
        }
        r
    }
}

/// Whether `s[from..to]` is all digits, and its value when that is at most `cap`.
/// `r.0`: all digits; `r.1`: the value exceeds `cap`; `r.2`: the value otherwise.
pub fn digits_value_capped(s: &Vec<char>, from: usize, to: usize, cap: u64) -> (r: (bool, bool, u64))
    requires
        from <= to <= s@.len(),
    ensures
        r.0 == all_digits(s@.subrange(from as int, to as int)),
        r.0 ==> (r.1 <==> digits_value(s@.subrange(from as int, to as int)) > cap),
        r.0 && !r.1 ==> r.2 == digits_value(s@.subrange(from as int, to as int)),
{
    let mut acc: u64 = 0;
    let mut over = false;
    let mut i: usize = from;
    while i < to
        invariant
            from <= i <= to <= s@.len(),
            all_digits(s@.subrange(from as int, i as int)),
            over <==> digits_value(s@.subrange(from as int, i as int)) > cap,
            !over ==> acc == digits_value(s@.subrange(from as int, i as int)),
        decreases to - i,
    {
        let c = s[i];
        if !is_ascii_digit(c) {
            proof {
                let sub = s@.subrange(from as int, to as int);
                assert(sub[i - from] == c);
            }
            return (false, false, 0);
        }
        proof {
            lemma_digits_value_step(s@.subrange(from as int, to as int), i - from);
            assert(s@.subrange(from as int, to as int).subrange(0, i - from + 1) =~= s@.subrange(
                from as int,
                i + 1,
            ));
            assert(s@.subrange(from as int, to as int).subrange(0, i - from) =~= s@.subrange(
                from as int,
                i as int,
            ));
            assert(s@.subrange(from as int, i + 1) =~= s@.subrange(from as int, i as int).push(c));
        }
        if !over {
            let d: u64 = ((c as u32) - 48) as u64;
            let next: u128 = (acc as u128) * 10 + (d as u128);
            if next > cap as u128 {
                over = true;
            } else {
                acc = next as u64;
            }
        }
        i = i + 1;
    }
    (true, over, acc)
}

/// `str::parse::<i64>().ok()`.
pub fn parse_i64(s: &str) -> (r: Option<i64>)
    ensures
        match parse_i64_value(s@) {
            Some(v) => r == Some(v as i64),
            None => r is None,
        },
{
    let cs = chars_of(s);
    if cs.len() == 0 {
        return None;
    }
    let negative = cs[0] == '-';
    let from: usize = if cs[0] == '+' || cs[0] == '-' {
        1
    } else {
        0
    };
    proof {
        if from == 1 {
            assert(cs@.subrange(1, cs@.len() as int) =~= cs@.drop_first());
        } else {
            assert(cs@.subrange(0, cs@.len() as int) =~= cs@);
        }
    }
    if from == cs.len() {
        return None;
    }
    let cap: u64 = if negative {
        0x8000_0000_0000_0000u64
    } else {
        0x7fff_ffff_ffff_ffffu64
    };
    let (digits, over, magnitude) = digits_value_capped(&cs, from, cs.len(), cap);
    if !digits || over {
        return None;
    }
    if negative {
        if magnitude == 0x8000_0000_0000_0000u64 {
            Some(i64::MIN)
        } else {
            Some(-(magnitude as i64))
        }
    } else {
        Some(magnitude as i64)
    }
}

// ---------------------------------------------------------------------------
// Comparison and splitting
// ---------------------------------------------------------------------------

/// `a == b` on character vectors.
pub fn chars_eq(a: &Vec<char>, b: &Vec<char>) -> (r: bool)
    ensures
        r == (a@ == b@),
{
    if a.len() != b.len() {
        return false;
    }
    let mut i: usize = 0;
    while i < a.len()
        invariant
            a@.len() == b@.len(),
            i <= a@.len(),
            forall|k: int| 0 <= k < i ==> a@[k] == b@[k],
        decreases a@.len() - i,
    {
        if a[i] != b[i] {
            return false;
        }
        i = i + 1;
    }
    proof {
        assert(a@ =~= b@);
    }
    true
}

/// Whether the characters `a` spell `lit`.
pub fn chars_eq_str(a: &Vec<char>, lit: &str) -> (r: bool)
    ensures
        r == (a@ == lit@),
{
    let b = chars_of(lit);
    chars_eq(a, &b)
}

/// Whether `s` holds the character `c`.
pub open spec fn has_char(s: Seq<char>, c: char) -> bool {
    exists|i: int| 0 <= i < s.len() && s[i] == c
}

/// What follows the last `c` in `s` (all of `s` when there is none): the first
/// item of `str::rsplit(c)`.
pub open spec fn after_last(s: Seq<char>, c: char) -> Seq<char>
    decreases s.len(),
{
    if s.len() == 0 {
        s
    } else if s.last() == c {
        Seq::empty()
    } else {
        after_last(s.drop_last(), c).push(s.last())
    }
}

/// The start of `after_last(s[0..to], c)` in `s`.
pub fn after_last_start(s: &Vec<char>, to: usize, c: char) -> (i: usize)
    requires
        to <= s@.len(),
    ensures
        i <= to,
        after_last(s@.subrange(0, to as int), c) == s@.subrange(i as int, to as int),
        forall|k: int| i <= k < to ==> s@[k] != c,
{
    let mut i = to;
    while i > 0 && s[i - 1] != c
        invariant
            i <= to <= s@.len(),
            forall|k: int| i <= k < to ==> s@[k] != c,
            after_last(s@.subrange(0, to as int), c) == after_last(s@.subrange(0, i as int), c)
                + s@.subrange(i as int, to as int),
        decreases i,
    {
        proof {
            let pre = s@.subrange(0, i as int);
            assert(pre.drop_last() =~= s@.subrange(0, i - 1));
            assert(after_last(pre, c) == after_last(s@.subrange(0, i - 1), c).push(s@[i - 1]));
            assert(after_last(s@.subrange(0, i - 1), c).push(s@[i - 1]) + s@.subrange(i as int, to as int)
                =~= after_last(s@.subrange(0, i - 1), c) + s@.subrange(i - 1, to as int));
        }
        i = i - 1;
    }
    proof {
        if i > 0 {
            assert(after_last(s@.subrange(0, i as int), c) =~= Seq::<char>::empty());
        } else {
            assert(s@.subrange(0, 0) =~= Seq::<char>::empty());
        }
        assert(Seq::<char>::empty() + s@.subrange(i as int, to as int) =~= s@.subrange(i as int, to as int));
    }
    i
}

/// Whether `s[from..to]` holds `c`.
pub fn has_char_in(s: &Vec<char>, from: usize, to: usize, c: char) -> (r: bool)
    requires
        from <= to <= s@.len(),
    ensures
        r == has_char(s@.subrange(from as int, to as int), c),
{
    let mut i = from;
    while i < to
        invariant
            from <= i <= to <= s@.len(),
            forall|k: int| from <= k < i ==> s@[k] != c,
        decreases to - i,
    {
        if s[i] == c {
            proof {
                assert(s@.subrange(from as int, to as int)[i - from] == c);
            }
            return true;
        }
        i = i + 1;
    }
    proof {
        let sub = s@.subrange(from as int, to as int);
        assert forall|k: int| 0 <= k < sub.len() implies sub[k] != c by {
            assert(sub[k] == s@[from + k]);
        }
    }
    false
}

/// Appends `s[from..to]` to `out`.
pub fn push_range(out: &mut String, s: &Vec<char>, from: usize, to: usize)
    requires
        from <= to <= s@.len(),
    ensures
        final(out)@ == old(out)@ + s@.subrange(from as int, to as int),
{
    let ghost start = out@;
    let mut i = from;
    while i < to
        invariant
            from <= i <= to <= s@.len(),
            out@ == start + s@.subrange(from as int, i as int),
        decreases to - i,
    {
        out.push(s[i]);
        proof {
            assert(s@.subrange(from as int, i + 1) =~= s@.subrange(from as int, i as int).push(s@[i as int]));
        }
        i = i + 1;
    }
}

/// Appends all of `s` to `out`.
pub fn push_chars(out: &mut String, s: &Vec<char>)
    ensures
        final(out)@ == old(out)@ + s@,
{
    push_range(out, s, 0, s.len());
    proof {
        assert(s@.subrange(0, s@.len() as int) =~= s@);
    }
}

} // verus!
