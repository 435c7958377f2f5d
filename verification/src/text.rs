//! Small text routines the planning code relies on: decimal numbers, Unicode
//! white space, trimming, integer parsing and substring search.
use vstd::prelude::*;
use vstd::string::*;

verus! {

/// The character for a decimal digit `d` (0..=9).
pub open spec fn digit_char(d: int) -> char {
    (48 + d) as char
}

/// Decimal text of `n`, most significant digit first, without leading zeros.
pub open spec fn decimal_text(n: nat) -> Seq<char>
    decreases n,
{
    if n < 10 {
        seq![digit_char(n as int)]
    } else {
        decimal_text(n / 10) + seq![digit_char((n % 10) as int)]
    }
}

/// `count` copies of the character `c`.
pub open spec fn repeat_char(c: char, count: nat) -> Seq<char> {
    Seq::new(count, |i: int| c)
}

/// Decimal text of `n`, padded on the left with zeros to at least `width` characters.
pub open spec fn zero_padded_decimal_text(n: nat, width: nat) -> Seq<char> {
    let digits = decimal_text(n);
    if digits.len() < width {
        repeat_char('0', (width - digits.len()) as nat) + digits
    } else {
        digits
    }
}

fn digit_str(d: usize) -> (s: &'static str)
    requires
        d < 10,
    ensures
        s@ == seq![digit_char(d as int)],
{
    match d {
        0 => {
            proof {
                reveal_strlit("0");
            }
            "0"
        },
        1 => {
            proof {
                reveal_strlit("1");
            }
            "1"
        },
        2 => {
            proof {
                reveal_strlit("2");
            }
            "2"
        },
        3 => {
            proof {
                reveal_strlit("3");
            }
            "3"
        },
        4 => {
            proof {
                reveal_strlit("4");
            }
            "4"
        },
        5 => {
            proof {
                reveal_strlit("5");
            }
            "5"
        },
        6 => {
            proof {
                reveal_strlit("6");
            }
            "6"
        },
        7 => {
            proof {
                reveal_strlit("7");
            }
            "7"
        },
        8 => {
            proof {
                reveal_strlit("8");
            }
            "8"
        },
        _ => {
            proof {
                reveal_strlit("9");
            }
            "9"
        },
    }
}

/// Decimal text of `n`.
pub fn decimal(n: usize) -> (s: String)
    ensures
        s@ == decimal_text(n as nat),
    decreases n,
{
    if n < 10 {
        String::from_str(digit_str(n))
    } else {
        let mut s = decimal(n / 10);
        s.append(digit_str(n % 10));
        s
    }
}

/// Decimal text of `n`, padded on the left with zeros to `width` characters.
pub fn zero_padded_decimal(n: usize, width: usize) -> (s: String)
    ensures
        s@ == zero_padded_decimal_text(n as nat, width as nat),
{
    let digits = decimal(n);
    let len = digits.as_str().unicode_len();
    if len < width {
        let mut s = String::new();
        let mut i: usize = 0;
        while i < width - len
            invariant
                i <= width - len,
                s@ == repeat_char('0', i as nat),
            decreases width - len - i,
        {
            proof {
                reveal_strlit("0");
            }
            assert("0"@ =~= seq!['0']);
            s.append("0");
            assert(s@ =~= repeat_char('0', (i + 1) as nat));
            i = i + 1;
        }
        s.append(digits.as_str());
        s
    } else {
        digits
    }
}

/// Unicode `White_Space`, the characters that `char::is_whitespace` accepts.
pub open spec fn is_white_space(c: char) -> bool {
    let u = c as u32;
    ||| 0x09 <= u <= 0x0D
    ||| u == 0x20
    ||| u == 0x85
    ||| u == 0xA0
    ||| u == 0x1680
    ||| 0x2000 <= u <= 0x200A
    ||| u == 0x2028
    ||| u == 0x2029
    ||| u == 0x202F
    ||| u == 0x205F
    ||| u == 0x3000
}

/// Whether `c` is Unicode white space.
pub fn is_whitespace(c: char) -> (b: bool)
    ensures
        b == is_white_space(c),
{
    let u = c as u32;
    (0x09 <= u && u <= 0x0D) || u == 0x20 || u == 0x85 || u == 0xA0 || u == 0x1680 || (0x2000
        <= u && u <= 0x200A) || u == 0x2028 || u == 0x2029 || u == 0x202F || u == 0x205F || u
        == 0x3000
}

/// `s` without its leading white space.
pub open spec fn trim_start_text(s: Seq<char>) -> Seq<char>
    decreases s.len(),
{
    if s.len() > 0 && is_white_space(s[0]) {
        trim_start_text(s.drop_first())
    } else {
        s
    }
}

/// `s` without its trailing white space.
pub open spec fn trim_end_text(s: Seq<char>) -> Seq<char>
    decreases s.len(),
{
    if s.len() > 0 && is_white_space(s.last()) {
        trim_end_text(s.drop_last())
    } else {
        s
    }
}

/// `s` without leading and trailing white space, as `str::trim` gives it.
pub open spec fn trim_text(s: Seq<char>) -> Seq<char> {
    trim_end_text(trim_start_text(s))
}

/// The characters of `s`.
pub fn chars_of(s: &str) -> (v: Vec<char>)
    ensures
        v@ == s@,
{
    let n = s.unicode_len();
    let mut v: Vec<char> = Vec::with_capacity(n);
    for i in 0..n
        invariant
            n == s@.len(),
            v@ == s@.take(i as int),
    {
        v.push(s.get_char(i));
        assert(v@ =~= s@.take(i + 1));
    }
    assert(s@.take(n as int) =~= s@);
    v
}

/// `s` with leading and trailing white space removed.
pub fn trim(s: &str) -> (t: String)
    ensures
        t@ == trim_text(s@),
{
    let chars = chars_of(s);
    let len = chars.len();
    let mut start: usize = 0;
    assert(s@.skip(0) =~= s@);
    while start < len && is_whitespace(chars[start])
        invariant
            start <= len,
            len == s@.len(),
            chars@ == s@,
            trim_start_text(s@) == trim_start_text(s@.skip(start as int)),
        decreases len - start,
    {
        assert(s@.skip(start as int).drop_first() =~= s@.skip(start + 1));
        start = start + 1;
    }
    assert(trim_start_text(s@) == s@.subrange(start as int, len as int)) by {
        assert(s@.skip(start as int) =~= s@.subrange(start as int, len as int));
    }
    let mut end: usize = len;
    while end > start && is_whitespace(chars[end - 1])
        invariant
            start <= end <= len,
            len == s@.len(),
            chars@ == s@,
            trim_text(s@) == trim_end_text(s@.subrange(start as int, end as int)),
        decreases end,
    {
        assert(s@.subrange(start as int, end as int).drop_last() =~= s@.subrange(
            start as int,
            end - 1,
        ));
        end = end - 1;
    }
    String::from_str(s.substring_char(start, end))
}


/// Why a text is not a decimal `usize`, as `core::num::IntErrorKind` tells it.
#[derive(Debug, Clone, Copy, PartialEq, Eq)]
pub enum IntErrorKind {
    /// The text is empty.
    Empty,
    /// The text holds a character that is not a decimal digit.
    InvalidDigit,
    /// The value does not fit in a `usize`.
    PosOverflow,
}

/// The message `core::num::ParseIntError` shows for each kind.
pub open spec fn int_error_text(kind: IntErrorKind) -> Seq<char> {
    match kind {
        IntErrorKind::Empty => "cannot parse integer from empty string"@,
        IntErrorKind::InvalidDigit => "invalid digit found in string"@,
        IntErrorKind::PosOverflow => "number too large to fit in target type"@,
    }
}

impl IntErrorKind {
    /// The message of this kind of error.
    pub fn description(&self) -> (s: &'static str)
        ensures
            s@ == int_error_text(*self),
    {
        match self {
            IntErrorKind::Empty => "cannot parse integer from empty string",
            IntErrorKind::InvalidDigit => "invalid digit found in string",
            IntErrorKind::PosOverflow => "number too large to fit in target type",
        }
    }
}

/// `c` is one of the ASCII digits `0`..=`9`.
pub open spec fn is_decimal_digit(c: char) -> bool {
    48 <= (c as u32) <= 57
}

/// The value of the ASCII digit `c`.
pub open spec fn digit_value(c: char) -> int {
    (c as u32) - 48
}

/// Reads `s` digit by digit from the left, as `usize::from_str` does after the
/// sign: the first character that is not a digit, or the first digit that
/// takes the value past `usize::MAX`, decides the error.
pub open spec fn scan_digits(s: Seq<char>) -> Result<int, IntErrorKind>
    decreases s.len(),
{
    if s.len() == 0 {
        Ok(0)
    } else {
        match scan_digits(s.drop_last()) {
            Err(e) => Err(e),
            Ok(v) => if !is_decimal_digit(s.last()) {
                Err(IntErrorKind::InvalidDigit)
            } else if 10 * v + digit_value(s.last()) > usize::MAX {
                Err(IntErrorKind::PosOverflow)
            } else {
                Ok(10 * v + digit_value(s.last()))
            },
        }
    }
}

/// What `s.parse::<usize>()` gives: an optional leading `+`, then decimal digits.
pub open spec fn parse_usize_text(s: Seq<char>) -> Result<int, IntErrorKind> {
    if s.len() == 0 {
        Err(IntErrorKind::Empty)
    } else if s.len() == 1 && (s[0] == '+' || s[0] == '-') {
        Err(IntErrorKind::InvalidDigit)
    } else if s[0] == '+' {
        scan_digits(s.drop_first())
    } else {
        scan_digits(s)
    }
}

proof fn lemma_scan_error_persists(s: Seq<char>, i: int)
    requires
        0 <= i <= s.len(),
        scan_digits(s.take(i)) is Err,
    ensures
        scan_digits(s) == scan_digits(s.take(i)),
    decreases s.len(),
{
    if i == s.len() {
        assert(s.take(i) =~= s);
    } else {
        assert(s.drop_last().take(i) =~= s.take(i));
        lemma_scan_error_persists(s.drop_last(), i);
    }
}

/// Parses `s` as a decimal `usize`, with the rules of `str::parse::<usize>`.
pub fn parse_usize(s: &str) -> (r: Result<usize, IntErrorKind>)
    ensures
        match r {
            Ok(v) => parse_usize_text(s@) == Ok::<int, IntErrorKind>(v as int),
            Err(e) => parse_usize_text(s@) == Err::<int, IntErrorKind>(e),
        },
{
    let chars = chars_of(s);
    let len = chars.len();
    if len == 0 {
        return Err(IntErrorKind::Empty);
    }
    if len == 1 && (chars[0] == '+' || chars[0] == '-') {
        return Err(IntErrorKind::InvalidDigit);
    }
    let first: usize = if chars[0] == '+' { 1 } else { 0 };
    let ghost body = s@.skip(first as int);
    assert(first == 1 ==> body =~= s@.drop_first());
    assert(first == 0 ==> body =~= s@);
    let mut value: usize = 0;
    let mut i: usize = first;
    assert(body.take(0) =~= Seq::<char>::empty());
    assert(parse_usize_text(s@) == scan_digits(body));
    while i < len
        invariant
            parse_usize_text(s@) == scan_digits(body),
            first <= i <= len,
            len == s@.len(),
            chars@ == s@,
            body == s@.skip(first as int),
            scan_digits(body.take(i - first)) == Ok::<int, IntErrorKind>(value as int),
        decreases len - i,
    {
        let c = chars[i];
        let ghost prefix = body.take(i + 1 - first);
        assert(prefix.drop_last() =~= body.take(i - first));
        assert(prefix.last() == c);
        let code = c as u32;
        if code < 48 || code > 57 {
            proof {
                lemma_scan_error_persists(body, i + 1 - first);
            }
            return Err(IntErrorKind::InvalidDigit);
        }
        let d = (code - 48) as usize;
        if value > (usize::MAX - d) / 10 {
            assert(10 * value + d > usize::MAX) by (nonlinear_arith)
                requires
                    value > (usize::MAX - d) / 10,
                    d <= 9,
            ;
            proof {
                lemma_scan_error_persists(body, i + 1 - first);
            }
            return Err(IntErrorKind::PosOverflow);
        }
        assert(10 * value + d <= usize::MAX) by (nonlinear_arith)
            requires
                value <= (usize::MAX - d) / 10,
                d <= 9,
        ;
        value = value * 10 + d;
        i = i + 1;
    }
    assert(body.take(len - first) =~= body);
    Ok(value)
}

/// `needle` occurs in `haystack` as a contiguous run of characters.
pub open spec fn contains_text(haystack: Seq<char>, needle: Seq<char>) -> bool {
    exists|i: int|
        0 <= i && i + needle.len() <= haystack.len() && #[trigger] haystack.subrange(
            i,
            i + needle.len(),
        ) == needle
}

fn matches_at(haystack: &Vec<char>, needle: &Vec<char>, at: usize) -> (b: bool)
    requires
        at + needle.len() <= haystack.len(),
    ensures
        b == (haystack@.subrange(at as int, at + needle.len()) == needle@),
{
    let mut k: usize = 0;
    while k < needle.len()
        invariant
            k <= needle.len(),
            at + needle.len() <= haystack.len(),
            forall|j: int| 0 <= j < k ==> haystack@[at + j] == needle@[j],
        decreases needle.len() - k,
    {
        if haystack[at + k] != needle[k] {
            assert(haystack@.subrange(at as int, at + needle.len())[k as int] != needle@[k as int]);
            return false;
        }
        k = k + 1;
    }
    assert(haystack@.subrange(at as int, at + needle.len()) =~= needle@);
    true
}

/// Whether `needle` occurs in `haystack`.
pub fn contains(haystack: &Vec<char>, needle: &Vec<char>) -> (b: bool)
    ensures
        b == contains_text(haystack@, needle@),
{
    if needle.len() == 0 {
        assert(haystack@.subrange(0, 0 + needle.len()) =~= needle@);
        return true;
    }
    if needle.len() > haystack.len() {
        return false;
    }
    let last = haystack.len() - needle.len();
    let mut at: usize = 0;
    while at <= last
        invariant
            last == haystack.len() - needle.len(),
            needle.len() >= 1,
            at <= last + 1,
            forall|i: int|
                0 <= i < at ==> #[trigger] haystack@.subrange(i, i + needle.len()) != needle@,
        decreases last + 1 - at,
    {
        if matches_at(haystack, needle, at) {
            return true;
        }
        at = at + 1;
    }
    false
}


/// The text that `String::from_utf8_lossy` makes of `bytes`.
pub uninterp spec fn utf8_lossy_text(bytes: Seq<u8>) -> Seq<char>;

/// ASCII bytes are characters of the same code.
pub open spec fn ascii_text(bytes: Seq<u8>) -> Seq<char> {
    bytes.map_values(|b: u8| b as char)
}

/// Every byte is below 128.
pub open spec fn is_ascii_bytes(bytes: Seq<u8>) -> bool {
    forall|i: int| 0 <= i < bytes.len() ==> #[trigger] bytes[i] < 128
}

/// Decodes `bytes` as UTF-8, replacing each invalid sequence by U+FFFD.
///
/// Calls `String::from_utf8_lossy`. Its result is named `utf8_lossy_text`; the
/// only fact stated of it is the one its documentation gives for valid input of
/// the simplest kind: ASCII bytes decode to the characters of the same codes.
#[verifier::external_body]
pub(crate) fn decode_lossy(bytes: &[u8]) -> (s: String)
    ensures
        s@ == utf8_lossy_text(bytes@),
        is_ascii_bytes(bytes@) ==> s@ == ascii_text(bytes@),
{
    String::from_utf8_lossy(bytes).into_owned()
}

/// Decimal text is a non-empty run of ASCII digits.
pub proof fn lemma_decimal_text_digits(n: nat)
    ensures
        decimal_text(n).len() >= 1,
        forall|i: int| 0 <= i < decimal_text(n).len() ==> is_decimal_digit(#[trigger] decimal_text(n)[i]),
    decreases n,
{
    if n >= 10 {
        lemma_decimal_text_digits(n / 10);
        let d = (n % 10) as int;
        assert(is_decimal_digit(digit_char(d)));
        assert forall|i: int| 0 <= i < decimal_text(n).len() implies is_decimal_digit(
            #[trigger] decimal_text(n)[i],
        ) by {
            if i < decimal_text(n / 10).len() {
                assert(decimal_text(n)[i] == decimal_text(n / 10)[i]);
            }
        }
    } else {
        assert(is_decimal_digit(digit_char(n as int)));
    }
}

proof fn lemma_scan_decimal_text(n: nat)
    requires
        n <= usize::MAX,
    ensures
        scan_digits(decimal_text(n)) == Ok::<int, IntErrorKind>(n as int),
    decreases n,
{
    let s = decimal_text(n);
    if n < 10 {
        assert(s.drop_last() =~= Seq::<char>::empty());
        assert(scan_digits(s.drop_last()) == Ok::<int, IntErrorKind>(0));
        assert(s.last() == digit_char(n as int));
        assert(is_decimal_digit(s.last()));
        assert(digit_value(digit_char(n as int)) == n);
    } else {
        lemma_scan_decimal_text(n / 10);
        assert(s.drop_last() =~= decimal_text(n / 10));
        assert(s.last() == digit_char((n % 10) as int));
        assert(is_decimal_digit(s.last()));
        assert(digit_value(digit_char((n % 10) as int)) == n % 10);
        assert(10 * (n / 10) + n % 10 == n);
    }
}

/// Decimal text reads back as the number it was written from, also with the
/// trailing newline a program prints after it: `parse(trim(decimal(n))) == n`.
pub proof fn lemma_decimal_parses_back(n: nat)
    requires
        n <= usize::MAX,
    ensures
        parse_usize_text(decimal_text(n)) == Ok::<int, IntErrorKind>(n as int),
        trim_text(decimal_text(n) + seq!['\n']) == decimal_text(n),
        parse_usize_text(trim_text(decimal_text(n) + seq!['\n'])) == Ok::<int, IntErrorKind>(
            n as int,
        ),
{
    let s = decimal_text(n);
    lemma_decimal_text_digits(n);
    lemma_scan_decimal_text(n);
    assert(is_decimal_digit(s[0]));
    let t = s + seq!['\n'];
    assert(!is_white_space(t[0]));
    assert(trim_start_text(t) == t);
    assert(t.drop_last() =~= s);
    assert(is_white_space(t.last()));
    assert(!is_white_space(s.last()));
    assert(trim_end_text(t) == trim_end_text(s));
    assert(trim_end_text(s) == s);
}

proof fn lemma_trim_start_index(s: Seq<char>) -> (a: int)
    ensures
        0 <= a <= s.len(),
        trim_start_text(s) == s.subrange(a, s.len() as int),
        forall|i: int| 0 <= i < a ==> is_white_space(#[trigger] s[i]),
        a < s.len() ==> !is_white_space(s[a]),
    decreases s.len(),
{
    if s.len() > 0 && is_white_space(s[0]) {
        let a1 = lemma_trim_start_index(s.drop_first());
        assert(s.drop_first().subrange(a1, s.len() - 1) =~= s.subrange(a1 + 1, s.len() as int));
        assert forall|i: int| 0 <= i < a1 + 1 implies is_white_space(#[trigger] s[i]) by {
            if i > 0 {
                assert(s[i] == s.drop_first()[i - 1]);
            }
        }
        a1 + 1
    } else {
        assert(s.subrange(0, s.len() as int) =~= s);
        0
    }
}

proof fn lemma_trim_end_index(s: Seq<char>) -> (b: int)
    ensures
        0 <= b <= s.len(),
        trim_end_text(s) == s.subrange(0, b),
        forall|i: int| b <= i < s.len() ==> is_white_space(#[trigger] s[i]),
        b > 0 ==> !is_white_space(s[b - 1]),
    decreases s.len(),
{
    if s.len() > 0 && is_white_space(s.last()) {
        let b1 = lemma_trim_end_index(s.drop_last());
        assert(s.drop_last().subrange(0, b1) =~= s.subrange(0, b1));
        assert forall|i: int| b1 <= i < s.len() implies is_white_space(#[trigger] s[i]) by {
            if i < s.len() - 1 {
                assert(s[i] == s.drop_last()[i]);
            }
        }
        b1
    } else {
        assert(s.subrange(0, s.len() as int) =~= s);
        s.len() as int
    }
}

/// Trimming removes white space from both ends and nothing else: the result
/// is the part of `s` between a run of leading and a run of trailing white
/// space, and, when not empty, starts and ends with a character that is not
/// white space.
pub proof fn lemma_trim_strips_white_space(s: Seq<char>)
    ensures
        exists|a: int, b: int|
            #![trigger s.subrange(a, b)]
            0 <= a <= b <= s.len() && trim_text(s) == s.subrange(a, b) && (forall|i: int|
                0 <= i < a ==> is_white_space(#[trigger] s[i])) && (forall|i: int|
                b <= i < s.len() ==> is_white_space(#[trigger] s[i])) && (a < b ==> !is_white_space(
                s[a],
            ) && !is_white_space(s[b - 1])),
{
    let a = lemma_trim_start_index(s);
    let t = s.subrange(a, s.len() as int);
    let c = lemma_trim_end_index(t);
    let b = a + c;
    assert(t.subrange(0, c) =~= s.subrange(a, b));
    assert forall|i: int| b <= i < s.len() implies is_white_space(#[trigger] s[i]) by {
        assert(s[i] == t[i - a]);
    }
    if a < b {
        assert(s[a] == t[0]);
        assert(s[b - 1] == t[c - 1]);
        if c == t.len() {
        }
    }
}

proof fn lemma_scan_after_zeros(z: nat, t: Seq<char>)
    requires
        scan_digits(t) is Ok,
    ensures
        scan_digits(repeat_char('0', z) + t) == scan_digits(t),
    decreases t.len(),
{
    let zs = repeat_char('0', z);
    if t.len() == 0 {
        assert(zs + t =~= zs);
        lemma_scan_zeros(z);
    } else {
        let u = zs + t;
        assert(u.drop_last() =~= zs + t.drop_last());
        assert(u.last() == t.last());
        assert(scan_digits(t.drop_last()) is Ok);
        lemma_scan_after_zeros(z, t.drop_last());
    }
}

proof fn lemma_scan_zeros(z: nat)
    ensures
        scan_digits(repeat_char('0', z)) == Ok::<int, IntErrorKind>(0),
    decreases z,
{
    if z > 0 {
        assert(repeat_char('0', z).drop_last() =~= repeat_char('0', (z - 1) as nat));
        lemma_scan_zeros((z - 1) as nat);
        assert(repeat_char('0', z).last() == '0');
    }
}

/// Zero-padded decimal text is at least `width` characters long, keeps all the
/// digits of `n`, and reads back as `n`.
pub proof fn lemma_zero_padded_decimal_reads_back(n: nat, width: nat)
    requires
        n <= usize::MAX,
    ensures
        zero_padded_decimal_text(n, width).len() >= width,
        zero_padded_decimal_text(n, width).len() >= decimal_text(n).len(),
        parse_usize_text(zero_padded_decimal_text(n, width)) == Ok::<int, IntErrorKind>(n as int),
{
    lemma_decimal_text_digits(n);
    lemma_scan_decimal_text(n);
    let d = decimal_text(n);
    let p = zero_padded_decimal_text(n, width);
    if d.len() < width {
        let z = (width - d.len()) as nat;
        lemma_scan_after_zeros(z, d);
        assert(p[0] == '0');
        assert(p.len() >= 2);
    } else {
        assert(is_decimal_digit(d[0]));
    }
}

} // verus!
