use vstd::prelude::*;
use vstd::std_specs::iter::IteratorSpec;
use vstd::string::StringExecFns;

verus! {

/// Whether two strings hold the same characters.
pub fn str_equal(a: &str, b: &str) -> (r: bool)
    ensures
        r == (a@ == b@),
{
    let x = a.as_bytes();
    let y = b.as_bytes();
    proof {
        vstd::utf8::encode_utf8_decode_utf8(a@);
        vstd::utf8::encode_utf8_decode_utf8(b@);
    }
    assert(a@ == b@ ==> x@ == y@);
    if x.len() != y.len() {
        return false;
    }
    let mut i: usize = 0;
    while i < x.len()
        invariant
            x.len() == y.len(),
            a@ == b@ ==> x@ == y@,
            i <= x.len(),
            forall|j: int| 0 <= j < i ==> x@[j] == y@[j],
        decreases x.len() - i,
    {
        if x[i] != y[i] {
            assert(x@[i as int] != y@[i as int]);
            return false;
        }
        i = i + 1;
    }
    assert(x@ =~= y@);
    true
}

/// The characters of `text`, in order.
pub fn chars_of(text: &str) -> (v: Vec<char>)
    ensures
        v@ == text@,
{
    let mut it = text.chars();
    let mut v: Vec<char> = Vec::new();
    loop
        invariant
            text@ == v@ + it.remaining(),
            it.obeys_prophetic_iter_laws(),
            it.decrease() is Some,
        decreases it.decrease()->0,
    {
        match it.next() {
            Some(c) => {
                v.push(c);
            },
            None => {
                assert(v@ =~= text@);
                return v;
            },
        }
    }
}

/// Unicode's White_Space property, as `char::is_whitespace` documents it.
pub open spec fn is_unicode_whitespace(c: char) -> bool {
    let u = c as u32;
    (0x09 <= u <= 0x0d) || u == 0x20 || u == 0x85 || u == 0xa0 || u == 0x1680 || (0x2000 <= u
        <= 0x200a) || u == 0x2028 || u == 0x2029 || u == 0x202f || u == 0x205f || u == 0x3000
}

pub fn is_whitespace(c: char) -> (r: bool)
    ensures
        r == is_unicode_whitespace(c),
{
    let u = c as u32;
    (0x09 <= u && u <= 0x0d) || u == 0x20 || u == 0x85 || u == 0xa0 || u == 0x1680 || (0x2000 <= u
        && u <= 0x200a) || u == 0x2028 || u == 0x2029 || u == 0x202f || u == 0x205f || u == 0x3000
}

pub open spec fn is_ascii_digit(c: char) -> bool {
    '0' <= c <= '9'
}

/// Decimal value of a string of ASCII digits.
pub open spec fn digits_value(s: Seq<char>) -> int
    decreases s.len(),
{
    if s.len() == 0 {
        0
    } else {
        digits_value(s.drop_last()) * 10 + (s.last() as int - '0' as int)
    }
}

/// The value of a non-empty string of ASCII digits that fits in a `u32`.
pub open spec fn parse_digits_body(body: Seq<char>) -> Option<u32> {
    if body.len() > 0 && (forall|i: int| 0 <= i < body.len() ==> is_ascii_digit(#[trigger] body[i]))
        && digits_value(body) <= u32::MAX {
        Some(digits_value(body) as u32)
    } else {
        None
    }
}

/// What `str::parse::<u32>` gives: an optional `+`, then one or more ASCII
/// digits whose value fits in a `u32`.
pub open spec fn spec_parse_u32(s: Seq<char>) -> Option<u32> {
    if s.len() > 0 && s[0] == '+' {
        parse_digits_body(s.subrange(1, s.len() as int))
    } else {
        parse_digits_body(s)
    }
}

proof fn lemma_digits_value_grows(s: Seq<char>, k: int)
    requires
        0 <= k <= s.len(),
        forall|i: int| 0 <= i < s.len() ==> is_ascii_digit(#[trigger] s[i]),
    ensures
        digits_value(s.take(k)) <= digits_value(s),
        0 <= digits_value(s.take(k)),
    decreases s.len(),
{
    if k == s.len() {
        assert(s.take(k) =~= s);
        lemma_digits_value_nonneg(s);
    } else {
        let t = s.drop_last();
        assert(s.take(k) =~= t.take(k));
        lemma_digits_value_grows(t, k);
        lemma_digits_value_nonneg(t);
    }
}

proof fn lemma_digits_value_nonneg(s: Seq<char>)
    requires
        forall|i: int| 0 <= i < s.len() ==> is_ascii_digit(#[trigger] s[i]),
    ensures
        0 <= digits_value(s),
    decreases s.len(),
{
    if s.len() > 0 {
        lemma_digits_value_nonneg(s.drop_last());
    }
}

/// `str::parse::<u32>` of the characters `chars[start..end]`.
pub fn parse_u32_chars(chars: &Vec<char>, start: usize, end: usize) -> (r: Option<u32>)
    requires
        start <= end <= chars.len(),
    ensures
        r == spec_parse_u32(chars@.subrange(start as int, end as int)),
{
    let ghost s = chars@.subrange(start as int, end as int);
    let mut i = start;
    if i < end && chars[i] == '+' {
        i = i + 1;
    }
    let ghost body = chars@.subrange(i as int, end as int);
    assert(body =~= (if s.len() > 0 && s[0] == '+' {
        s.subrange(1, s.len() as int)
    } else {
        s
    }));
    if i == end {
        return None;
    }
    let first = i;
    let mut value: u32 = 0;
    while i < end
        invariant
            first <= i <= end <= chars.len(),
            first < end,
            body == chars@.subrange(first as int, end as int),
            s == chars@.subrange(start as int, end as int),
            body == (if s.len() > 0 && s[0] == '+' {
                s.subrange(1, s.len() as int)
            } else {
                s
            }),
            forall|j: int| 0 <= j < i - first ==> is_ascii_digit(#[trigger] body[j]),
            value == digits_value(body.take(i - first)),
        decreases end - i,
    {
        let c = chars[i];
        assert(body[i - first] == c);
        if !('0' <= c && c <= '9') {
            assert(!is_ascii_digit(body[i - first]));
            assert(!(forall|j: int| 0 <= j < body.len() ==> is_ascii_digit(#[trigger] body[j])));
            assert(spec_parse_u32(s) == parse_digits_body(body));
            assert(parse_digits_body(body) is None);
            return None;
        }
        let d = (c as u32) - ('0' as u32);
        assert(body.take(i - first + 1).drop_last() =~= body.take(i - first));
        if value > (u32::MAX - d) / 10 {
            proof {
                assert(value * 10 + d > u32::MAX) by (nonlinear_arith)
                    requires
                        value > (u32::MAX - d) / 10,
                        d <= 9,
                ;
                assert(digits_value(body.take(i - first + 1)) == value * 10 + d);
                if forall|j: int| 0 <= j < body.len() ==> is_ascii_digit(#[trigger] body[j]) {
                    lemma_digits_value_grows(body, i - first + 1);
                }
            }
            return None;
        }
        value = value * 10 + d;
        i = i + 1;
    }
    assert(body.take(i - first) =~= body);
    Some(value)
}

/// What `str::parse::<i32>` gives: an optional sign, then one or more ASCII
/// digits whose signed value fits in an `i32`.
pub open spec fn spec_parse_i32(s: Seq<char>) -> Option<i32> {
    if s.len() > 0 && s[0] == '-' {
        let body = s.subrange(1, s.len() as int);
        if body.len() > 0 && (forall|i: int| 0 <= i < body.len() ==> is_ascii_digit(#[trigger] body[i]))
            && digits_value(body) <= 0x8000_0000 {
            Some((-digits_value(body)) as i32)
        } else {
            None
        }
    } else {
        match spec_parse_u32(s) {
            Some(v) => if v <= i32::MAX {
                Some(v as i32)
            } else {
                None
            },
            None => None,
        }
    }
}

/// `str::parse::<u32>` of a string.
pub fn parse_u32(text: &str) -> (r: Option<u32>)
    ensures
        r == spec_parse_u32(text@),
{
    let chars = chars_of(text);
    let r = parse_u32_chars(&chars, 0, chars.len());
    assert(chars@.subrange(0, chars@.len() as int) =~= text@);
    r
}

/// `str::parse::<i32>` of a string.
pub fn parse_i32(text: &str) -> (r: Option<i32>)
    ensures
        r == spec_parse_i32(text@),
{
    let chars = chars_of(text);
    assert(chars@.subrange(0, chars@.len() as int) =~= text@);
    if chars.len() > 0 && chars[0] == '-' {
        let ghost body = text@.subrange(1, text@.len() as int);
        assert(chars@.subrange(1, chars@.len() as int) =~= body);
        if chars.len() > 1 && chars[1] == '+' {
            assert(!is_ascii_digit(body[0]));
            return None;
        }
        assert(body.len() > 0 ==> body[0] != '+');
        match parse_u32_chars(&chars, 1, chars.len()) {
            Some(v) => {
                assert(spec_parse_u32(body) == parse_digits_body(body));
                proof {
                    lemma_digits_value_nonneg(body);
                }
                if v <= 0x8000_0000 {
                    let r: i64 = -(v as i64);
                    Some(r as i32)
                } else {
                    None
                }
            },
            None => {
                assert(spec_parse_u32(body) == parse_digits_body(body));
                None
            },
        }
    } else {
        match parse_u32_chars(&chars, 0, chars.len()) {
            Some(v) => if v <= 0x7fff_ffff {
                Some(v as i32)
            } else {
                None
            },
            None => None,
        }
    }
}

/// An ASCII letter in lower case; other characters unchanged.
pub open spec fn ascii_lower(c: char) -> char {
    if 'A' <= c <= 'Z' {
        ((c as u32) + 32) as char
    } else {
        c
    }
}

/// `t` is `word` (lower-case ASCII) but for the case of its ASCII letters.
pub open spec fn equals_ignoring_case(t: Seq<char>, word: Seq<char>) -> bool {
    t.len() == word.len() && forall|i: int| 0 <= i < t.len() ==> ascii_lower(#[trigger] t[i]) == word[i]
}

/// Digits with at most one `.` among them, and at least one digit.
pub open spec fn is_mantissa(m: Seq<char>) -> bool {
    &&& forall|i: int| 0 <= i < m.len() ==> is_ascii_digit(#[trigger] m[i]) || m[i] == '.'
    &&& forall|i: int, j: int| 0 <= i < j < m.len() ==> !(#[trigger] m[i] == '.' && #[trigger] m[j] == '.')
    &&& exists|i: int| 0 <= i < m.len() && is_ascii_digit(#[trigger] m[i])
}

pub open spec fn is_exponent_mark(c: char) -> bool {
    c == 'e' || c == 'E'
}

/// `s` without one leading sign.
pub open spec fn unsigned_part(s: Seq<char>) -> Seq<char> {
    if s.len() > 0 && (s[0] == '+' || s[0] == '-') {
        s.subrange(1, s.len() as int)
    } else {
        s
    }
}

pub open spec fn all_digits(s: Seq<char>) -> bool {
    s.len() > 0 && forall|i: int| 0 <= i < s.len() ==> is_ascii_digit(#[trigger] s[i])
}

/// An optional sign, then one or more digits.
pub open spec fn is_exponent(x: Seq<char>) -> bool {
    all_digits(unsigned_part(x))
}

/// A mantissa, then optionally an exponent mark and an exponent.
pub open spec fn is_number_body(t: Seq<char>) -> bool {
    ||| is_mantissa(t)
    ||| exists|k: int|
        0 <= k < t.len() && is_exponent_mark(#[trigger] t[k]) && is_mantissa(t.take(k))
            && is_exponent(t.skip(k + 1))
}

/// The texts that `str::parse` accepts for a binary floating-point number, as
/// its documentation gives their grammar: an optional sign, then `inf`,
/// `infinity`, `nan` (in any case) or a decimal number with an optional
/// exponent.
pub open spec fn spec_is_number_text(s: Seq<char>) -> bool {
    let t = unsigned_part(s);
    equals_ignoring_case(t, "inf"@) || equals_ignoring_case(t, "infinity"@)
        || equals_ignoring_case(t, "nan"@) || is_number_body(t)
}

proof fn lemma_number_body_without_mark(b: Seq<char>)
    requires
        forall|j: int| 0 <= j < b.len() ==> !is_exponent_mark(#[trigger] b[j]),
    ensures
        is_number_body(b) == is_mantissa(b),
{
    if exists|k: int|
        0 <= k < b.len() && is_exponent_mark(#[trigger] b[k]) && is_mantissa(b.take(k))
            && is_exponent(b.skip(k + 1)) {
        let k = choose|k: int|
            0 <= k < b.len() && is_exponent_mark(#[trigger] b[k]) && is_mantissa(b.take(k))
                && is_exponent(b.skip(k + 1));
        assert(!is_exponent_mark(b[k]));
    }
}

proof fn lemma_number_body_at_mark(b: Seq<char>, m: int)
    requires
        0 <= m < b.len(),
        is_exponent_mark(b[m]),
        forall|j: int| 0 <= j < m ==> !is_exponent_mark(#[trigger] b[j]),
    ensures
        is_number_body(b) == (is_mantissa(b.take(m)) && is_exponent(b.skip(m + 1))),
{
    assert(!(is_ascii_digit(b[m]) || b[m] == '.'));
    assert(!is_mantissa(b));
    if exists|k: int|
        0 <= k < b.len() && is_exponent_mark(#[trigger] b[k]) && is_mantissa(b.take(k))
            && is_exponent(b.skip(k + 1)) {
        let k = choose|k: int|
            0 <= k < b.len() && is_exponent_mark(#[trigger] b[k]) && is_mantissa(b.take(k))
                && is_exponent(b.skip(k + 1));
        if k < m {
            assert(!is_exponent_mark(b[k]));
        } else if k > m {
            assert(b.take(k)[m] == b[m]);
            assert(!(is_ascii_digit(b.take(k)[m]) || b.take(k)[m] == '.'));
        }
    }
    if is_mantissa(b.take(m)) && is_exponent(b.skip(m + 1)) {
        assert(is_exponent_mark(b[m]));
    }
}

fn lower_char(c: char) -> (r: char)
    ensures
        r == ascii_lower(c),
{
    if 'A' <= c && c <= 'Z' {
        let u = (c as u32) + 32;
        assert(0x61 <= u <= 0x7a);
        proof {
            lemma_ascii_char(u);
        }
        char_of_ascii(u)
    } else {
        c
    }
}

proof fn lemma_ascii_char(u: u32)
    requires
        u < 0x80,
    ensures
        (u as char) as u32 == u,
{
}

fn char_of_ascii(u: u32) -> (c: char)
    requires
        u < 0x80,
    ensures
        c == u as char,
{
    let b: u8 = u as u8;
    b as char
}

fn equals_ignoring_case_exec(t: &Vec<char>, start: usize, word: &str) -> (r: bool)
    requires
        start <= t@.len(),
    ensures
        r == equals_ignoring_case(t@.subrange(start as int, t@.len() as int), word@),
{
    let w = chars_of(word);
    let ghost sub = t@.subrange(start as int, t@.len() as int);
    if t.len() - start != w.len() {
        return false;
    }
    let mut k: usize = start;
    while k < t.len()
        invariant
            start <= k <= t@.len(),
            w@ == word@,
            sub == t@.subrange(start as int, t@.len() as int),
            sub.len() == w@.len(),
            forall|j: int| 0 <= j < k - start ==> ascii_lower(#[trigger] sub[j]) == w@[j],
        decreases t.len() - k,
    {
        assert(sub[k - start] == t@[k as int]);
        if lower_char(t[k]) != w[k - start] {
            return false;
        }
        k = k + 1;
    }
    true
}

fn mantissa_check(t: &Vec<char>, start: usize, end: usize) -> (r: bool)
    requires
        start <= end <= t@.len(),
    ensures
        r == is_mantissa(t@.subrange(start as int, end as int)),
{
    let ghost m = t@.subrange(start as int, end as int);
    let mut i: usize = start;
    let mut dot: bool = false;
    let mut digit: bool = false;
    while i < end
        invariant
            start <= i <= end <= t@.len(),
            m == t@.subrange(start as int, end as int),
            forall|j: int| 0 <= j < i - start ==> is_ascii_digit(#[trigger] m[j]) || m[j] == '.',
            dot <==> exists|j: int| 0 <= j < i - start && #[trigger] m[j] == '.',
            forall|a: int, b: int| 0 <= a < b < i - start ==> !(#[trigger] m[a] == '.' && #[trigger] m[b] == '.'),
            digit <==> exists|j: int| 0 <= j < i - start && is_ascii_digit(#[trigger] m[j]),
        decreases end - i,
    {
        let c = t[i];
        assert(m[i - start] == c);
        if c == '.' {
            if dot {
                let ghost a = choose|j: int| 0 <= j < i - start && #[trigger] m[j] == '.';
                assert(m[a] == '.' && m[i - start] == '.');
                return false;
            }
            dot = true;
        } else if '0' <= c && c <= '9' {
            digit = true;
        } else {
            assert(!(is_ascii_digit(m[i - start]) || m[i - start] == '.'));
            return false;
        }
        i = i + 1;
    }
    digit
}

fn exponent_check(t: &Vec<char>, start: usize) -> (r: bool)
    requires
        start <= t@.len(),
    ensures
        r == is_exponent(t@.subrange(start as int, t@.len() as int)),
{
    let ghost x = t@.subrange(start as int, t@.len() as int);
    let mut i = start;
    if i < t.len() && (t[i] == '+' || t[i] == '-') {
        i = i + 1;
    }
    let ghost body = t@.subrange(i as int, t@.len() as int);
    assert(body =~= unsigned_part(x));
    if i == t.len() {
        return false;
    }
    let first = i;
    while i < t.len()
        invariant
            first <= i <= t@.len(),
            start <= t@.len(),
            body == t@.subrange(first as int, t@.len() as int),
            body == unsigned_part(t@.subrange(start as int, t@.len() as int)),
            forall|j: int| 0 <= j < i - first ==> is_ascii_digit(#[trigger] body[j]),
        decreases t.len() - i,
    {
        assert(body[i - first] == t@[i as int]);
        if !('0' <= t[i] && t[i] <= '9') {
            assert(!is_ascii_digit(body[i - first]));
            return false;
        }
        i = i + 1;
    }
    true
}

/// Whether `str::parse` accepts a text as a binary floating-point number
/// (see [`spec_is_number_text`]).
pub fn is_number_text(text: &str) -> (r: bool)
    ensures
        r == spec_is_number_text(text@),
{
    let t = chars_of(text);
    let start: usize = if t.len() > 0 && (t[0] == '+' || t[0] == '-') {
        1
    } else {
        0
    };
    let ghost body = t@.subrange(start as int, t@.len() as int);
    assert(body =~= unsigned_part(text@));
    if equals_ignoring_case_exec(&t, start, "inf") || equals_ignoring_case_exec(&t, start, "infinity")
        || equals_ignoring_case_exec(&t, start, "nan") {
        return true;
    }
    let mut k = start;
    while k < t.len() && t[k] != 'e' && t[k] != 'E'
        invariant
            start <= k <= t@.len(),
            body == t@.subrange(start as int, t@.len() as int),
            forall|j: int| 0 <= j < k - start ==> !is_exponent_mark(#[trigger] body[j]),
        decreases t.len() - k,
    {
        assert(body[k - start] == t@[k as int]);
        k = k + 1;
    }
    if k == t.len() {
        proof {
            lemma_number_body_without_mark(body);
        }
        mantissa_check(&t, start, t.len())
    } else {
        let km = k - start;
        assert(body[km as int] == t@[k as int]);
        proof {
            lemma_number_body_at_mark(body, km as int);
        }
        assert(t@.subrange(start as int, k as int) =~= body.take(km as int));
        assert(t@.subrange(k + 1, t@.len() as int) =~= body.skip(km + 1));
        let m = mantissa_check(&t, start, k);
        let x = exponent_check(&t, k + 1);
        m && x
    }
}

/// `prefix`, `middle` and `suffix` joined into one string.
pub fn concat3(prefix: &str, middle: &str, suffix: &str) -> (r: String)
    ensures
        r@ == prefix@ + middle@ + suffix@,
{
    let mut s = String::from_str(prefix);
    s.append(middle);
    s.append(suffix);
    s
}

/// The ASCII digit for `d` in `0..10`.
pub open spec fn digit_char(d: int) -> char {
    (48 + d) as char
}

/// The decimal digits of `n`, most significant first, with no leading zero.
pub open spec fn decimal(n: nat) -> Seq<char>
    decreases n,
{
    if n < 10 {
        seq![digit_char(n as int)]
    } else {
        decimal(n / 10).push(digit_char((n % 10) as int))
    }
}

fn digit_str(d: u64) -> (r: &'static str)
    requires
        d < 10,
    ensures
        r@ == seq![digit_char(d as int)],
{
    proof {
        reveal_strlit("0");
        reveal_strlit("1");
        reveal_strlit("2");
        reveal_strlit("3");
        reveal_strlit("4");
        reveal_strlit("5");
        reveal_strlit("6");
        reveal_strlit("7");
        reveal_strlit("8");
        reveal_strlit("9");
    }
    let r = if d == 0 {
        "0"
    } else if d == 1 {
        "1"
    } else if d == 2 {
        "2"
    } else if d == 3 {
        "3"
    } else if d == 4 {
        "4"
    } else if d == 5 {
        "5"
    } else if d == 6 {
        "6"
    } else if d == 7 {
        "7"
    } else if d == 8 {
        "8"
    } else {
        "9"
    };
    assert(r@ =~= seq![digit_char(d as int)]);
    r
}

/// `n` written in decimal, as `Display` writes an unsigned integer.
pub fn decimal_string(n: u64) -> (r: String)
    ensures
        r@ == decimal(n as nat),
    decreases n,
{
    if n < 10 {
        String::from_str(digit_str(n))
    } else {
        let mut s = decimal_string(n / 10);
        s.append(digit_str(n % 10));
        s
    }
}

} // verus!
