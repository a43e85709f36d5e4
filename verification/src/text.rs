//! Character-level text helpers shared by the whole library.
//!
//! Text is processed as `Vec<char>`; its view is the `Seq<char>` that the
//! contracts speak of, and `String` values are built from it at the edges.
use vstd::prelude::*;

verus! {

/// The characters of `s`, in order.
pub fn chars_of(s: &str) -> (r: Vec<char>)
    ensures
        r@ == s@,
{
    let mut r: Vec<char> = Vec::new();
    for c in it: s.chars()
        invariant
            it.seq() == s@,
            r@ == s@.take(it.index() as int),
    {
        r.push(c);
    }
    assert(r@ =~= s@);
    r
}

/// `String::push`: appends the character to the string.
#[verifier::external_body]
fn push_char(s: &mut String, c: char)
    ensures
        final(s)@ == old(s)@.push(c),
{
    s.push(c);
}

/// A `String` holding exactly these characters, in order.
pub fn string_from_chars(chars: &[char]) -> (r: String)
    ensures
        r@ == chars@,
{
    let mut r = String::new();
    let mut k: usize = 0;
    while k < chars.len()
        invariant
            k <= chars@.len(),
            r@ == chars@.take(k as int),
        decreases chars@.len() - k,
    {
        push_char(&mut r, chars[k]);
        assert(chars@.take(k + 1) =~= chars@.take(k as int).push(chars@[k as int]));
        k = k + 1;
    }
    assert(chars@.take(k as int) =~= chars@);
    r
}

/// Unicode `White_Space`, the property that `char::is_whitespace` and
/// `str::trim` go by.
pub open spec fn is_white_space(c: char) -> bool {
    ||| ('\u{9}' <= c && c <= '\u{d}')
    ||| c == ' '
    ||| c == '\u{85}'
    ||| c == '\u{a0}'
    ||| c == '\u{1680}'
    ||| ('\u{2000}' <= c && c <= '\u{200a}')
    ||| c == '\u{2028}'
    ||| c == '\u{2029}'
    ||| c == '\u{202f}'
    ||| c == '\u{205f}'
    ||| c == '\u{3000}'
}

pub fn is_whitespace(c: char) -> (r: bool)
    ensures
        r == is_white_space(c),
{
    ('\u{9}' <= c && c <= '\u{d}') || c == ' ' || c == '\u{85}' || c == '\u{a0}' || c == '\u{1680}'
        || ('\u{2000}' <= c && c <= '\u{200a}') || c == '\u{2028}' || c == '\u{2029}' || c
        == '\u{202f}' || c == '\u{205f}' || c == '\u{3000}'
}

/// `s` without its leading white space.
pub open spec fn trim_start(s: Seq<char>) -> Seq<char>
    decreases s.len(),
{
    if s.len() > 0 && is_white_space(s[0]) {
        trim_start(s.drop_first())
    } else {
        s
    }
}

/// `s` without its trailing white space.
pub open spec fn trim_end(s: Seq<char>) -> Seq<char>
    decreases s.len(),
{
    if s.len() > 0 && is_white_space(s.last()) {
        trim_end(s.drop_last())
    } else {
        s
    }
}

/// `s` without leading and trailing white space (`str::trim`).
pub open spec fn trimmed(s: Seq<char>) -> Seq<char> {
    trim_end(trim_start(s))
}

/// Removes leading and trailing white space.
pub fn trim(s: &[char]) -> (r: Vec<char>)
    ensures
        r@ == trimmed(s@),
{
    let n = s.len();
    let mut i: usize = 0;
    assert(s@.skip(0) =~= s@);
    while i < n && is_whitespace(s[i])
        invariant
            i <= n,
            n == s@.len(),
            trim_start(s@) == trim_start(s@.skip(i as int)),
        decreases n - i,
    {
        assert(s@.skip(i as int).drop_first() =~= s@.skip(i + 1));
        i = i + 1;
    }
    let ghost rest = s@.skip(i as int);
    assert(trim_start(s@) == rest);
    let mut j: usize = n;
    assert(s@.subrange(i as int, n as int) =~= rest);
    while j > i && is_whitespace(s[j - 1])
        invariant
            i <= j <= n,
            n == s@.len(),
            rest == s@.skip(i as int),
            trim_end(rest) == trim_end(s@.subrange(i as int, j as int)),
        decreases j,
    {
        assert(s@.subrange(i as int, j as int).drop_last() =~= s@.subrange(i as int, j - 1));
        j = j - 1;
    }
    let r = slice_range(s, i, j);
    r
}

/// A copy of `s[from..to]`.
pub fn slice_range<T: Copy>(s: &[T], from: usize, to: usize) -> (r: Vec<T>)
    requires
        from <= to <= s@.len(),
    ensures
        r@ == s@.subrange(from as int, to as int),
{
    let mut r: Vec<T> = Vec::new();
    let mut k = from;
    while k < to
        invariant
            from <= k <= to,
            to <= s@.len(),
            r@ == s@.subrange(from as int, k as int),
        decreases to - k,
    {
        r.push(s[k]);
        assert(r@ =~= s@.subrange(from as int, k + 1));
        k = k + 1;
    }
    r
}

/// Appends all of `tail` to `v`.
pub fn extend_chars(v: &mut Vec<char>, tail: &[char])
    ensures
        final(v)@ == old(v)@ + tail@,
{
    let ghost start = v@;
    let mut k: usize = 0;
    while k < tail.len()
        invariant
            k <= tail@.len(),
            v@ == start + tail@.take(k as int),
        decreases tail@.len() - k,
    {
        v.push(tail[k]);
        assert(tail@.take(k + 1) =~= tail@.take(k as int).push(tail@[k as int]));
        k = k + 1;
    }
    assert(tail@.take(k as int) =~= tail@);
}

/// Whether `prefix` is a prefix of `s`.
pub fn starts_with(s: &[char], prefix: &[char]) -> (r: bool)
    ensures
        r == prefix@.is_prefix_of(s@),
{
    if prefix.len() > s.len() {
        return false;
    }
    let mut k: usize = 0;
    while k < prefix.len()
        invariant
            k <= prefix@.len() <= s@.len(),
            forall|i: int| 0 <= i < k ==> prefix@[i] == s@[i],
        decreases prefix@.len() - k,
    {
        if prefix[k] != s[k] {
            return false;
        }
        k = k + 1;
    }
    true
}

/// Whether two character sequences are equal.
pub fn chars_eq(a: &[char], b: &[char]) -> (r: bool)
    ensures
        r == (a@ == b@),
{
    if a.len() != b.len() {
        return false;
    }
    let mut k: usize = 0;
    while k < a.len()
        invariant
            k <= a@.len() == b@.len(),
            forall|i: int| 0 <= i < k ==> a@[i] == b@[i],
        decreases a@.len() - k,
    {
        if a[k] != b[k] {
            return false;
        }
        k = k + 1;
    }
    assert(a@ =~= b@);
    true
}

/// `s` without `prefix`, when `s` starts with it (`str::strip_prefix`).
pub open spec fn stripped(s: Seq<char>, prefix: Seq<char>) -> Option<Seq<char>> {
    if prefix.is_prefix_of(s) {
        Some(s.skip(prefix.len() as int))
    } else {
        None
    }
}

pub fn strip_prefix(s: &[char], prefix: &[char]) -> (r: Option<Vec<char>>)
    ensures
        r matches Some(v) ==> stripped(s@, prefix@) == Some(v@),
        r is None ==> stripped(s@, prefix@) is None,
{
    if starts_with(s, prefix) {
        let v = slice_range(s, prefix.len(), s.len());
        assert(v@ =~= s@.skip(prefix@.len() as int));
        Some(v)
    } else {
        None
    }
}

/// How many times `c` occurs in `s`.
pub open spec fn count_char(s: Seq<char>, c: char) -> nat
    decreases s.len(),
{
    if s.len() == 0 {
        0
    } else {
        count_char(s.drop_last(), c) + if s.last() == c {
            1nat
        } else {
            0nat
        }
    }
}

pub fn count_occurrences(s: &[char], c: char) -> (r: usize)
    ensures
        r == count_char(s@, c),
{
    let mut n: usize = 0;
    let mut k: usize = 0;
    while k < s.len()
        invariant
            k <= s@.len(),
            n == count_char(s@.take(k as int), c),
            n <= k,
        decreases s@.len() - k,
    {
        assert(s@.take(k + 1).drop_last() =~= s@.take(k as int));
        if s[k] == c {
            n = n + 1;
        }
        k = k + 1;
    }
    assert(s@.take(k as int) =~= s@);
    n
}

/// Concatenates all the parts (`[String]::concat`).
pub fn concat_all(parts: &Vec<Vec<char>>) -> (r: Vec<char>)
    ensures
        r@ == parts@.map_values(|p: Vec<char>| p@).flatten(),
{
    let ghost views = parts@.map_values(|p: Vec<char>| p@);
    let mut r: Vec<char> = Vec::new();
    let mut k: usize = 0;
    while k < parts.len()
        invariant
            k <= parts@.len(),
            views == parts@.map_values(|p: Vec<char>| p@),
            r@ == views.take(k as int).flatten(),
        decreases parts@.len() - k,
    {
        assert(views.take(k + 1) =~= views.take(k as int).push(parts@[k as int]@));
        proof { views.take(k as int).lemma_flatten_push(parts@[k as int]@); }
        extend_chars(&mut r, parts[k].as_slice());
        k = k + 1;
    }
    assert(views.take(k as int) =~= views);
    r
}

/// The decimal digit for `d < 10`.
pub open spec fn digit_char(d: nat) -> char {
    if d == 0 {
        '0'
    } else if d == 1 {
        '1'
    } else if d == 2 {
        '2'
    } else if d == 3 {
        '3'
    } else if d == 4 {
        '4'
    } else if d == 5 {
        '5'
    } else if d == 6 {
        '6'
    } else if d == 7 {
        '7'
    } else if d == 8 {
        '8'
    } else {
        '9'
    }
}

/// The lowercase hexadecimal digit for `d < 16`.
pub open spec fn hex_char(d: nat) -> char {
    if d < 10 {
        digit_char(d)
    } else if d == 10 {
        'a'
    } else if d == 11 {
        'b'
    } else if d == 12 {
        'c'
    } else if d == 13 {
        'd'
    } else if d == 14 {
        'e'
    } else {
        'f'
    }
}

/// The shortest decimal notation of `n`.
pub open spec fn decimal(n: nat) -> Seq<char>
    decreases n,
{
    if n < 10 {
        seq![digit_char(n)]
    } else {
        decimal(n / 10).push(digit_char(n % 10))
    }
}

/// `n` in decimal, with a leading `-` when negative (`Display` for integers).
pub open spec fn signed_decimal(n: int) -> Seq<char> {
    if n < 0 {
        seq!['-'] + decimal((-n) as nat)
    } else {
        decimal(n as nat)
    }
}

/// `n` in lowercase hexadecimal, zero-padded to `width` digits (its lowest
/// `width` digits).
pub open spec fn hex_padded(n: nat, width: nat) -> Seq<char>
    decreases width,
{
    if width == 0 {
        Seq::empty()
    } else {
        hex_padded(n / 16, (width - 1) as nat).push(hex_char(n % 16))
    }
}

pub fn digit(d: u64) -> (c: char)
    requires
        d < 10,
    ensures
        c == digit_char(d as nat),
{
    if d == 0 {
        '0'
    } else if d == 1 {
        '1'
    } else if d == 2 {
        '2'
    } else if d == 3 {
        '3'
    } else if d == 4 {
        '4'
    } else if d == 5 {
        '5'
    } else if d == 6 {
        '6'
    } else if d == 7 {
        '7'
    } else if d == 8 {
        '8'
    } else {
        '9'
    }
}

pub fn hex_digit(d: u64) -> (c: char)
    requires
        d < 16,
    ensures
        c == hex_char(d as nat),
{
    if d < 10 {
        digit(d)
    } else if d == 10 {
        'a'
    } else if d == 11 {
        'b'
    } else if d == 12 {
        'c'
    } else if d == 13 {
        'd'
    } else if d == 14 {
        'e'
    } else {
        'f'
    }
}

/// `n` in decimal.
pub fn decimal_chars(n: u64) -> (r: Vec<char>)
    ensures
        r@ == decimal(n as nat),
    decreases n,
{
    if n < 10 {
        let mut r = Vec::new();
        r.push(digit(n));
        r
    } else {
        let mut r = decimal_chars(n / 10);
        r.push(digit(n % 10));
        r
    }
}

/// `n` in decimal with its sign.
pub fn signed_decimal_chars(n: i64) -> (r: Vec<char>)
    ensures
        r@ == signed_decimal(n as int),
{
    if n < 0 {
        let magnitude: u64 = if n == i64::MIN {
            9223372036854775808u64
        } else {
            (-n) as u64
        };
        let digits = decimal_chars(magnitude);
        let mut r = Vec::new();
        r.push('-');
        extend_chars(&mut r, digits.as_slice());
        assert(r@ =~= seq!['-'] + digits@);
        r
    } else {
        decimal_chars(n as u64)
    }
}

/// The lowest `width` hexadecimal digits of `n`, zero-padded.
pub fn hex_chars(n: u64, width: usize) -> (r: Vec<char>)
    ensures
        r@ == hex_padded(n as nat, width as nat),
    decreases width,
{
    if width == 0 {
        Vec::new()
    } else {
        let mut r = hex_chars(n / 16, width - 1);
        r.push(hex_digit(n % 16));
        r
    }
}

/// `s` without the trailing copies of `c` (`str::trim_end_matches`).
pub open spec fn trim_end_of(s: Seq<char>, c: char) -> Seq<char>
    decreases s.len(),
{
    if s.len() > 0 && s.last() == c {
        trim_end_of(s.drop_last(), c)
    } else {
        s
    }
}

/// Trimming a character from the end twice trims no more than once.
pub proof fn lemma_trim_end_of_idempotent(s: Seq<char>, c: char)
    ensures
        trim_end_of(trim_end_of(s, c), c) == trim_end_of(s, c),
    decreases s.len(),
{
    if s.len() > 0 && s.last() == c {
        lemma_trim_end_of_idempotent(s.drop_last(), c);
    }
}

/// `s` without the leading copies of `c` (`str::trim_start_matches`).
pub open spec fn trim_start_of(s: Seq<char>, c: char) -> Seq<char>
    decreases s.len(),
{
    if s.len() > 0 && s[0] == c {
        trim_start_of(s.drop_first(), c)
    } else {
        s
    }
}

pub fn trim_end_char(s: &[char], c: char) -> (r: Vec<char>)
    ensures
        r@ == trim_end_of(s@, c),
{
    let mut j: usize = s.len();
    assert(s@.take(s@.len() as int) =~= s@);
    while j > 0 && s[j - 1] == c
        invariant
            j <= s@.len(),
            trim_end_of(s@, c) == trim_end_of(s@.take(j as int), c),
        decreases j,
    {
        assert(s@.take(j as int).drop_last() =~= s@.take(j - 1));
        j = j - 1;
    }
    let r = slice_range(s, 0, j);
    assert(r@ =~= s@.take(j as int));
    r
}

pub fn trim_start_char(s: &[char], c: char) -> (r: Vec<char>)
    ensures
        r@ == trim_start_of(s@, c),
{
    let mut i: usize = 0;
    assert(s@.skip(0) =~= s@);
    while i < s.len() && s[i] == c
        invariant
            i <= s@.len(),
            trim_start_of(s@, c) == trim_start_of(s@.skip(i as int), c),
        decreases s@.len() - i,
    {
        assert(s@.skip(i as int).drop_first() =~= s@.skip(i + 1));
        i = i + 1;
    }
    let r = slice_range(s, i, s.len());
    assert(r@ =~= s@.skip(i as int));
    r
}

/// An ASCII decimal digit.
pub open spec fn is_digit(c: char) -> bool {
    '0' <= c && c <= '9'
}

/// The value of a run of decimal digits.
pub open spec fn digits_value(s: Seq<char>) -> nat
    decreases s.len(),
{
    if s.len() == 0 {
        0
    } else {
        digits_value(s.drop_last()) * 10 + ((s.last() as u32) - ('0' as u32)) as nat
    }
}

/// Nothing but decimal digits, and at least one.
pub open spec fn is_digits(s: Seq<char>) -> bool {
    s.len() > 0 && forall|i: int| 0 <= i < s.len() ==> is_digit(#[trigger] s[i])
}

/// What an unsigned integer's `FromStr` reads: an optional `+`, then decimal
/// digits.
pub open spec fn unsigned_text(s: Seq<char>) -> Option<nat> {
    let digits = if s.len() > 0 && s[0] == '+' {
        s.drop_first()
    } else {
        s
    };
    if is_digits(digits) {
        Some(digits_value(digits))
    } else {
        None
    }
}

/// What a signed integer's `FromStr` reads: an optional `+` or `-`, then
/// decimal digits.
pub open spec fn signed_text(s: Seq<char>) -> Option<int> {
    if s.len() > 0 && s[0] == '-' {
        if is_digits(s.drop_first()) {
            Some(-digits_value(s.drop_first()))
        } else {
            None
        }
    } else {
        match unsigned_text(s) {
            Some(v) => Some(v as int),
            None => None,
        }
    }
}

proof fn lemma_digits_grow(s: Seq<char>, k: int)
    requires
        0 <= k <= s.len(),
        forall|i: int| 0 <= i < s.len() ==> is_digit(#[trigger] s[i]),
    ensures
        digits_value(s.take(k)) <= digits_value(s),
    decreases s.len() - k,
{
    if k < s.len() {
        lemma_digits_grow(s, k + 1);
        assert(s.take(k + 1).drop_last() =~= s.take(k));
    } else {
        assert(s.take(k) =~= s);
    }
}

/// The value of the digits `s[from..]`, if it is at most `max`.
fn digits_at_most(s: &[char], from: usize, max: u64) -> (r: Option<u64>)
    requires
        from <= s@.len(),
    ensures
        r == if is_digits(s@.skip(from as int)) && digits_value(s@.skip(from as int)) <= max {
            Some(digits_value(s@.skip(from as int)) as u64)
        } else {
            None::<u64>
        },
{
    let ghost d = s@.skip(from as int);
    if from == s.len() {
        return None;
    }
    let mut value: u64 = 0;
    let mut k: usize = from;
    assert(d.take(0) =~= Seq::<char>::empty());
    while k < s.len()
        invariant
            from <= k <= s@.len(),
            d == s@.skip(from as int),
            forall|i: int| 0 <= i < k - from ==> is_digit(#[trigger] d[i]),
            value == digits_value(d.take(k - from)),
            value <= max,
        decreases s@.len() - k,
    {
        let c = s[k];
        if !('0' <= c && c <= '9') {
            assert(d[k - from] == c);
            return None;
        }
        let digit = (c as u32 - '0' as u32) as u64;
        assert(d.take(k - from + 1).drop_last() =~= d.take(k - from));
        assert(d[k - from] == c);
        if digit > max || value > (max - digit) / 10 {
            proof {
                if digit <= max {
                    assert(value * 10 + digit > max) by (nonlinear_arith)
                        requires
                            value > (max - digit) / 10,
                            digit <= max,
                    ;
                }
                if is_digits(d) {
                    lemma_digits_grow(d, k - from + 1);
                }
            }
            return None;
        }
        assert(value * 10 + digit <= max) by (nonlinear_arith)
            requires
                value <= (max - digit) / 10,
                digit <= max,
        ;
        value = value * 10 + digit;
        k = k + 1;
    }
    assert(d.take(k - from) =~= d);
    Some(value)
}

/// Reads an unsigned integer no greater than `max`, as an unsigned integer
/// type's `FromStr` does.
pub fn parse_unsigned(s: &str, max: u64) -> (r: Option<u64>)
    ensures
        r == match unsigned_text(s@) {
            Some(v) => if v <= max {
                Some(v as u64)
            } else {
                None
            },
            None => None,
        },
{
    let chars = chars_of(s);
    let from: usize = if chars.len() > 0 && chars[0] == '+' {
        1
    } else {
        0
    };
    assert(from == 1 ==> chars@.skip(1) =~= chars@.drop_first());
    assert(from == 0 ==> chars@.skip(0) =~= chars@);
    digits_at_most(chars.as_slice(), from, max)
}

/// Reads an `i64` as its `FromStr` does.
pub fn parse_i64(s: &str) -> (r: Option<i64>)
    ensures
        r == match signed_text(s@) {
            Some(v) => if i64::MIN <= v <= i64::MAX {
                Some(v as i64)
            } else {
                None
            },
            None => None,
        },
{
    let chars = chars_of(s);
    if chars.len() > 0 && chars[0] == '-' {
        assert(chars@.skip(1) =~= chars@.drop_first());
        match digits_at_most(chars.as_slice(), 1, 9223372036854775808u64) {
            Some(magnitude) => if magnitude == 9223372036854775808u64 {
                Some(i64::MIN)
            } else {
                Some(-(magnitude as i64))
            },
            None => None,
        }
    } else {
        match parse_unsigned(s, 9223372036854775807u64) {
            Some(v) => Some(v as i64),
            None => None,
        }
    }
}

/// Whether two texts are equal.
pub fn text_is(s: &str, t: &str) -> (r: bool)
    ensures
        r == (s@ == t@),
{
    let a = chars_of(s);
    let b = chars_of(t);
    chars_eq(a.as_slice(), b.as_slice())
}

/// A copy of a `String`'s text as characters, then back: `s` itself.
pub fn string_of(s: &str) -> (r: String)
    ensures
        r@ == s@,
{
    s.to_owned()
}

/// Concatenates two texts into a `String`.
pub fn concat2(a: &str, b: &str) -> (r: String)
    ensures
        r@ == a@ + b@,
{
    let mut v = chars_of(a);
    let w = chars_of(b);
    extend_chars(&mut v, w.as_slice());
    string_from_chars(v.as_slice())
}

/// Concatenates three texts into a `String`.
pub fn concat3(a: &str, b: &str, c: &str) -> (r: String)
    ensures
        r@ == a@ + b@ + c@,
{
    let mut v = chars_of(a);
    let w = chars_of(b);
    extend_chars(&mut v, w.as_slice());
    let x = chars_of(c);
    extend_chars(&mut v, x.as_slice());
    string_from_chars(v.as_slice())
}

} // verus!
