//! Character-level building blocks: decimal numerals, ASCII case folding,
//! whitespace trimming and the few std text conversions the library relies on.
use vstd::prelude::*;

verus! {

/// An ASCII decimal digit `0`..`9`.
pub open spec fn is_digit(c: char) -> bool {
    '0' <= c && c <= '9'
}

/// The numeric value of an ASCII digit.
pub open spec fn digit_value(c: char) -> nat {
    ((c as int) - ('0' as int)) as nat
}

/// The ASCII digit for a value below ten.
pub open spec fn digit_char(d: nat) -> char {
    ((d as int) + ('0' as int)) as char
}

/// Every character of `s` is an ASCII digit.
pub open spec fn all_digits(s: Seq<char>) -> bool {
    forall|i: int| 0 <= i < s.len() ==> is_digit(#[trigger] s[i])
}

/// The value of a string of digits read in base ten (most significant first).
pub open spec fn digits_value(s: Seq<char>) -> nat
    decreases s.len(),
{
    if s.len() == 0 {
        0
    } else {
        digits_value(s.drop_last()) * 10 + digit_value(s.last())
    }
}

/// The canonical decimal rendering of `n`: no sign, no leading zeros.
pub open spec fn dec(n: nat) -> Seq<char>
    decreases n,
{
    if n < 10 {
        seq![digit_char(n)]
    } else {
        dec(n / 10).push(digit_char(n % 10))
    }
}

/// Basic facts about the rendering `dec(n)`: it is a non-empty digit string
/// whose value is `n`, with no leading zero and as many digits as `n` needs.
pub proof fn lemma_dec(n: nat)
    ensures
        dec(n).len() >= 1,
        all_digits(dec(n)),
        digits_value(dec(n)) == n,
        n >= 10 ==> dec(n)[0] != '0',
        n < 10 ==> dec(n).len() == 1,
        n < 100 ==> dec(n).len() <= 2,
        n < 1000 ==> dec(n).len() <= 3,
        n >= 10 ==> dec(n).len() >= 2,
    decreases n,
{
    if n >= 10 {
        lemma_dec(n / 10);
        let p = dec(n / 10);
        let s = dec(n);
        assert(s == p.push(digit_char(n % 10)));
        assert(s.drop_last() =~= p);
        assert(digits_value(s) == digits_value(p) * 10 + digit_value(digit_char(n % 10)));
        assert((n / 10) * 10 + n % 10 == n);
        assert forall|i: int| 0 <= i < s.len() implies is_digit(#[trigger] s[i]) by {
            if i < p.len() {
                assert(s[i] == p[i]);
            }
        }
        assert(s[0] == p[0]);
        if n / 10 < 10 {
            assert(p =~= seq![digit_char(n / 10)]);
        }
    } else {
        assert(dec(n).drop_last() =~= Seq::<char>::empty());
        assert(digits_value(dec(n).drop_last()) == 0);
        lemma_digit_char(n);
    }
}

/// A digit string with no superfluous leading zero is the rendering of its value.
pub proof fn lemma_canonical_digits(t: Seq<char>)
    requires
        t.len() >= 1,
        all_digits(t),
        t.len() == 1 || t[0] != '0',
    ensures
        dec(digits_value(t)) == t,
        t.len() > 1 ==> digits_value(t) >= 10,
    decreases t.len(),
{
    if t.len() == 1 {
        assert(t.drop_last() =~= Seq::<char>::empty());
        assert(digits_value(t.drop_last()) == 0);
        lemma_digit_roundtrip(t[0]);
        assert(t.last() == t[0]);
        assert(digits_value(t) == digit_value(t[0]));
        assert(dec(digits_value(t)) =~= t);
    } else {
        let p = t.drop_last();
        assert(p[0] == t[0]);
        assert forall|i: int| 0 <= i < p.len() implies is_digit(#[trigger] p[i]) by {
            assert(p[i] == t[i]);
        }
        lemma_canonical_digits(p);
        lemma_digit_roundtrip(t.last());
        let v = digits_value(p);
        let d = digit_value(t.last());
        if p.len() == 1 {
            lemma_digit_roundtrip(p[0]);
            assert(p.drop_last() =~= Seq::<char>::empty());
            assert(digits_value(p.drop_last()) == 0);
            assert(p.last() == p[0]);
            assert(v == digit_value(p[0]));
        }
        assert(v >= 1);
        let n = v * 10 + d;
        assert(n / 10 == v && n % 10 == d) by (nonlinear_arith)
            requires
                n == v * 10 + d,
                d < 10,
        ;
        assert(dec(n) == dec(v).push(digit_char(d)));
        assert(dec(n) =~= t);
    }
}

/// The value of an all-digit string never falls when digits are appended.
pub proof fn lemma_digits_value_prefix(s: Seq<char>, k: int)
    requires
        all_digits(s),
        0 <= k <= s.len(),
    ensures
        digits_value(s.take(k)) <= digits_value(s),
    decreases s.len(),
{
    if k < s.len() {
        let p = s.drop_last();
        assert forall|i: int| 0 <= i < p.len() implies is_digit(#[trigger] p[i]) by {
            assert(p[i] == s[i]);
        }
        lemma_digits_value_prefix(p, k);
        assert(p.take(k) =~= s.take(k));
    } else {
        assert(s.take(k) =~= s);
    }
}

pub proof fn lemma_digit_char(d: nat)
    requires
        d < 10,
    ensures
        is_digit(digit_char(d)),
        digit_value(digit_char(d)) == d,
{
}

pub proof fn lemma_digit_roundtrip(c: char)
    requires
        is_digit(c),
    ensures
        digit_value(c) < 10,
        digit_char(digit_value(c)) == c,
{
}

/// Whether `c` is an ASCII decimal digit.
pub fn is_ascii_digit(c: char) -> (r: bool)
    ensures
        r == is_digit(c),
{
    c >= '0' && c <= '9'
}

/// The base-ten value of the characters `v[lo..hi]`, when they are one or more
/// ASCII digits whose value does not exceed `max`.
pub fn digit_run_value(v: &[char], lo: usize, hi: usize, max: u32) -> (r: Option<u32>)
    requires
        lo <= hi <= v@.len(),
    ensures
        r == (if hi > lo && all_digits(v@.subrange(lo as int, hi as int)) && digits_value(
            v@.subrange(lo as int, hi as int),
        ) <= max {
            Some(digits_value(v@.subrange(lo as int, hi as int)) as u32)
        } else {
            None::<u32>
        }),
{
    if lo == hi {
        return None;
    }
    let ghost whole = v@.subrange(lo as int, hi as int);
    let mut i = lo;
    let mut acc: u64 = 0;
    assert(v@.subrange(lo as int, lo as int) =~= Seq::<char>::empty());
    while i < hi
        invariant
            lo <= i <= hi <= v@.len(),
            whole == v@.subrange(lo as int, hi as int),
            all_digits(v@.subrange(lo as int, i as int)),
            acc == digits_value(v@.subrange(lo as int, i as int)),
            acc <= max,
        decreases hi - i,
    {
        let c = v[i];
        if !is_ascii_digit(c) {
            assert(whole[i - lo] == c);
            return None;
        }
        let d = ((c as u32) - ('0' as u32)) as u64;
        let ghost prev = v@.subrange(lo as int, i as int);
        let ghost next = v@.subrange(lo as int, i + 1);
        assert(next.drop_last() =~= prev);
        assert(next.last() == c);
        assert forall|j: int| 0 <= j < next.len() implies is_digit(#[trigger] next[j]) by {
            if j < prev.len() {
                assert(next[j] == prev[j]);
            }
        }
        acc = acc * 10 + d;
        if acc > max as u64 {
            proof {
                if all_digits(whole) {
                    assert(whole.take(i + 1 - lo) =~= next);
                    lemma_digits_value_prefix(whole, i + 1 - lo);
                }
            }
            return None;
        }
        i = i + 1;
    }
    assert(v@.subrange(lo as int, i as int) =~= whole);
    Some(acc as u32)
}


/// The digits that `str::parse` reads for an unsigned integer: one optional
/// leading `+` is dropped.
pub open spec fn unsigned_digits(s: Seq<char>) -> Seq<char> {
    if s.len() > 0 && s[0] == '+' {
        s.drop_first()
    } else {
        s
    }
}

/// The value `str::parse` gives an unsigned integer type whose largest value is
/// `max`: an optional `+` followed by one or more ASCII digits, in range.
pub open spec fn unsigned_value(s: Seq<char>, max: nat) -> Option<nat> {
    let d = unsigned_digits(s);
    if d.len() > 0 && all_digits(d) && digits_value(d) <= max {
        Some(digits_value(d))
    } else {
        None
    }
}

/// Parses `v[lo..hi]` as an unsigned integer no larger than `max`, with the
/// syntax of `str::parse` for unsigned integer types.
pub fn parse_unsigned(v: &[char], lo: usize, hi: usize, max: u32) -> (r: Option<u32>)
    requires
        lo <= hi <= v@.len(),
    ensures
        match unsigned_value(v@.subrange(lo as int, hi as int), max as nat) {
            Some(x) => r == Some(x as u32),
            None => r is None,
        },
{
    let ghost s = v@.subrange(lo as int, hi as int);
    if lo < hi && v[lo] == '+' {
        assert(v@.subrange(lo + 1, hi as int) =~= s.drop_first());
        digit_run_value(v, lo + 1, hi, max)
    } else {
        digit_run_value(v, lo, hi, max)
    }
}

/// The characters of a string slice, in order.
pub fn chars_of(s: &str) -> (r: Vec<char>)
    ensures
        r@ == s@,
{
    let n = s.unicode_len();
    let mut r: Vec<char> = Vec::new();
    let mut i: usize = 0;
    while i < n
        invariant
            n == s@.len(),
            i <= n,
            r@ == s@.take(i as int),
        decreases n - i,
    {
        let c = s.get_char(i);
        r.push(c);
        assert(s@.take(i + 1) =~= s@.take(i as int).push(c));
        i = i + 1;
    }
    assert(s@.take(n as int) =~= s@);
    r
}

/// Appends one character to a string.
///
/// Trusted: calls `String::push`, which std documents as appending the given
/// character to the end of the string.
#[verifier::external_body]
pub(crate) fn push_char(s: &mut String, c: char)
    ensures
        final(s)@ == old(s)@.push(c),
{
    s.push(c);
}

/// Appends the characters `v[lo..hi]` to `out`.
pub fn push_chars(out: &mut String, v: &[char], lo: usize, hi: usize)
    requires
        lo <= hi <= v@.len(),
    ensures
        final(out)@ == old(out)@ + v@.subrange(lo as int, hi as int),
{
    let mut i = lo;
    while i < hi
        invariant
            lo <= i <= hi <= v@.len(),
            out@ == old(out)@ + v@.subrange(lo as int, i as int),
        decreases hi - i,
    {
        push_char(out, v[i]);
        assert(v@.subrange(lo as int, i + 1) =~= v@.subrange(lo as int, i as int).push(v@[i as int]));
        i = i + 1;
    }
}

/// A new string holding the characters `v[lo..hi]`.
pub fn string_from(v: &[char], lo: usize, hi: usize) -> (r: String)
    requires
        lo <= hi <= v@.len(),
    ensures
        r@ == v@.subrange(lo as int, hi as int),
{
    let mut r = String::new();
    push_chars(&mut r, v, lo, hi);
    assert(Seq::<char>::empty() + v@.subrange(lo as int, hi as int) =~= v@.subrange(
        lo as int,
        hi as int,
    ));
    r
}

/// Appends the canonical decimal rendering of `n` to `out`.
pub fn push_decimal(out: &mut String, n: u32)
    ensures
        final(out)@ == old(out)@ + dec(n as nat),
    decreases n,
{
    if n >= 10 {
        push_decimal(out, n / 10);
    }
    let d = n % 10;
    let c = ((d + ('0' as u32)) as u8) as char;
    assert(c == digit_char(d as nat));
    push_char(out, c);
    proof {
        if n >= 10 {
            assert(dec(n as nat) == dec((n / 10) as nat).push(digit_char((n % 10) as nat)));
        } else {
            assert(dec(n as nat) == seq![digit_char(n as nat)]);
        }
    }
    assert(final(out)@ =~= old(out)@ + dec(n as nat));
}

/// The canonical decimal rendering of `n`, as `u32::to_string` gives it.
pub fn decimal(n: u32) -> (r: String)
    ensures
        r@ == dec(n as nat),
{
    let mut r = String::new();
    push_decimal(&mut r, n);
    assert(Seq::<char>::empty() + dec(n as nat) =~= dec(n as nat));
    r
}

/// The index of the first occurrence of `c` in `s`, or `s.len()` when there is none.
pub open spec fn index_of(s: Seq<char>, c: char) -> int
    decreases s.len(),
{
    if s.len() == 0 {
        0
    } else if s[0] == c {
        0
    } else {
        1 + index_of(s.drop_first(), c)
    }
}

/// `index_of` is the first position holding `c`, or the length when none does.
pub proof fn lemma_index_of(s: Seq<char>, c: char, k: int)
    requires
        0 <= k <= s.len(),
        forall|j: int| 0 <= j < k ==> s[j] != c,
        k == s.len() || s[k] == c,
    ensures
        index_of(s, c) == k,
    decreases s.len(),
{
    if s.len() > 0 && s[0] != c {
        let t = s.drop_first();
        assert forall|j: int| 0 <= j < k - 1 implies t[j] != c by {
            assert(t[j] == s[j + 1]);
        }
        if k < s.len() {
            assert(t[k - 1] == s[k]);
        }
        lemma_index_of(t, c, k - 1);
    }
}

/// The first position in `v[lo..hi]` holding `c`, or `hi` when there is none.
pub fn find_char(v: &[char], lo: usize, hi: usize, c: char) -> (r: usize)
    requires
        lo <= hi <= v@.len(),
    ensures
        lo <= r <= hi,
        forall|j: int| lo <= j < r ==> v@[j] != c,
        r < hi ==> v@[r as int] == c,
        r - lo == index_of(v@.subrange(lo as int, hi as int), c),
{
    let mut i = lo;
    while i < hi
        invariant
            lo <= i <= hi <= v@.len(),
            forall|j: int| lo <= j < i ==> v@[j] != c,
        ensures
            lo <= i <= hi,
            forall|j: int| lo <= j < i ==> v@[j] != c,
            i < hi ==> v@[i as int] == c,
        decreases hi - i,
    {
        if v[i] == c {
            break;
        }
        i = i + 1;
    }
    proof {
        let s = v@.subrange(lo as int, hi as int);
        assert forall|j: int| 0 <= j < i - lo implies s[j] != c by {
            assert(s[j] == v@[lo + j]);
        }
        if i < hi {
            assert(s[i - lo] == v@[i as int]);
        }
        lemma_index_of(s, c, i - lo);
    }
    i
}

/// Whether `s` begins with `p`.
pub open spec fn has_prefix(s: Seq<char>, p: Seq<char>) -> bool {
    p.len() <= s.len() && s.take(p.len() as int) == p
}

/// Whether `v[lo..hi]` begins with the characters of `p`.
pub fn starts_with_chars(v: &[char], lo: usize, hi: usize, p: &[char]) -> (r: bool)
    requires
        lo <= hi <= v@.len(),
    ensures
        r == has_prefix(v@.subrange(lo as int, hi as int), p@),
{
    let ghost s = v@.subrange(lo as int, hi as int);
    if p.len() > hi - lo {
        return false;
    }
    let mut i: usize = 0;
    while i < p.len()
        invariant
            p@.len() <= hi - lo,
            lo <= hi <= v@.len(),
            s == v@.subrange(lo as int, hi as int),
            i <= p@.len(),
            forall|j: int| 0 <= j < i ==> v@[lo + j] == p@[j],
        decreases p@.len() - i,
    {
        if v[lo + i] != p[i] {
            assert(s.take(p@.len() as int)[i as int] != p@[i as int]);
            return false;
        }
        i = i + 1;
    }
    assert(s.take(p@.len() as int) =~= p@);
    true
}


/// The characters a string-trimming operation removes from either end.
#[derive(Clone, Copy, PartialEq, Eq, Structural, Debug)]
pub enum CharClass {
    /// Unicode `White_Space`, the set `char::is_whitespace` accepts.
    Whitespace,
    /// The braces `{` and `}`.
    Brace,
}

/// The Unicode `White_Space` characters.
pub open spec fn is_white_space(c: char) -> bool {
    ||| '\u{9}' <= c <= '\u{d}'
    ||| c == ' '
    ||| c == '\u{85}'
    ||| c == '\u{a0}'
    ||| c == '\u{1680}'
    ||| '\u{2000}' <= c <= '\u{200a}'
    ||| c == '\u{2028}'
    ||| c == '\u{2029}'
    ||| c == '\u{202f}'
    ||| c == '\u{205f}'
    ||| c == '\u{3000}'
}

pub open spec fn in_class(cls: CharClass, c: char) -> bool {
    match cls {
        CharClass::Whitespace => is_white_space(c),
        CharClass::Brace => c == '{' || c == '}',
    }
}

/// Whether `c` belongs to `cls`.
pub fn is_in_class(cls: CharClass, c: char) -> (r: bool)
    ensures
        r == in_class(cls, c),
{
    match cls {
        CharClass::Whitespace => {
            (c >= '\u{9}' && c <= '\u{d}') || c == ' ' || c == '\u{85}' || c == '\u{a0}' || c
                == '\u{1680}' || (c >= '\u{2000}' && c <= '\u{200a}') || c == '\u{2028}' || c
                == '\u{2029}' || c == '\u{202f}' || c == '\u{205f}' || c == '\u{3000}'
        },
        CharClass::Brace => c == '{' || c == '}',
    }
}

/// `s` without its leading characters of class `cls`.
pub open spec fn strip_start(s: Seq<char>, cls: CharClass) -> Seq<char>
    decreases s.len(),
{
    if s.len() > 0 && in_class(cls, s[0]) {
        strip_start(s.drop_first(), cls)
    } else {
        s
    }
}

/// `s` without its trailing characters of class `cls`.
pub open spec fn strip_end(s: Seq<char>, cls: CharClass) -> Seq<char>
    decreases s.len(),
{
    if s.len() > 0 && in_class(cls, s.last()) {
        strip_end(s.drop_last(), cls)
    } else {
        s
    }
}

/// `s` without its leading and trailing characters of class `cls`.
pub open spec fn strip(s: Seq<char>, cls: CharClass) -> Seq<char> {
    strip_end(strip_start(s, cls), cls)
}

/// What `str::trim` leaves of `s`.
pub open spec fn trim(s: Seq<char>) -> Seq<char> {
    strip(s, CharClass::Whitespace)
}

pub proof fn lemma_strip_start(s: Seq<char>, cls: CharClass, a: int)
    requires
        0 <= a <= s.len(),
        forall|j: int| 0 <= j < a ==> in_class(cls, #[trigger] s[j]),
        a == s.len() || !in_class(cls, s[a]),
    ensures
        strip_start(s, cls) == s.skip(a),
    decreases s.len(),
{
    if a == 0 {
        assert(s.skip(0) =~= s);
    } else {
        let t = s.drop_first();
        assert forall|j: int| 0 <= j < a - 1 implies in_class(cls, #[trigger] t[j]) by {
            assert(t[j] == s[j + 1]);
        }
        if a < s.len() {
            assert(t[a - 1] == s[a]);
        }
        lemma_strip_start(t, cls, a - 1);
        assert(t.skip(a - 1) =~= s.skip(a));
    }
}

pub proof fn lemma_strip_end(s: Seq<char>, cls: CharClass, b: int)
    requires
        0 <= b <= s.len(),
        forall|j: int| b <= j < s.len() ==> in_class(cls, #[trigger] s[j]),
        b == 0 || !in_class(cls, s[b - 1]),
    ensures
        strip_end(s, cls) == s.take(b),
    decreases s.len(),
{
    if b == s.len() {
        if s.len() > 0 {
            assert(s.last() == s[b - 1]);
        }
        assert(s.take(b) =~= s);
    } else {
        let t = s.drop_last();
        assert forall|j: int| b <= j < t.len() implies in_class(cls, #[trigger] t[j]) by {
            assert(t[j] == s[j]);
        }
        if b > 0 {
            assert(t[b - 1] == s[b - 1]);
        }
        assert(in_class(cls, s[s.len() - 1]));
        lemma_strip_end(t, cls, b);
        assert(t.take(b) =~= s.take(b));
    }
}

/// The bounds of what remains of `v[lo..hi]` once the characters of class
/// `cls` are stripped from both ends.
pub fn strip_bounds(v: &[char], lo: usize, hi: usize, cls: CharClass) -> (r: (usize, usize))
    requires
        lo <= hi <= v@.len(),
    ensures
        lo <= r.0 <= r.1 <= hi,
        v@.subrange(r.0 as int, r.1 as int) == strip(v@.subrange(lo as int, hi as int), cls),
{
    let ghost s = v@.subrange(lo as int, hi as int);
    let mut a = lo;
    while a < hi && is_in_class(cls, v[a])
        invariant
            lo <= a <= hi <= v@.len(),
            forall|j: int| lo <= j < a ==> in_class(cls, #[trigger] v@[j]),
        decreases hi - a,
    {
        a = a + 1;
    }
    let mut b = hi;
    while b > a && is_in_class(cls, v[b - 1])
        invariant
            lo <= a <= b <= hi <= v@.len(),
            forall|j: int| b <= j < hi ==> in_class(cls, #[trigger] v@[j]),
        decreases b - a,
    {
        b = b - 1;
    }
    proof {
        assert forall|j: int| 0 <= j < a - lo implies in_class(cls, #[trigger] s[j]) by {
            assert(s[j] == v@[lo + j]);
        }
        if a < hi {
            assert(s[a - lo] == v@[a as int]);
        }
        lemma_strip_start(s, cls, a - lo);
        let t = s.skip(a - lo);
        assert(t =~= v@.subrange(a as int, hi as int));
        assert forall|j: int| b - a <= j < t.len() implies in_class(cls, #[trigger] t[j]) by {
            assert(t[j] == v@[a + j]);
        }
        if b > a {
            assert(t[b - a - 1] == v@[b - 1]);
        }
        lemma_strip_end(t, cls, b - a);
        assert(t.take(b - a) =~= v@.subrange(a as int, b as int));
    }
    (a, b)
}

/// ASCII lower-casing of one character; every other character is unchanged.
pub open spec fn ascii_lower(c: char) -> char {
    if 'A' <= c <= 'Z' {
        ((c as int) + 32) as char
    } else {
        c
    }
}

/// Equality up to ASCII case, as `str::eq_ignore_ascii_case` decides it.
pub open spec fn eq_ignore_ascii_case(a: Seq<char>, b: Seq<char>) -> bool {
    a.len() == b.len() && forall|i: int| 0 <= i < a.len() ==> ascii_lower(#[trigger] a[i])
        == ascii_lower(b[i])
}

/// ASCII lower-casing of one character.
pub fn to_ascii_lower(c: char) -> (r: char)
    ensures
        r == ascii_lower(c),
{
    if c >= 'A' && c <= 'Z' {
        ((c as u8) + 32) as char
    } else {
        c
    }
}

/// Whether `a` and `b` are equal up to ASCII case.
pub fn chars_eq_ignore_ascii_case(a: &[char], b: &[char]) -> (r: bool)
    ensures
        r == eq_ignore_ascii_case(a@, b@),
{
    if a.len() != b.len() {
        return false;
    }
    let mut i: usize = 0;
    while i < a.len()
        invariant
            a@.len() == b@.len(),
            i <= a@.len(),
            forall|j: int| 0 <= j < i ==> ascii_lower(#[trigger] a@[j]) == ascii_lower(b@[j]),
        decreases a@.len() - i,
    {
        if to_ascii_lower(a[i]) != to_ascii_lower(b[i]) {
            return false;
        }
        i = i + 1;
    }
    true
}

/// A line as `str::lines` yields it: the carriage return of a `\r\n` ending is dropped.
pub open spec fn line_body(l: Seq<char>) -> Seq<char> {
    if l.len() > 0 && l.last() == '\r' {
        l.drop_last()
    } else {
        l
    }
}

/// The lines of `s`, as `str::lines` yields them: split at each `\n`, a
/// preceding `\r` removed, and no empty line after a final line ending.
pub open spec fn lines(s: Seq<char>) -> Seq<Seq<char>>
    decreases s.len(),
{
    if s.len() == 0 {
        Seq::empty()
    } else {
        let k = index_of(s, '\n');
        if k < 0 || k >= s.len() {
            seq![s]
        } else {
            seq![line_body(s.take(k))] + lines(s.skip(k + 1))
        }
    }
}

/// Finds the line of `v` that starts at `pos`: returns where its text ends and
/// where the next line starts.
pub fn line_at(v: &[char], pos: usize) -> (r: (usize, usize))
    requires
        pos < v@.len(),
    ensures
        pos <= r.0 <= r.1 <= v@.len(),
        pos < r.1,
        lines(v@.skip(pos as int)) == seq![v@.subrange(pos as int, r.0 as int)] + lines(
            v@.skip(r.1 as int),
        ),
{
    let n = v.len();
    let k = find_char(v, pos, n, '\n');
    let ghost s = v@.skip(pos as int);
    assert(v@.subrange(pos as int, n as int) =~= s);
    if k == n {
        assert(v@.skip(n as int) =~= Seq::<char>::empty());
        assert(v@.subrange(pos as int, n as int) =~= s);
        assert(lines(s) == seq![s]);
        assert(seq![s] + lines(v@.skip(n as int)) =~= seq![s]);
        (n, n)
    } else {
        assert(s.skip(k - pos + 1) =~= v@.skip(k + 1));
        assert(s.take(k - pos) =~= v@.subrange(pos as int, k as int));
        if k > pos && v[k - 1] == '\r' {
            assert(line_body(s.take(k - pos)) =~= v@.subrange(pos as int, k - 1));
            (k - 1, k + 1)
        } else {
            (k, k + 1)
        }
    }
}

/// Unicode lower-casing of a whole string, as `str::to_lowercase` performs it.
pub uninterp spec fn unicode_lowercase(s: Seq<char>) -> Seq<char>;

/// Unicode upper-casing of a whole string, as `str::to_uppercase` performs it.
pub uninterp spec fn unicode_uppercase(s: Seq<char>) -> Seq<char>;

/// The characters `String::from_utf8_lossy` decodes from `bytes`.
pub uninterp spec fn utf8_lossy(bytes: Seq<u8>) -> Seq<char>;

/// A UTF-16 high (leading) surrogate.
pub open spec fn is_high_surrogate(u: u16) -> bool {
    0xD800 <= u <= 0xDBFF
}

/// A UTF-16 low (trailing) surrogate.
pub open spec fn is_low_surrogate(u: u16) -> bool {
    0xDC00 <= u <= 0xDFFF
}

/// The character a surrogate pair encodes.
pub open spec fn surrogate_pair_char(hi: u16, lo: u16) -> char {
    (0x10000 + (hi - 0xD800) * 0x400 + (lo - 0xDC00)) as char
}

/// UTF-16 decoding as `String::from_utf16_lossy` performs it: a high
/// surrogate followed by a low one is one character; any other surrogate
/// becomes U+FFFD on its own (the unit after it is decoded afresh); every
/// other unit is the character with that value.
pub open spec fn utf16_lossy(units: Seq<u16>) -> Seq<char>
    decreases units.len(),
{
    if units.len() == 0 {
        Seq::empty()
    } else if units.len() >= 2 && is_high_surrogate(units[0]) && is_low_surrogate(units[1]) {
        seq![surrogate_pair_char(units[0], units[1])] + utf16_lossy(units.skip(2))
    } else if is_high_surrogate(units[0]) || is_low_surrogate(units[0]) {
        seq!['\u{FFFD}'] + utf16_lossy(units.skip(1))
    } else {
        seq![units[0] as char] + utf16_lossy(units.skip(1))
    }
}

/// Lower-cases a string.
///
/// Trusted: calls `str::to_lowercase`. The contract only says that the result
/// is a fixed function of the input; the Unicode case mapping is not restated.
#[verifier::external_body]
pub(crate) fn to_lowercase(s: &str) -> (r: String)
    ensures
        r@ == unicode_lowercase(s@),
{
    s.to_lowercase()
}

/// Upper-cases a string.
///
/// Trusted: calls `str::to_uppercase`. The contract only says that the result
/// is a fixed function of the input; the Unicode case mapping is not restated.
#[verifier::external_body]
pub(crate) fn to_uppercase(s: &str) -> (r: String)
    ensures
        r@ == unicode_uppercase(s@),
{
    s.to_uppercase()
}

/// Decodes bytes as UTF-8, replacing invalid sequences.
///
/// Trusted: calls `String::from_utf8_lossy` and takes the owned result. The
/// contract says that the result is a fixed function of the bytes and, as std
/// documents, that valid UTF-8 is decoded as it stands; how invalid
/// sequences are replaced is not restated.
#[verifier::external_body]
pub(crate) fn decode_utf8_lossy(bytes: &[u8]) -> (r: String)
    ensures
        r@ == utf8_lossy(bytes@),
        vstd::utf8::valid_utf8(bytes@) ==> r@ == vstd::utf8::decode_utf8(bytes@),
{
    String::from_utf8_lossy(bytes).into_owned()
}

/// The character with scalar value `v`, if `v` is a Unicode scalar value.
///
/// Trusted: calls `char::from_u32`, which std documents as giving the
/// character when `v` is a Unicode scalar value (at most 0x10FFFF and not a
/// surrogate) and `None` otherwise.
#[verifier::external_body]
fn char_from_u32(v: u32) -> (r: Option<char>)
    ensures
        (v <= 0x10FFFF && !(0xD800 <= v <= 0xDFFF)) ==> r == Some(v as char),
        !(v <= 0x10FFFF && !(0xD800 <= v <= 0xDFFF)) ==> r is None,
{
    char::from_u32(v)
}

/// Decodes UTF-16 code units, replacing unpaired surrogates with U+FFFD, as
/// `String::from_utf16_lossy` does.
pub fn decode_utf16_lossy(units: &[u16]) -> (r: String)
    ensures
        r@ == utf16_lossy(units@),
{
    let mut out = String::new();
    let n = units.len();
    let mut i: usize = 0;
    assert(units@.skip(0) =~= units@);
    assert(out@ + utf16_lossy(units@) =~= utf16_lossy(units@));
    while i < n
        invariant
            n == units@.len(),
            i <= n,
            utf16_lossy(units@) == out@ + utf16_lossy(units@.skip(i as int)),
        decreases n - i,
    {
        let u = units[i];
        let ghost rest = units@.skip(i as int);
        assert(rest[0] == u);
        let pair = i + 1 < n && u >= 0xD800 && u <= 0xDBFF && units[i + 1] >= 0xDC00 && units[i + 1] <= 0xDFFF;
        if pair {
            let lo = units[i + 1];
            assert(rest[1] == lo);
            assert(rest.skip(2) =~= units@.skip(i + 2));
            let hi_bits: u32 = (u as u32) - 0xD800;
            let lo_bits: u32 = (lo as u32) - 0xDC00;
            assert(hi_bits * 0x400 <= 0x3FF * 0x400) by (nonlinear_arith)
                requires
                    hi_bits <= 0x3FF,
            ;
            let v: u32 = 0x10000 + hi_bits * 0x400 + lo_bits;
            let c = match char_from_u32(v) {
                Some(c) => c,
                None => '\u{FFFD}',
            };
            assert(c == surrogate_pair_char(u, lo));
            push_char(&mut out, c);
            i = i + 2;
        } else if u >= 0xD800 && u <= 0xDFFF {
            assert(rest.skip(1) =~= units@.skip(i + 1));
            push_char(&mut out, '\u{FFFD}');
            i = i + 1;
        } else {
            assert(rest.skip(1) =~= units@.skip(i + 1));
            let c = match char_from_u32(u as u32) {
                Some(c) => c,
                None => '\u{FFFD}',
            };
            assert(c == u as char);
            push_char(&mut out, c);
            i = i + 1;
        }
        assert(utf16_lossy(units@) =~= out@ + utf16_lossy(units@.skip(i as int)));
    }
    assert(units@.skip(n as int) =~= Seq::<u16>::empty());
    assert(out@ + utf16_lossy(Seq::<u16>::empty()) =~= out@);
    out
}

/// Whether `v[lo..hi]` holds exactly the characters of `w`.
pub fn range_equals(v: &[char], lo: usize, hi: usize, w: &[char]) -> (r: bool)
    requires
        lo <= hi <= v@.len(),
    ensures
        r == (v@.subrange(lo as int, hi as int) == w@),
{
    if hi - lo != w.len() {
        return false;
    }
    let r = starts_with_chars(v, lo, hi, w);
    assert(v@.subrange(lo as int, hi as int).take(w@.len() as int) =~= v@.subrange(
        lo as int,
        hi as int,
    ));
    r
}

/// Whether two string slices hold the same characters.
pub fn chars_eq_exact(a: &str, b: &str) -> (r: bool)
    ensures
        r == (a@ == b@),
{
    let va = chars_of(a);
    let vb = chars_of(b);
    assert(va@.subrange(0, va@.len() as int) =~= va@);
    range_equals(va.as_slice(), 0, va.len(), vb.as_slice())
}

} // verus!
