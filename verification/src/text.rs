use vstd::prelude::*;
use vstd::std_specs::iter::IteratorSpec;
use vstd::string::*;

verus! {

/// `String::push` of std appends one character to the end of the string.
pub assume_specification[ String::push ](s: &mut String, c: char)
    ensures
        final(s)@ == old(s)@.push(c),
;

/// Whether `n` is a Unicode scalar value: a code point that is no surrogate.
pub open spec fn is_scalar_value(n: u32) -> bool {
    n < 0xD800 || (0xE000 <= n && n <= 0x10FFFF)
}

/// The character whose scalar value is `n`, where there is one.
pub open spec fn scalar_char(n: u32) -> Option<char> {
    if is_scalar_value(n) {
        Some(n as char)
    } else {
        None
    }
}

/// `char::from_u32` of std gives the character with the given scalar value,
/// and `None` for a surrogate or a number above `0x10FFFF`.
pub assume_specification[ char::from_u32 ](n: u32) -> (r: Option<char>)
    ensures
        r == scalar_char(n),
;

/// Whether `c` has the Unicode property White_Space, as `char::is_whitespace`
/// of std reports it.
pub uninterp spec fn is_whitespace_char(c: char) -> bool;

/// `char::is_whitespace` of std: the result is named, not spelled out, since
/// the set of white space characters is a table of the Unicode standard.
#[verifier::external_body]
pub(crate) fn char_is_whitespace(c: char) -> (b: bool)
    ensures
        b == is_whitespace_char(c),
{
    c.is_whitespace()
}

/// The characters of `s`, in order.
pub fn chars_of(s: &str) -> (out: Vec<char>)
    ensures
        out@ == s@,
{
    let mut out: Vec<char> = Vec::new();
    for c in it: s.chars()
        invariant
            out@.len() == it.index(),
            forall|i: int| 0 <= i < out@.len() ==> out@[i] == it.seq()[i],
            it.seq() == s@,
    {
        out.push(c);
    }
    assert(out@ =~= s@);
    out
}

/// The string made of the characters of `cs`, in order.
pub fn string_of(cs: &[char]) -> (out: String)
    ensures
        out@ == cs@,
{
    let mut out = String::new();
    let mut i: usize = 0;
    while i < cs.len()
        invariant
            i <= cs.len(),
            out@ == cs@.take(i as int),
        decreases cs.len() - i,
    {
        out.push(cs[i]);
        i += 1;
        assert(cs@.take(i as int) == cs@.take(i as int - 1).push(cs@[i as int - 1]));
    }
    assert(cs@.take(cs.len() as int) == cs@);
    out
}

/// Appends the characters of `tail` to `out`.
pub fn append_chars(out: &mut Vec<char>, tail: &[char])
    ensures
        final(out)@ == old(out)@ + tail@,
{
    let mut i: usize = 0;
    while i < tail.len()
        invariant
            i <= tail.len(),
            out@ == old(out)@ + tail@.take(i as int),
        decreases tail.len() - i,
    {
        out.push(tail[i]);
        i += 1;
        assert(tail@.take(i as int) == tail@.take(i as int - 1).push(tail@[i as int - 1]));
        assert(out@ =~= old(out)@ + tail@.take(i as int));
    }
    assert(tail@.take(tail.len() as int) == tail@);
}

/// Whether the characters `a` spell the word `word`.
pub fn spells(a: &[char], word: &str) -> (b: bool)
    ensures
        b == (a@ == word@),
{
    let w = chars_of(word);
    if a.len() != w.len() {
        return false;
    }
    let mut i: usize = 0;
    while i < a.len()
        invariant
            i <= a.len(),
            a.len() == w.len(),
            w@ == word@,
            forall|j: int| 0 <= j < i ==> a@[j] == w@[j],
        decreases a.len() - i,
    {
        if a[i] != w[i] {
            return false;
        }
        i += 1;
    }
    assert(a@ =~= w@);
    true
}

/// `s` without its leading white space.
pub open spec fn trim_start_spec(s: Seq<char>) -> Seq<char>
    decreases s.len(),
{
    if s.len() > 0 && is_whitespace_char(s[0]) {
        trim_start_spec(s.skip(1))
    } else {
        s
    }
}

/// `s` without its trailing white space.
pub open spec fn trim_end_spec(s: Seq<char>) -> Seq<char>
    decreases s.len(),
{
    if s.len() > 0 && is_whitespace_char(s.last()) {
        trim_end_spec(s.drop_last())
    } else {
        s
    }
}

/// `s` without its leading and trailing white space.
pub open spec fn trim_spec(s: Seq<char>) -> Seq<char> {
    trim_end_spec(trim_start_spec(s))
}

/// The characters of `s` between its leading and its trailing white space.
pub fn trim(s: &[char]) -> (out: Vec<char>)
    ensures
        out@ == trim_spec(s@),
{
    let mut from: usize = 0;
    assert(s@.skip(0) == s@);
    while from < s.len() && char_is_whitespace(s[from])
        invariant
            from <= s.len(),
            trim_start_spec(s@) == trim_start_spec(s@.skip(from as int)),
        decreases s.len() - from,
    {
        assert(s@.skip(from as int).skip(1) == s@.skip(from as int + 1));
        from += 1;
    }
    let mut to: usize = s.len();
    assert(s@.subrange(from as int, to as int) == s@.skip(from as int));
    while to > from && char_is_whitespace(s[to - 1])
        invariant
            from <= to <= s.len(),
            trim_spec(s@) == trim_end_spec(s@.subrange(from as int, to as int)),
        decreases to,
    {
        assert(s@.subrange(from as int, to as int).drop_last() == s@.subrange(
            from as int,
            to as int - 1,
        ));
        to -= 1;
    }
    let mut out: Vec<char> = Vec::new();
    let mut i: usize = from;
    while i < to
        invariant
            from <= i <= to <= s.len(),
            out@ == s@.subrange(from as int, i as int),
        decreases to - i,
    {
        out.push(s[i]);
        i += 1;
        assert(out@ =~= s@.subrange(from as int, i as int));
    }
    out
}

/// The number that the digit `c` stands for in base `radix`.
pub open spec fn digit_value(c: char, radix: u32) -> Option<u32> {
    if '0' <= c && c <= '9' {
        Some((c as u32 - 48) as u32)
    } else if radix == 16 && 'a' <= c && c <= 'f' {
        Some((c as u32 - 87) as u32)
    } else if radix == 16 && 'A' <= c && c <= 'F' {
        Some((c as u32 - 55) as u32)
    } else {
        None
    }
}

/// Whether every character of `s` is a digit of base `radix`.
pub open spec fn all_digits(s: Seq<char>, radix: u32) -> bool {
    forall|i: int| 0 <= i < s.len() ==> (#[trigger] digit_value(s[i], radix)) is Some
}

/// The number that the digits `s` spell in base `radix`.
pub open spec fn digits_value(s: Seq<char>, radix: u32) -> nat
    decreases s.len(),
{
    if s.len() == 0 {
        0
    } else {
        digits_value(s.drop_last(), radix) * (radix as nat) + match digit_value(s.last(), radix) {
            Some(d) => d as nat,
            None => 0,
        }
    }
}

/// The number that `s` spells in base 10 or 16: an optional `+`, then at
/// least one digit, the whole no larger than `u32::MAX`.
pub open spec fn parse_number_spec(s: Seq<char>, radix: u32) -> Option<u32> {
    if s.len() > 0 && s[0] == '+' {
        digits_number(s.skip(1), radix)
    } else {
        digits_number(s, radix)
    }
}

/// The number that the digits `digits` spell, where there is at least one
/// digit, nothing but digits, and the number fits.
pub open spec fn digits_number(digits: Seq<char>, radix: u32) -> Option<u32> {
    if digits.len() > 0 && all_digits(digits, radix) && digits_value(digits, radix) <= u32::MAX {
        Some(digits_value(digits, radix) as u32)
    } else {
        None
    }
}

/// A number never gets smaller when digits are appended to it.
pub proof fn lemma_digits_value_grows(s: Seq<char>, radix: u32, k: int)
    requires
        0 <= k <= s.len(),
        radix >= 1,
    ensures
        digits_value(s.take(k), radix) <= digits_value(s, radix),
    decreases s.len(),
{
    if k == s.len() {
        assert(s.take(k) == s);
    } else {
        lemma_digits_value_grows(s.drop_last(), radix, k);
        assert(s.drop_last().take(k) == s.take(k));
        let v = digits_value(s.drop_last(), radix);
        assert(v * (radix as nat) >= v) by (nonlinear_arith)
            requires
                radix >= 1,
        ;
    }
}

fn digit_of(c: char, radix: u32) -> (d: Option<u32>)
    ensures
        d == digit_value(c, radix),
{
    if '0' <= c && c <= '9' {
        Some(c as u32 - 48)
    } else if radix == 16 && 'a' <= c && c <= 'f' {
        Some(c as u32 - 87)
    } else if radix == 16 && 'A' <= c && c <= 'F' {
        Some(c as u32 - 55)
    } else {
        None
    }
}

/// Reads `s` as a number in base `radix`, which is 10 or 16.
pub(crate) fn parse_number(s: &[char], radix: u32) -> (r: Option<u32>)
    requires
        radix == 10 || radix == 16,
    ensures
        r == parse_number_spec(s@, radix),
{
    let from: usize = if s.len() > 0 && s[0] == '+' {
        1
    } else {
        0
    };
    let ghost digits = s@.skip(from as int);
    assert(s@.skip(0) == s@);
    if from == s.len() {
        return None;
    }
    let mut acc: u64 = 0;
    let mut i: usize = from;
    while i < s.len()
        invariant
            from <= i <= s.len(),
            radix == 10 || radix == 16,
            digits == s@.skip(from as int),
            digits.len() > 0,
            parse_number_spec(s@, radix) == digits_number(digits, radix),
            all_digits(digits.take(i - from), radix),
            acc == digits_value(digits.take(i - from), radix),
            acc <= u32::MAX,
        decreases s.len() - i,
    {
        let ghost next = digits.take(i - from + 1);
        assert(next.drop_last() == digits.take(i - from));
        assert(next.last() == s@[i as int]);
        match digit_of(s[i], radix) {
            None => {
                assert(digit_value(digits[i - from], radix) is None);
                return None;
            },
            Some(d) => {
                assert(acc * (radix as u64) <= 0xFFFF_FFFF * 16) by (nonlinear_arith)
                    requires
                        acc <= 0xFFFF_FFFF,
                        radix <= 16,
                ;
                let wide: u64 = acc * (radix as u64) + (d as u64);
                assert(wide == digits_value(next, radix));
                if wide > 0xFFFF_FFFF {
                    proof {
                        if all_digits(digits, radix) {
                            lemma_digits_value_grows(digits, radix, i - from + 1);
                        }
                    }
                    return None;
                }
                assert forall|j: int| 0 <= j < next.len() implies (#[trigger] digit_value(
                    next[j],
                    radix,
                )) is Some by {
                    if j < next.len() - 1 {
                        assert(next[j] == digits.take(i - from)[j]);
                    }
                }
                acc = wide;
            },
        }
        i += 1;
    }
    assert(digits.take(i - from) == digits);
    Some(acc as u32)
}

/// Whether `pattern` stands in `s` at index `i`.
pub open spec fn occurs_at(s: Seq<char>, pattern: Seq<char>, i: int) -> bool {
    0 <= i && i + pattern.len() <= s.len() && s.subrange(i, i + pattern.len()) == pattern
}

/// The first index at or after `from` at which `pattern` stands in `s`.
pub open spec fn search(s: Seq<char>, pattern: Seq<char>, from: int) -> Option<int>
    decreases s.len() - from + 1,
{
    if from < 0 || from + pattern.len() > s.len() {
        None
    } else if occurs_at(s, pattern, from) {
        Some(from)
    } else {
        search(s, pattern, from + 1)
    }
}

/// Whether `pattern` stands anywhere in `s`.
pub open spec fn contains(s: Seq<char>, pattern: Seq<char>) -> bool {
    search(s, pattern, 0) is Some
}

fn stands_at(s: &[char], pattern: &[char], i: usize) -> (b: bool)
    requires
        i + pattern.len() <= s.len(),
    ensures
        b == occurs_at(s@, pattern@, i as int),
{
    let mut k: usize = 0;
    while k < pattern.len()
        invariant
            k <= pattern.len(),
            i + pattern.len() <= s.len(),
            forall|j: int| 0 <= j < k ==> s@[i + j] == pattern@[j],
        decreases pattern.len() - k,
    {
        if s[i + k] != pattern[k] {
            assert(s@.subrange(i as int, i + pattern@.len())[k as int] != pattern@[k as int]);
            return false;
        }
        k += 1;
    }
    assert(s@.subrange(i as int, i + pattern@.len()) =~= pattern@);
    true
}

/// The first index at or after `from` at which `pattern` stands in `s`.
pub fn find_from(s: &[char], pattern: &[char], from: usize) -> (at: Option<usize>)
    ensures
        match at {
            Some(i) => search(s@, pattern@, from as int) == Some(i as int) && from <= i && i
                + pattern@.len() <= s@.len(),
            None => search(s@, pattern@, from as int) is None,
        },
{
    if from > s.len() || pattern.len() > s.len() - from {
        return None;
    }
    if pattern.len() == 0 {
        assert(s@.subrange(from as int, from as int) =~= pattern@);
        return Some(from);
    }
    let mut i: usize = from;
    while i <= s.len() - pattern.len()
        invariant
            from <= i,
            0 < pattern.len() <= s.len(),
            search(s@, pattern@, from as int) == search(s@, pattern@, i as int),
        decreases s.len() - i,
    {
        if stands_at(s, pattern, i) {
            return Some(i);
        }
        i += 1;
    }
    None
}

/// The first index at which `pattern` stands in `s`.
pub fn find(s: &[char], pattern: &[char]) -> (at: Option<usize>)
    ensures
        match at {
            Some(i) => search(s@, pattern@, 0) == Some(i as int) && i + pattern@.len() <= s@.len(),
            None => search(s@, pattern@, 0) is None,
        },
{
    find_from(s, pattern, 0)
}

/// What is found stands at or after the place where the search began, and
/// within the text.
pub proof fn lemma_search_bounds(s: Seq<char>, pattern: Seq<char>, from: int)
    ensures
        search(s, pattern, from) matches Some(at) ==> from <= at && at + pattern.len() <= s.len()
            && occurs_at(s, pattern, at),
    decreases s.len() - from + 1,
{
    if !(from < 0 || from + pattern.len() > s.len()) && !occurs_at(s, pattern, from) {
        lemma_search_bounds(s, pattern, from + 1);
    }
}

} // verus!
