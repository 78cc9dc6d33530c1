use crate::text::{char_is_whitespace, chars_of, is_whitespace_char, string_of, trim, trim_spec};
use vstd::prelude::*;
use vstd::slice::slice_subrange;

verus! {

/// Whether `c` is a letter or a digit of any script, as
/// `char::is_alphanumeric` of std reports it.
pub uninterp spec fn is_alphanumeric_char(c: char) -> bool;

/// `char::is_alphanumeric` of std: the result is named, not spelled out,
/// since the letters and digits are tables of the Unicode standard.
#[verifier::external_body]
fn char_is_alphanumeric(c: char) -> (b: bool)
    ensures
        b == is_alphanumeric_char(c),
{
    c.is_alphanumeric()
}

/// Whether `c` may stay in a file name: a letter, a digit, a space, `-`,
/// `_` or `.`.
pub open spec fn is_kept(c: char) -> bool {
    is_alphanumeric_char(c) || c == ' ' || c == '-' || c == '_' || c == '.'
}

/// `s` with `_` in place of every character that may not stay.
pub open spec fn replaced(s: Seq<char>) -> Seq<char> {
    s.map_values(|c: char| if is_kept(c) { c } else { '_' })
}

/// `s` with one `_` in place of every run of white space.
pub open spec fn runs_joined(s: Seq<char>) -> Seq<char>
    decreases s.len(),
{
    if s.len() == 0 {
        Seq::empty()
    } else if !is_whitespace_char(s.last()) {
        runs_joined(s.drop_last()).push(s.last())
    } else if s.len() >= 2 && is_whitespace_char(s[s.len() - 2]) {
        runs_joined(s.drop_last())
    } else {
        runs_joined(s.drop_last()).push('_')
    }
}

/// `s` with one `_` in place of every run of `_`.
pub open spec fn collapsed(s: Seq<char>) -> Seq<char>
    decreases s.len(),
{
    if s.len() == 0 {
        Seq::empty()
    } else {
        let before = collapsed(s.drop_last());
        if s.last() == '_' && before.len() > 0 && before.last() == '_' {
            before
        } else {
            before.push(s.last())
        }
    }
}

/// The number of bytes that `c` takes in UTF-8.
pub open spec fn utf8_len(c: char) -> nat {
    if (c as u32) < 0x80 {
        1
    } else if (c as u32) < 0x800 {
        2
    } else if (c as u32) < 0x10000 {
        3
    } else {
        4
    }
}

/// The number of bytes that `s` takes in UTF-8.
pub open spec fn byte_len(s: Seq<char>) -> nat
    decreases s.len(),
{
    if s.len() == 0 {
        0
    } else {
        byte_len(s.drop_last()) + utf8_len(s.last())
    }
}

/// The most bytes that a name may take.
pub open spec fn name_limit() -> nat {
    200
}

/// How many characters of `s` fit in `limit` bytes.
pub open spec fn fitting(s: Seq<char>, limit: nat) -> nat
    decreases s.len(),
{
    if s.len() == 0 || byte_len(s) <= limit {
        s.len()
    } else {
        fitting(s.drop_last(), limit)
    }
}

/// `s` without the `_`s at its end.
pub open spec fn without_trailing_underscores(s: Seq<char>) -> Seq<char>
    decreases s.len(),
{
    if s.len() > 0 && s.last() == '_' {
        without_trailing_underscores(s.drop_last())
    } else {
        s
    }
}

/// The title made ready to be cut: unfit characters replaced, white space
/// trimmed, every run of white space and every run of `_` made one `_`.
pub open spec fn cleaned(title: Seq<char>) -> Seq<char> {
    collapsed(runs_joined(trim_spec(replaced(title))))
}

/// Whether the cleaned title can be cut at the limit: it fits, or one of
/// its characters ends exactly at the limit.
pub open spec fn cuts_cleanly(title: Seq<char>) -> bool {
    let name = cleaned(title);
    byte_len(name) <= name_limit() || byte_len(name.take(fitting(name, name_limit()) as int))
        == name_limit()
}

/// The file name for `title`: the cleaned title, cut to the limit of bytes,
/// without `_` at its end.
pub open spec fn sanitized(title: Seq<char>) -> Seq<char> {
    let name = cleaned(title);
    without_trailing_underscores(name.take(fitting(name, name_limit()) as int))
}

fn len_utf8(c: char) -> (n: usize)
    ensures
        n == utf8_len(c),
        1 <= n <= 4,
{
    let code = c as u32;
    if code < 0x80 {
        1
    } else if code < 0x800 {
        2
    } else if code < 0x10000 {
        3
    } else {
        4
    }
}

fn clean(title: &[char]) -> (name: Vec<char>)
    ensures
        name@ == cleaned(title@),
{
    let mut kept: Vec<char> = Vec::new();
    let mut i: usize = 0;
    while i < title.len()
        invariant
            i <= title.len(),
            kept@ == replaced(title@.take(i as int)),
        decreases title.len() - i,
    {
        let c = title[i];
        let keep = char_is_alphanumeric(c) || c == ' ' || c == '-' || c == '_' || c == '.';
        kept.push(if keep {
            c
        } else {
            '_'
        });
        i += 1;
        assert(kept@ =~= replaced(title@.take(i as int)));
    }
    assert(title@.take(title.len() as int) == title@);
    let trimmed = trim(kept.as_slice());
    let mut joined: Vec<char> = Vec::new();
    let mut j: usize = 0;
    while j < trimmed.len()
        invariant
            j <= trimmed.len(),
            joined@ == runs_joined(trimmed@.take(j as int)),
        decreases trimmed.len() - j,
    {
        let ghost now = trimmed@.take(j as int + 1);
        assert(now.drop_last() == trimmed@.take(j as int));
        let c = trimmed[j];
        if !char_is_whitespace(c) {
            joined.push(c);
        } else if j >= 1 && char_is_whitespace(trimmed[j - 1]) {
            assert(now[now.len() - 2] == trimmed@[j - 1]);
        } else {
            if j >= 1 {
                assert(now[now.len() - 2] == trimmed@[j - 1]);
            }
            joined.push('_');
        }
        j += 1;
    }
    assert(trimmed@.take(trimmed.len() as int) == trimmed@);
    let mut name: Vec<char> = Vec::new();
    let mut k: usize = 0;
    while k < joined.len()
        invariant
            k <= joined.len(),
            name@ == collapsed(joined@.take(k as int)),
        decreases joined.len() - k,
    {
        assert(joined@.take(k as int + 1).drop_last() == joined@.take(k as int));
        let c = joined[k];
        let doubled = c == '_' && name.len() > 0 && name[name.len() - 1] == '_';
        if !doubled {
            name.push(c);
        }
        k += 1;
    }
    assert(joined@.take(joined.len() as int) == joined@);
    name
}

/// Taking characters off the end never adds bytes.
pub proof fn lemma_byte_len_grows(s: Seq<char>, k: int)
    requires
        0 <= k <= s.len(),
    ensures
        byte_len(s.take(k)) <= byte_len(s),
    decreases s.len(),
{
    if k == s.len() {
        assert(s.take(k) == s);
    } else {
        lemma_byte_len_grows(s.drop_last(), k);
        assert(s.drop_last().take(k) == s.take(k));
    }
}

/// Where the first `k` characters fit and the next one does not, `k`
/// characters is what fits.
pub proof fn lemma_fitting(s: Seq<char>, limit: nat, k: int)
    requires
        0 <= k <= s.len(),
        byte_len(s.take(k)) <= limit,
        k < s.len() ==> byte_len(s.take(k + 1)) > limit,
    ensures
        fitting(s, limit) == k,
    decreases s.len(),
{
    if k == s.len() {
        assert(s.take(k) == s);
    } else {
        lemma_byte_len_grows(s, k + 1);
        let shorter = s.drop_last();
        assert(shorter.take(k) == s.take(k));
        if k < shorter.len() {
            assert(shorter.take(k + 1) == s.take(k + 1));
        }
        lemma_fitting(shorter, limit, k);
    }
}

/// How many characters of the name fit in the limit, and how many bytes
/// they take.
fn measure(name: &[char]) -> (r: (usize, usize))
    ensures
        r.0 == fitting(name@, name_limit()),
        r.0 <= name.len(),
        r.1 == byte_len(name@.take(r.0 as int)),
        r.1 <= name_limit(),
        (r.0 == name.len()) == (byte_len(name@) <= name_limit()),
{
    let mut count: usize = 0;
    let mut bytes: usize = 0;
    while count < name.len()
        invariant
            count <= name.len(),
            bytes == byte_len(name@.take(count as int)),
            bytes <= 200,
        decreases name.len() - count,
    {
        let width = len_utf8(name[count]);
        assert(name@.take(count as int + 1).drop_last() == name@.take(count as int));
        if bytes + width > 200 {
            proof {
                lemma_fitting(name@, name_limit(), count as int);
                lemma_byte_len_grows(name@, count as int + 1);
            }
            return (count, bytes);
        }
        bytes += width;
        count += 1;
    }
    proof {
        lemma_fitting(name@, name_limit(), count as int);
        assert(name@.take(count as int) == name@);
    }
    (count, bytes)
}

fn finish(name: &[char], count: usize) -> (out: String)
    requires
        count <= name.len(),
    ensures
        out@ == without_trailing_underscores(name@.take(count as int)),
{
    let mut end: usize = count;
    while end > 0 && name[end - 1] == '_'
        invariant
            end <= count <= name.len(),
            without_trailing_underscores(name@.take(count as int)) == without_trailing_underscores(
                name@.take(end as int),
            ),
        decreases end,
    {
        assert(name@.take(end as int).drop_last() == name@.take(end as int - 1));
        end -= 1;
    }
    string_of(slice_subrange(name, 0, end))
}

/// The file name for `title`. Characters that are no letter, digit, space,
/// `-`, `_` or `.` become `_`; white space at the ends goes; every run of
/// white space and every run of `_` becomes one `_`; the name is cut to 200
/// bytes; `_`s at its end go. The cut must not fall inside a character.
pub fn sanitize_filename(title: &str) -> (name: String)
    requires
        cuts_cleanly(title@),
    ensures
        name@ == sanitized(title@),
{
    let chars = chars_of(title);
    let name = clean(chars.as_slice());
    let (count, _) = measure(name.as_slice());
    finish(name.as_slice(), count)
}

/// The file name for `title`, or `None` where the cut at 200 bytes would
/// fall inside a character.
pub fn try_sanitize_filename(title: &str) -> (name: Option<String>)
    ensures
        match name {
            Some(n) => cuts_cleanly(title@) && n@ == sanitized(title@),
            None => !cuts_cleanly(title@),
        },
{
    let chars = chars_of(title);
    let name = clean(chars.as_slice());
    let (count, bytes) = measure(name.as_slice());
    if count == name.len() || bytes == 200 {
        Some(sanitize_filename(title))
    } else {
        None
    }
}

} // verus!
