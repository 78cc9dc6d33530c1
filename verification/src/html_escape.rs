use crate::text::{append_chars, chars_of, parse_number, parse_number_spec, scalar_char, spells, string_of};
use vstd::prelude::*;
use vstd::slice::slice_subrange;

verus! {

/// The character that a numeric reference names: `#` and decimal digits, or
/// `#x` (or `#X`) and hexadecimal digits, spelling a Unicode scalar value.
pub open spec fn numeric_reference(entity: Seq<char>) -> Option<char> {
    if entity.len() >= 2 && entity[0] == '#' && (entity[1] == 'x' || entity[1] == 'X') {
        match parse_number_spec(entity.skip(2), 16) {
            Some(n) => scalar_char(n),
            None => None,
        }
    } else if entity.len() >= 1 && entity[0] == '#' {
        match parse_number_spec(entity.skip(1), 10) {
            Some(n) => scalar_char(n),
            None => None,
        }
    } else {
        None
    }
}

/// What the entity called `entity` (the text between `&` and `;`) decodes
/// to. A name that is not known, or a numeric reference that names no
/// character, stays as it was written: `&`, the name, `;`.
pub open spec fn decode_entity_spec(entity: Seq<char>) -> Seq<char> {
    if entity == "quot"@ {
        seq!['"']
    } else if entity == "amp"@ {
        seq!['&']
    } else if entity == "apos"@ {
        seq!['\'']
    } else if entity == "lt"@ {
        seq!['<']
    } else if entity == "gt"@ {
        seq!['>']
    } else if entity == "nbsp"@ {
        seq![' ']
    } else {
        match numeric_reference(entity) {
            Some(c) => seq![c],
            None => seq!['&'] + entity + seq![';'],
        }
    }
}

/// How many characters of `s` stand before its first `;`, or the length of
/// `s` where it holds none.
pub open spec fn entity_len(s: Seq<char>) -> nat
    decreases s.len(),
{
    if s.len() == 0 || s[0] == ';' {
        0
    } else {
        1 + entity_len(s.skip(1))
    }
}

/// The text `s` with each entity decoded. An entity starts at `&` and runs
/// to the next `;`. An `&` that no `;` follows is no entity: it stays as it
/// is, and what follows it is decoded in its turn.
pub open spec fn decode_spec(s: Seq<char>) -> Seq<char>
    decreases s.len(),
{
    if s.len() == 0 {
        Seq::empty()
    } else if s[0] != '&' {
        seq![s[0]] + decode_spec(s.skip(1))
    } else {
        let rest = s.skip(1);
        let n = entity_len(rest) as int;
        if n < rest.len() {
            decode_entity_spec(rest.take(n)) + decode_spec(rest.skip(n + 1))
        } else {
            seq!['&'] + decode_spec(rest)
        }
    }
}

fn decode_entity_chars(entity: &[char]) -> (out: Vec<char>)
    ensures
        out@ == decode_entity_spec(entity@),
{
    if spells(entity, "quot") {
        vec!['"']
    } else if spells(entity, "amp") {
        vec!['&']
    } else if spells(entity, "apos") {
        vec!['\'']
    } else if spells(entity, "lt") {
        vec!['<']
    } else if spells(entity, "gt") {
        vec!['>']
    } else if spells(entity, "nbsp") {
        vec![' ']
    } else {
        let named: Option<char> = if entity.len() >= 2 && entity[0] == '#' && (entity[1] == 'x'
            || entity[1] == 'X') {
            let digits = slice_subrange(entity, 2, entity.len());
            match parse_number(digits, 16) {
                Some(n) => char::from_u32(n),
                None => None,
            }
        } else if entity.len() >= 1 && entity[0] == '#' {
            let digits = slice_subrange(entity, 1, entity.len());
            match parse_number(digits, 10) {
                Some(n) => char::from_u32(n),
                None => None,
            }
        } else {
            None
        };
        match named {
            Some(c) => vec![c],
            None => {
                let mut out: Vec<char> = vec!['&'];
                append_chars(&mut out, entity);
                out.push(';');
                assert(out@ =~= seq!['&'] + entity@ + seq![';']);
                out
            },
        }
    }
}

/// Decodes one entity, given without its `&` and `;`.
pub fn decode_entity(entity: &str) -> (out: String)
    ensures
        out@ == decode_entity_spec(entity@),
{
    let chars = chars_of(entity);
    let decoded = decode_entity_chars(chars.as_slice());
    string_of(decoded.as_slice())
}

/// Decodes the entities in the characters `s`.
pub fn decode_chars(s: &[char]) -> (out: Vec<char>)
    ensures
        out@ == decode_spec(s@),
{
    let mut out: Vec<char> = Vec::new();
    let mut i: usize = 0;
    // From `clear` on the text holds no `;`: it need not be searched again.
    let mut clear: usize = s.len();
    assert(s@.skip(0) == s@);
    while i < s.len()
        invariant
            i <= s.len(),
            clear <= s.len(),
            forall|k: int| clear <= k < s.len() ==> #[trigger] s@[k] != ';',
            decode_spec(s@) == out@ + decode_spec(s@.skip(i as int)),
        decreases s.len() - i,
    {
        let ghost here = s@.skip(i as int);
        let ghost before = out@;
        if s[i] != '&' {
            out.push(s[i]);
            assert(here.skip(1) == s@.skip(i as int + 1));
            assert(out@ + decode_spec(here.skip(1)) =~= before + (seq![here[0]] + decode_spec(
                here.skip(1),
            )));
            i += 1;
        } else {
            let ghost rest = here.skip(1);
            assert(rest == s@.skip(i as int + 1));
            let mut j: usize = if i + 1 >= clear {
                s.len()
            } else {
                i + 1
            };
            proof {
                if i + 1 >= clear {
                    assert forall|k: int| 0 <= k < rest.len() implies #[trigger] rest[k] != ';' by {
                        assert(rest[k] == s@[i + 1 + k]);
                    }
                    lemma_entity_len_whole(rest);
                    assert(rest.skip(rest.len() as int).len() == 0);
                } else {
                    assert(rest.skip(0) == rest);
                }
            }
            while j < s.len() && s[j] != ';'
                invariant
                    i < j <= s.len(),
                    rest == s@.skip(i as int + 1),
                    entity_len(rest) == (j - i - 1) + entity_len(rest.skip(j - i - 1)),
                    forall|k: int| i < k < j && k < clear ==> #[trigger] s@[k] != ';',
                decreases s.len() - j,
            {
                assert(rest.skip(j - i - 1).skip(1) == rest.skip(j - i));
                j += 1;
            }
            let ghost n = (j - i - 1) as int;
            assert(entity_len(rest) == n);
            if j < s.len() {
                let entity = slice_subrange(s, i + 1, j);
                assert(entity@ == rest.take(n));
                let decoded = decode_entity_chars(entity);
                append_chars(&mut out, decoded.as_slice());
                assert(rest.skip(n + 1) == s@.skip(j as int + 1));
                assert(out@ + decode_spec(rest.skip(n + 1)) =~= before + (decode_entity_spec(
                    rest.take(n),
                ) + decode_spec(rest.skip(n + 1))));
                i = j + 1;
            } else {
                out.push('&');
                assert(out@ + decode_spec(rest) =~= before + (seq!['&'] + decode_spec(rest)));
                if i + 1 < clear {
                    clear = i + 1;
                }
                i += 1;
            }
        }
    }
    assert(decode_spec(s@.skip(i as int)) =~= Seq::<char>::empty());
    assert(out@ + Seq::<char>::empty() =~= out@);
    out
}

/// Decodes the HTML entities of `s`: the six names `quot`, `amp`, `apos`,
/// `lt`, `gt` and `nbsp`, and decimal and hexadecimal character references.
/// Anything else between `&` and `;` is left as it was written, and so is
/// an `&` that no `;` follows: nothing is ever added to the text.
pub fn decode_html_entities(s: &str) -> (out: String)
    ensures
        out@ == decode_spec(s@),
{
    let chars = chars_of(s);
    let decoded = decode_chars(chars.as_slice());
    string_of(decoded.as_slice())
}


/// A text that holds no `&` is left as it is.
pub proof fn law_plain_text_is_unchanged(s: Seq<char>)
    requires
        forall|i: int| 0 <= i < s.len() ==> #[trigger] s[i] != '&',
    ensures
        decode_spec(s) == s,
    decreases s.len(),
{
    if s.len() > 0 {
        assert(s[0] != '&');
        let rest = s.skip(1);
        assert forall|i: int| 0 <= i < rest.len() implies #[trigger] rest[i] != '&' by {
            assert(rest[i] == s[i + 1]);
        }
        law_plain_text_is_unchanged(rest);
        assert(seq![s[0]] + rest =~= s);
    } else {
        assert(decode_spec(s) =~= s);
    }
}

/// A name that is none of the six known and no numeric reference comes
/// back as it was written, between `&` and `;`.
pub proof fn law_unknown_entity_is_kept(entity: Seq<char>)
    requires
        entity != "quot"@,
        entity != "amp"@,
        entity != "apos"@,
        entity != "lt"@,
        entity != "gt"@,
        entity != "nbsp"@,
        entity.len() == 0 || entity[0] != '#',
    ensures
        decode_entity_spec(entity) == seq!['&'] + entity + seq![';'],
{
}


/// A text that holds no `;` holds no entity, and is left as it is.
pub proof fn law_text_without_semicolon_is_unchanged(s: Seq<char>)
    requires
        forall|i: int| 0 <= i < s.len() ==> #[trigger] s[i] != ';',
    ensures
        decode_spec(s) == s,
    decreases s.len(),
{
    if s.len() > 0 {
        let rest = s.skip(1);
        assert forall|i: int| 0 <= i < rest.len() implies #[trigger] rest[i] != ';' by {
            assert(rest[i] == s[i + 1]);
        }
        law_text_without_semicolon_is_unchanged(rest);
        lemma_entity_len_whole(rest);
        assert(seq![s[0]] + rest =~= s);
    } else {
        assert(decode_spec(s) =~= s);
    }
}

/// Where a text holds no `;`, the search for one runs to its end.
proof fn lemma_entity_len_whole(s: Seq<char>)
    requires
        forall|i: int| 0 <= i < s.len() ==> #[trigger] s[i] != ';',
    ensures
        entity_len(s) == s.len(),
    decreases s.len(),
{
    if s.len() > 0 {
        let rest = s.skip(1);
        assert(s[0] != ';');
        assert forall|i: int| 0 <= i < rest.len() implies #[trigger] rest[i] != ';' by {
            assert(rest[i] == s[i + 1]);
        }
        lemma_entity_len_whole(rest);
    }
}

/// Decoding never adds to a text: what comes out is no longer than what
/// went in.
pub proof fn law_decoding_never_grows(s: Seq<char>)
    ensures
        decode_spec(s).len() <= s.len(),
    decreases s.len(),
{
    if s.len() > 0 {
        let rest = s.skip(1);
        if s[0] != '&' {
            law_decoding_never_grows(rest);
        } else {
            let n = entity_len(rest) as int;
            if n < rest.len() {
                law_decoding_never_grows(rest.skip(n + 1));
                assert(decode_entity_spec(rest.take(n)).len() <= n + 2);
            } else {
                law_decoding_never_grows(rest);
            }
        }
    }
}

} // verus!
