use crate::error::TranscriptError;
use crate::text::{chars_of, spells, string_of};
use vstd::prelude::*;
use vstd::slice::slice_subrange;
use vstd::string::*;

verus! {

/// Whether `c` may stand in an identifier: an ASCII letter or digit, `-` or
/// `_`.
pub open spec fn is_id_char(c: char) -> bool {
    ('a' <= c && c <= 'z') || ('A' <= c && c <= 'Z') || ('0' <= c && c <= '9') || c == '-' || c
        == '_'
}

/// Whether every character of `s` may stand in an identifier.
pub open spec fn all_id_chars(s: Seq<char>) -> bool {
    forall|i: int| 0 <= i < s.len() ==> is_id_char(#[trigger] s[i])
}

/// The grammar of a video identifier: eleven identifier characters.
pub open spec fn is_video_id(s: Seq<char>) -> bool {
    s.len() == 11 && all_id_chars(s)
}

/// The grammar of a playlist identifier: identifier characters, at least
/// one.
pub open spec fn is_playlist_id(s: Seq<char>) -> bool {
    s.len() > 0 && all_id_chars(s)
}

/// The places at which a part of a URL ends.
#[derive(Clone, Copy, PartialEq, Eq, Structural, Debug)]
pub enum Stop {
    /// The host ends at `/`, `?` or `#`.
    Host,
    /// The path ends at `?` or `#`.
    Path,
    /// The query ends at `#`.
    Query,
    /// A path segment ends at `/`.
    Segment,
    /// A query parameter ends at `&`.
    Parameter,
    /// The name of a query parameter ends at `=`.
    Name,
}

/// Whether a part of kind `kind` ends at the character `c`.
pub open spec fn stops(kind: Stop, c: char) -> bool {
    match kind {
        Stop::Host => c == '/' || c == '?' || c == '#',
        Stop::Path => c == '?' || c == '#',
        Stop::Query => c == '#',
        Stop::Segment => c == '/',
        Stop::Parameter => c == '&',
        Stop::Name => c == '=',
    }
}

/// How many characters of `s` stand before the first at which a part of
/// kind `kind` ends; the length of `s` where there is none.
pub open spec fn leading_len(s: Seq<char>, kind: Stop) -> nat
    decreases s.len(),
{
    if s.len() == 0 || stops(kind, s[0]) {
        0
    } else {
        1 + leading_len(s.skip(1), kind)
    }
}

/// The part of kind `kind` with which `s` begins.
pub open spec fn leading_part(s: Seq<char>, kind: Stop) -> Seq<char> {
    s.take(leading_len(s, kind) as int)
}

/// What follows the part of kind `kind` with which `s` begins.
pub open spec fn after_leading(s: Seq<char>, kind: Stop) -> Seq<char> {
    s.skip(leading_len(s, kind) as int)
}

/// A leading part ends within its text, at a stop where it ends early, and
/// holds no stop.
pub proof fn lemma_leading_len(s: Seq<char>, kind: Stop)
    ensures
        leading_len(s, kind) <= s.len(),
        leading_len(s, kind) < s.len() ==> stops(kind, s[leading_len(s, kind) as int]),
        forall|i: int| 0 <= i < leading_len(s, kind) ==> !stops(kind, #[trigger] s[i]),
    decreases s.len(),
{
    if s.len() == 0 || stops(kind, s[0]) {
    } else {
        lemma_leading_len(s.skip(1), kind);
        assert forall|i: int| 0 <= i < leading_len(s, kind) implies !stops(kind, #[trigger] s[i]) by {
            if i > 0 {
                assert(s[i] == s.skip(1)[i - 1]);
            }
        }
    }
}

/// `s` without the scheme `https://` or `http://`, where it has one.
pub open spec fn without_scheme(s: Seq<char>) -> Seq<char> {
    if "https://"@.is_prefix_of(s) {
        s.skip(8)
    } else if "http://"@.is_prefix_of(s) {
        s.skip(7)
    } else {
        s
    }
}

/// The value of the first parameter of `query` that is called `key` and has
/// a `=`. The parameters stand between `&`s.
pub open spec fn query_value(query: Seq<char>, key: Seq<char>) -> Option<Seq<char>>
    decreases query.len(),
    via query_value_decreases
{
    let parameter = leading_part(query, Stop::Parameter);
    let name = leading_part(parameter, Stop::Name);
    if name == key && name.len() < parameter.len() {
        Some(parameter.skip(name.len() as int + 1))
    } else if parameter.len() < query.len() {
        query_value(query.skip(parameter.len() as int + 1), key)
    } else {
        None
    }
}

#[via_fn]
proof fn query_value_decreases(query: Seq<char>, key: Seq<char>) {
    lemma_leading_len(query, Stop::Parameter);
}

/// The host of the URL `s`: what follows the scheme, up to `/`, `?` or `#`.
pub open spec fn host_of(s: Seq<char>) -> Seq<char> {
    leading_part(without_scheme(s), Stop::Host)
}

/// The path of the URL `s`: what follows the host, up to `?` or `#`.
pub open spec fn path_of(s: Seq<char>) -> Seq<char> {
    leading_part(after_leading(without_scheme(s), Stop::Host), Stop::Path)
}

/// The query of the URL `s`: what follows the `?` after the path, up to
/// `#`; empty where there is no `?`.
pub open spec fn query_of(s: Seq<char>) -> Seq<char> {
    let rest = after_leading(after_leading(without_scheme(s), Stop::Host), Stop::Path);
    if rest.len() > 0 && rest[0] == '?' {
        leading_part(rest.skip(1), Stop::Query)
    } else {
        Seq::empty()
    }
}

/// The hosts of the watch page and of the embedded player.
pub open spec fn is_site_host(host: Seq<char>) -> bool {
    host == "www.youtube.com"@ || host == "youtube.com"@ || host == "m.youtube.com"@
}

/// The host of short links.
pub open spec fn is_short_host(host: Seq<char>) -> bool {
    host == "youtu.be"@
}

/// What a URL offers as a video identifier, before it is held to the
/// grammar. A short link offers the first segment of its path; an embed URL
/// the segment after `/embed/`; a watch URL the value of its parameter `v`.
pub open spec fn candidate_in_url(s: Seq<char>) -> Option<Seq<char>> {
    let host = host_of(s);
    let path = path_of(s);
    if is_short_host(host) && "/"@.is_prefix_of(path) {
        Some(leading_part(path.skip(1), Stop::Segment))
    } else if is_site_host(host) && "/embed/"@.is_prefix_of(path) {
        Some(leading_part(path.skip(7), Stop::Segment))
    } else if is_site_host(host) && path == "/watch"@ {
        query_value(query_of(s), "v"@)
    } else {
        None
    }
}

/// The video identifier that `input` names: `input` itself where it is one,
/// else what it offers as a URL, where that is one.
pub open spec fn video_id_of(input: Seq<char>) -> Option<Seq<char>> {
    if is_video_id(input) {
        Some(input)
    } else {
        match candidate_in_url(input) {
            Some(candidate) if is_video_id(candidate) => Some(candidate),
            _ => None,
        }
    }
}

/// The playlist identifier that `input` names: `input` itself where it is
/// one, else the value of the parameter `list` of the URL, where that is one.
pub open spec fn playlist_id_of(input: Seq<char>) -> Option<Seq<char>> {
    if is_playlist_id(input) {
        Some(input)
    } else {
        match query_value(query_of(input), "list"@) {
            Some(candidate) if is_playlist_id(candidate) => Some(candidate),
            _ => None,
        }
    }
}

fn id_char(c: char) -> (b: bool)
    ensures
        b == is_id_char(c),
{
    ('a' <= c && c <= 'z') || ('A' <= c && c <= 'Z') || ('0' <= c && c <= '9') || c == '-' || c
        == '_'
}

fn only_id_chars(s: &[char]) -> (b: bool)
    ensures
        b == all_id_chars(s@),
{
    let mut i: usize = 0;
    while i < s.len()
        invariant
            i <= s.len(),
            forall|j: int| 0 <= j < i ==> is_id_char(#[trigger] s@[j]),
        decreases s.len() - i,
    {
        if !id_char(s[i]) {
            return false;
        }
        i += 1;
    }
    true
}

fn stops_at(kind: Stop, c: char) -> (b: bool)
    ensures
        b == stops(kind, c),
{
    match kind {
        Stop::Host => c == '/' || c == '?' || c == '#',
        Stop::Path => c == '?' || c == '#',
        Stop::Query => c == '#',
        Stop::Segment => c == '/',
        Stop::Parameter => c == '&',
        Stop::Name => c == '=',
    }
}

fn leading_length(s: &[char], kind: Stop) -> (n: usize)
    ensures
        n == leading_len(s@, kind),
        n <= s.len(),
{
    let mut n: usize = 0;
    assert(s@.skip(0) == s@);
    while n < s.len() && !stops_at(kind, s[n])
        invariant
            n <= s.len(),
            leading_len(s@, kind) == n + leading_len(s@.skip(n as int), kind),
        decreases s.len() - n,
    {
        assert(s@.skip(n as int).skip(1) == s@.skip(n as int + 1));
        n += 1;
    }
    n
}

fn split_leading(s: &[char], kind: Stop) -> (parts: (&[char], &[char]))
    ensures
        parts.0@ == leading_part(s@, kind),
        parts.1@ == after_leading(s@, kind),
{
    let n = leading_length(s, kind);
    (slice_subrange(s, 0, n), slice_subrange(s, n, s.len()))
}

fn begins_with(s: &[char], prefix: &str) -> (b: bool)
    ensures
        b == prefix@.is_prefix_of(s@),
{
    let n = prefix.unicode_len();
    if n > s.len() {
        return false;
    }
    spells(slice_subrange(s, 0, n), prefix)
}

fn strip_scheme(s: &[char]) -> (out: &[char])
    ensures
        out@ == without_scheme(s@),
{
    proof {
        reveal_strlit("https://");
        reveal_strlit("http://");
    }
    if begins_with(s, "https://") {
        slice_subrange(s, 8, s.len())
    } else if begins_with(s, "http://") {
        slice_subrange(s, 7, s.len())
    } else {
        s
    }
}

fn find_query_value<'a>(query: &'a [char], key: &str) -> (value: Option<&'a [char]>)
    ensures
        match value {
            Some(v) => query_value(query@, key@) == Some(v@),
            None => query_value(query@, key@) is None,
        },
{
    let mut rest: &[char] = query;
    loop
        invariant
            query_value(query@, key@) == query_value(rest@, key@),
        decreases rest.len(),
    {
        proof {
            lemma_leading_len(rest@, Stop::Parameter);
        }
        let (parameter, after) = split_leading(rest, Stop::Parameter);
        let (name, value) = split_leading(parameter, Stop::Name);
        if spells(name, key) && name.len() < parameter.len() {
            proof {
                lemma_leading_len(parameter@, Stop::Name);
            }
            let found = slice_subrange(value, 1, value.len());
            assert(found@ =~= parameter@.skip(name@.len() as int + 1));
            return Some(found);
        } else if parameter.len() < rest.len() {
            let next = slice_subrange(after, 1, after.len());
            assert(next@ =~= rest@.skip(parameter@.len() as int + 1));
            rest = next;
        } else {
            return None;
        }
    }
}

fn url_candidate<'a>(s: &'a [char]) -> (candidate: Option<&'a [char]>)
    ensures
        match candidate {
            Some(c) => candidate_in_url(s@) == Some(c@),
            None => candidate_in_url(s@) is None,
        },
{
    let bare = strip_scheme(s);
    let (host, after_host) = split_leading(bare, Stop::Host);
    let (path, after_path) = split_leading(after_host, Stop::Path);
    let site = spells(host, "www.youtube.com") || spells(host, "youtube.com") || spells(
        host,
        "m.youtube.com",
    );
    proof {
        reveal_strlit("/");
        reveal_strlit("/embed/");
    }
    if spells(host, "youtu.be") && begins_with(path, "/") {
        let (segment, _) = split_leading(slice_subrange(path, 1, path.len()), Stop::Segment);
        Some(segment)
    } else if site && begins_with(path, "/embed/") {
        let (segment, _) = split_leading(slice_subrange(path, 7, path.len()), Stop::Segment);
        Some(segment)
    } else if site && spells(path, "/watch") {
        let query = url_query(after_path);
        find_query_value(query, "v")
    } else {
        None
    }
}

fn url_query<'a>(after_path: &'a [char]) -> (query: &'a [char])
    ensures
        query@ == if after_path@.len() > 0 && after_path@[0] == '?' {
            leading_part(after_path@.skip(1), Stop::Query)
        } else {
            Seq::empty()
        },
{
    if after_path.len() > 0 && after_path[0] == '?' {
        let (query, _) = split_leading(slice_subrange(after_path, 1, after_path.len()), Stop::Query);
        query
    } else {
        slice_subrange(after_path, 0, 0)
    }
}

/// The video identifier that `input` names. `input` is an identifier
/// itself, or the URL of a watch page, a short link or an embedded player.
/// Anything else is refused as `InvalidVideoId`, with `input` in it.
pub fn extract_video_id(input: &str) -> (r: Result<String, TranscriptError>)
    ensures
        match video_id_of(input@) {
            Some(id) => r matches Ok(s) && s@ == id && is_video_id(s@),
            None => r matches Err(TranscriptError::InvalidVideoId(s)) && s@ == input@,
        },
{
    let chars = chars_of(input);
    let s = chars.as_slice();
    if s.len() == 11 && only_id_chars(s) {
        return Ok(string_of(s));
    }
    match url_candidate(s) {
        Some(candidate) => {
            if candidate.len() == 11 && only_id_chars(candidate) {
                return Ok(string_of(candidate));
            }
        },
        None => {},
    }
    Err(TranscriptError::InvalidVideoId(string_of(s)))
}

/// The playlist identifier that `input` names. `input` is an identifier
/// itself, or a URL with the parameter `list`. Anything else is refused as
/// `InvalidVideoId`, with `input` in it.
pub fn extract_playlist_id(input: &str) -> (r: Result<String, TranscriptError>)
    ensures
        match playlist_id_of(input@) {
            Some(id) => r matches Ok(s) && s@ == id && is_playlist_id(s@),
            None => r matches Err(TranscriptError::InvalidVideoId(s)) && s@ == input@,
        },
{
    let chars = chars_of(input);
    let s = chars.as_slice();
    if s.len() > 0 && only_id_chars(s) {
        return Ok(string_of(s));
    }
    let bare = strip_scheme(s);
    let (_, after_host) = split_leading(bare, Stop::Host);
    let (_, after_path) = split_leading(after_host, Stop::Path);
    let query = url_query(after_path);
    match find_query_value(query, "list") {
        Some(candidate) => {
            if candidate.len() > 0 && only_id_chars(candidate) {
                return Ok(string_of(candidate));
            }
        },
        None => {},
    }
    Err(TranscriptError::InvalidVideoId(string_of(s)))
}


/// A leading part that meets no stop takes all of `a`, and ends there where
/// `b` begins with a stop or is empty.
pub proof fn lemma_leading_prefix(a: Seq<char>, b: Seq<char>, kind: Stop)
    requires
        forall|i: int| 0 <= i < a.len() ==> !stops(kind, #[trigger] a[i]),
        b.len() > 0 ==> stops(kind, b[0]),
    ensures
        leading_len(a + b, kind) == a.len(),
        leading_part(a + b, kind) == a,
        after_leading(a + b, kind) == b,
    decreases a.len(),
{
    if a.len() > 0 {
        assert((a + b)[0] == a[0]);
        assert((a + b).skip(1) =~= a.skip(1) + b);
        assert forall|i: int| 0 <= i < a.skip(1).len() implies !stops(
            kind,
            #[trigger] a.skip(1)[i],
        ) by {
            assert(a.skip(1)[i] == a[i + 1]);
        }
        lemma_leading_prefix(a.skip(1), b, kind);
    } else {
        assert(a + b =~= b);
    }
    assert((a + b).take(a.len() as int) =~= a);
    assert((a + b).skip(a.len() as int) =~= b);
}

/// No identifier character ends any part of a URL.
pub proof fn lemma_id_chars_stop_nothing(s: Seq<char>, kind: Stop)
    requires
        all_id_chars(s),
    ensures
        forall|i: int| 0 <= i < s.len() ==> !stops(kind, #[trigger] s[i]),
        leading_len(s, kind) == s.len(),
        leading_part(s, kind) == s,
{
    assert forall|i: int| 0 <= i < s.len() implies !stops(kind, #[trigger] s[i]) by {
        assert(is_id_char(s[i]));
    }
    lemma_leading_prefix(s, Seq::empty(), kind);
    assert(s + Seq::<char>::empty() =~= s);
}

/// An identifier that stands alone is taken as it is.
pub proof fn law_bare_identifier(token: Seq<char>)
    requires
        is_video_id(token),
    ensures
        video_id_of(token) == Some(token),
{
}

/// Every short link whose path is `/` and a well-formed token names that
/// token, whatever its scheme, query and fragment.
pub proof fn law_short_link_names_its_token(input: Seq<char>, token: Seq<char>)
    requires
        is_video_id(token),
        is_short_host(host_of(input)),
        path_of(input) == "/"@ + token,
    ensures
        video_id_of(input) == Some(token),
{
    reveal_strlit("/");
    lemma_url_is_no_identifier(input);
    let path = path_of(input);
    assert(path.skip(1) =~= token);
    assert("/"@.is_prefix_of(path));
    lemma_id_chars_stop_nothing(token, Stop::Segment);
}

/// Every embed URL whose path is `/embed/` and a well-formed token names
/// that token, whatever its scheme, query and fragment.
pub proof fn law_embed_url_names_its_token(input: Seq<char>, token: Seq<char>)
    requires
        is_video_id(token),
        is_site_host(host_of(input)),
        path_of(input) == "/embed/"@ + token,
    ensures
        video_id_of(input) == Some(token),
{
    reveal_strlit("/embed/");
    reveal_strlit("/");
    reveal_strlit("youtu.be");
    reveal_strlit("www.youtube.com");
    reveal_strlit("youtube.com");
    reveal_strlit("m.youtube.com");
    lemma_url_is_no_identifier(input);
    let path = path_of(input);
    assert(path.skip(7) =~= token);
    assert(path.subrange(0, 7) =~= "/embed/"@);
    assert("/embed/"@.is_prefix_of(path));
    lemma_id_chars_stop_nothing(token, Stop::Segment);
    assert("youtu.be"@.len() == 8 && "www.youtube.com"@.len() == 15 && "youtube.com"@.len() == 11
        && "m.youtube.com"@.len() == 13);
    assert(!is_short_host(host_of(input)));
    assert(candidate_in_url(input) == Some(token));
}

/// Every watch URL whose query is `v=` and a well-formed token names that
/// token, whatever its scheme and fragment.
pub proof fn law_watch_url_names_its_token(input: Seq<char>, token: Seq<char>)
    requires
        is_video_id(token),
        is_site_host(host_of(input)),
        path_of(input) == "/watch"@,
        query_of(input) == "v="@ + token,
    ensures
        video_id_of(input) == Some(token),
{
    reveal_strlit("/watch");
    reveal_strlit("/embed/");
    reveal_strlit("/");
    reveal_strlit("v=");
    reveal_strlit("v");
    reveal_strlit("youtu.be");
    reveal_strlit("www.youtube.com");
    reveal_strlit("youtube.com");
    reveal_strlit("m.youtube.com");
    lemma_url_is_no_identifier(input);
    let query = query_of(input);
    lemma_id_chars_stop_nothing(token, Stop::Parameter);
    assert forall|i: int| 0 <= i < query.len() implies !stops(
        Stop::Parameter,
        #[trigger] query[i],
    ) by {
        if i >= 2 {
            assert(query[i] == token[i - 2]);
        }
    }
    lemma_leading_prefix(query, Seq::empty(), Stop::Parameter);
    assert(query + Seq::<char>::empty() =~= query);
    let name = seq!['v'];
    let value = seq!['='] + token;
    assert(query =~= name + value);
    lemma_leading_prefix(name, value, Stop::Name);
    assert(name =~= "v"@);
    assert(query.skip(2) =~= token);
    assert("youtu.be"@.len() == 8 && "www.youtube.com"@.len() == 15 && "youtube.com"@.len() == 11
        && "m.youtube.com"@.len() == 13);
    assert(!is_short_host(host_of(input)));
    assert(!"/embed/"@.is_prefix_of(path_of(input)));
    assert(leading_part(query, Stop::Parameter) == query);
    assert(leading_part(query, Stop::Name) == name);
    assert(query_value(query, "v"@) == Some(token));
    assert(candidate_in_url(input) == Some(token));
}

/// The three forms agree: a short link, an embed URL and a watch URL that
/// hold the same well-formed token name the same identifier, the token.
pub proof fn law_url_forms_agree(
    short: Seq<char>,
    embed: Seq<char>,
    watch: Seq<char>,
    token: Seq<char>,
)
    requires
        is_video_id(token),
        is_short_host(host_of(short)),
        path_of(short) == "/"@ + token,
        is_site_host(host_of(embed)),
        path_of(embed) == "/embed/"@ + token,
        is_site_host(host_of(watch)),
        path_of(watch) == "/watch"@,
        query_of(watch) == "v="@ + token,
    ensures
        video_id_of(short) == Some(token),
        video_id_of(embed) == Some(token),
        video_id_of(watch) == Some(token),
        video_id_of(token) == Some(token),
{
    law_short_link_names_its_token(short, token);
    law_embed_url_names_its_token(embed, token);
    law_watch_url_names_its_token(watch, token);
}

/// What has a path is no identifier: an identifier holds no `/`.
pub proof fn lemma_url_is_no_identifier(input: Seq<char>)
    requires
        path_of(input).len() > 0,
    ensures
        !is_video_id(input),
{
    if is_video_id(input) {
        reveal_strlit("https://");
        reveal_strlit("http://");
        if "https://"@.is_prefix_of(input) {
            assert(input[5] == "https://"@.subrange(0, 8)[5]);
            assert(is_id_char(input[5]));
        }
        if "http://"@.is_prefix_of(input) {
            assert(input[4] == "http://"@.subrange(0, 7)[4]);
            assert(is_id_char(input[4]));
        }
        assert(without_scheme(input) == input);
        lemma_id_chars_stop_nothing(input, Stop::Host);
        assert(after_leading(input, Stop::Host).len() == 0);
        lemma_leading_len(after_leading(input, Stop::Host), Stop::Path);
    }
}

/// What is no identifier and no URL of a known host is refused: a token of
/// the wrong length, one with a character that no identifier holds, the URL
/// of another site.
pub proof fn law_malformed_is_refused(input: Seq<char>)
    requires
        !is_video_id(input),
        !is_short_host(host_of(input)),
        !is_site_host(host_of(input)),
    ensures
        video_id_of(input) is None,
{
}

/// A text that holds none of `/`, `?` and `#` is no URL: it names a video
/// only where it is an identifier itself.
pub proof fn law_bare_text_is_identifier_or_refused(input: Seq<char>)
    requires
        forall|i: int| 0 <= i < input.len() ==> !stops(Stop::Host, #[trigger] input[i]),
    ensures
        video_id_of(input) == if is_video_id(input) {
            Some(input)
        } else {
            None::<Seq<char>>
        },
{
    reveal_strlit("https://");
    reveal_strlit("http://");
    reveal_strlit("/");
    reveal_strlit("/embed/");
    reveal_strlit("/watch");
    if "https://"@.is_prefix_of(input) {
        assert(input[6] == "https://"@.subrange(0, 8)[6]);
        assert(stops(Stop::Host, input[6]));
    }
    if "http://"@.is_prefix_of(input) {
        assert(input[5] == "http://"@.subrange(0, 7)[5]);
        assert(stops(Stop::Host, input[5]));
    }
    assert(without_scheme(input) == input);
    lemma_leading_prefix(input, Seq::empty(), Stop::Host);
    assert(input + Seq::<char>::empty() =~= input);
    assert(after_leading(input, Stop::Host).len() == 0);
    lemma_leading_len(after_leading(input, Stop::Host), Stop::Path);
    assert(path_of(input).len() == 0);
}


/// The schemes with which a URL may begin; it may also begin with none.
pub open spec fn is_scheme(s: Seq<char>) -> bool {
    s == "https://"@ || s == "http://"@ || s.len() == 0
}

/// The URL of the watch page of `token` on `host`.
pub open spec fn watch_url_of(scheme: Seq<char>, host: Seq<char>, token: Seq<char>) -> Seq<char> {
    scheme + host + "/watch"@ + "?"@ + "v="@ + token
}

/// The short link of `token`.
pub open spec fn short_url_of(scheme: Seq<char>, token: Seq<char>) -> Seq<char> {
    scheme + "youtu.be"@ + "/"@ + token
}

/// The URL of the embedded player of `token` on `host`.
pub open spec fn embed_url_of(scheme: Seq<char>, host: Seq<char>, token: Seq<char>) -> Seq<char> {
    scheme + host + "/embed/"@ + token
}

/// No part of a URL ends inside the name of a known host, and no such name
/// begins like a scheme.
proof fn lemma_host_names(s: Seq<char>)
    requires
        is_site_host(s) || is_short_host(s),
    ensures
        s.len() > 0,
        s[0] != 'h',
        forall|i: int| 0 <= i < s.len() ==> !stops(Stop::Host, #[trigger] s[i]),
{
    if s == "www.youtube.com"@ {
        reveal_strlit("www.youtube.com");
        assert forall|i: int| 0 <= i < s.len() implies !stops(Stop::Host, #[trigger] s[i]) by {
            if i == 0 {
            } else if i == 1 {
            } else if i == 2 {
            } else if i == 3 {
            } else if i == 4 {
            } else if i == 5 {
            } else if i == 6 {
            } else if i == 7 {
            } else if i == 8 {
            } else if i == 9 {
            } else if i == 10 {
            } else if i == 11 {
            } else if i == 12 {
            } else if i == 13 {
            } else if i == 14 {
            }
        }
    }
    if s == "youtube.com"@ {
        reveal_strlit("youtube.com");
        assert forall|i: int| 0 <= i < s.len() implies !stops(Stop::Host, #[trigger] s[i]) by {
            if i == 0 {
            } else if i == 1 {
            } else if i == 2 {
            } else if i == 3 {
            } else if i == 4 {
            } else if i == 5 {
            } else if i == 6 {
            } else if i == 7 {
            } else if i == 8 {
            } else if i == 9 {
            } else if i == 10 {
            }
        }
    }
    if s == "m.youtube.com"@ {
        reveal_strlit("m.youtube.com");
        assert forall|i: int| 0 <= i < s.len() implies !stops(Stop::Host, #[trigger] s[i]) by {
            if i == 0 {
            } else if i == 1 {
            } else if i == 2 {
            } else if i == 3 {
            } else if i == 4 {
            } else if i == 5 {
            } else if i == 6 {
            } else if i == 7 {
            } else if i == 8 {
            } else if i == 9 {
            } else if i == 10 {
            } else if i == 11 {
            } else if i == 12 {
            }
        }
    }
    if s == "youtu.be"@ {
        reveal_strlit("youtu.be");
        assert forall|i: int| 0 <= i < s.len() implies !stops(Stop::Host, #[trigger] s[i]) by {
            if i == 0 {
            } else if i == 1 {
            } else if i == 2 {
            } else if i == 3 {
            } else if i == 4 {
            } else if i == 5 {
            } else if i == 6 {
            } else if i == 7 {
            }
        }
    }
    reveal_strlit("www.youtube.com");
    reveal_strlit("youtube.com");
    reveal_strlit("m.youtube.com");
    reveal_strlit("youtu.be");
}

/// No path ends inside `/watch`, `/embed/` or `/`.
proof fn lemma_path_names(s: Seq<char>)
    requires
        s == "/watch"@ || s == "/embed/"@ || s == "/"@,
    ensures
        s.len() > 0,
        s[0] == '/',
        forall|i: int| 0 <= i < s.len() ==> !stops(Stop::Path, #[trigger] s[i]),
{
    if s == "/watch"@ {
        reveal_strlit("/watch");
        assert forall|i: int| 0 <= i < s.len() implies !stops(Stop::Path, #[trigger] s[i]) by {
            if i == 0 {
            } else if i == 1 {
            } else if i == 2 {
            } else if i == 3 {
            } else if i == 4 {
            } else if i == 5 {
            }
        }
    }
    if s == "/embed/"@ {
        reveal_strlit("/embed/");
        assert forall|i: int| 0 <= i < s.len() implies !stops(Stop::Path, #[trigger] s[i]) by {
            if i == 0 {
            } else if i == 1 {
            } else if i == 2 {
            } else if i == 3 {
            } else if i == 4 {
            } else if i == 5 {
            } else if i == 6 {
            }
        }
    }
    if s == "/"@ {
        reveal_strlit("/");
        assert forall|i: int| 0 <= i < s.len() implies !stops(Stop::Path, #[trigger] s[i]) by {
            if i == 0 {
            }
        }
    }
    reveal_strlit("/watch");
    reveal_strlit("/embed/");
    reveal_strlit("/");
}

/// A URL made of a scheme, the name of a known host and a rest that begins
/// where the host ends has that host, and the rest follows it.
proof fn lemma_scheme_and_host(scheme: Seq<char>, host: Seq<char>, rest: Seq<char>)
    requires
        is_scheme(scheme),
        is_site_host(host) || is_short_host(host),
        rest.len() > 0 ==> stops(Stop::Host, rest[0]),
    ensures
        host_of(scheme + host + rest) == host,
        after_leading(without_scheme(scheme + host + rest), Stop::Host) == rest,
{
    let s = scheme + host + rest;
    lemma_host_names(host);
    reveal_strlit("https://");
    reveal_strlit("http://");
    if scheme.len() == 0 {
        assert(s =~= host + rest);
        assert(s[0] == host[0]);
        if "https://"@.is_prefix_of(s) {
            assert(s[0] == "https://"@.subrange(0, 8)[0]);
        }
        if "http://"@.is_prefix_of(s) {
            assert(s[0] == "http://"@.subrange(0, 7)[0]);
        }
        assert(without_scheme(s) == s);
    } else if scheme == "https://"@ {
        assert(s.subrange(0, 8) =~= scheme);
        assert(s.skip(8) =~= host + rest);
    } else {
        assert(s[4] == scheme[4]);
        if "https://"@.is_prefix_of(s) {
            assert(s[4] == "https://"@.subrange(0, 8)[4]);
        }
        assert(s.subrange(0, 7) =~= scheme);
        assert(s.skip(7) =~= host + rest);
    }
    assert(without_scheme(s) == host + rest);
    lemma_leading_prefix(host, rest, Stop::Host);
}

/// Every watch URL, short link and embed URL that is written with a
/// well-formed token names that token: with `https://`, with `http://` or
/// with no scheme, and on each of the site's hosts.
pub proof fn law_every_form_names_its_token(scheme: Seq<char>, host: Seq<char>, token: Seq<char>)
    requires
        is_scheme(scheme),
        is_site_host(host),
        is_video_id(token),
    ensures
        video_id_of(watch_url_of(scheme, host, token)) == Some(token),
        video_id_of(short_url_of(scheme, token)) == Some(token),
        video_id_of(embed_url_of(scheme, host, token)) == Some(token),
        video_id_of(token) == Some(token),
{
    reveal_strlit("?");
    reveal_strlit("v=");
    lemma_id_chars_stop_nothing(token, Stop::Path);
    lemma_id_chars_stop_nothing(token, Stop::Query);
    // The watch page.
    let watch = "/watch"@;
    let query = "v="@ + token;
    let after_watch = "?"@ + query;
    let watch_rest = watch + after_watch;
    lemma_path_names(watch);
    assert(watch_rest[0] == watch[0]);
    assert(watch_url_of(scheme, host, token) =~= scheme + host + watch_rest);
    lemma_scheme_and_host(scheme, host, watch_rest);
    assert(after_watch[0] == '?');
    lemma_leading_prefix(watch, after_watch, Stop::Path);
    assert(after_watch.skip(1) =~= query);
    assert forall|i: int| 0 <= i < query.len() implies !stops(Stop::Query, #[trigger] query[i]) by {
        if i >= 2 {
            assert(query[i] == token[i - 2]);
        }
    }
    lemma_leading_prefix(query, Seq::empty(), Stop::Query);
    assert(query + Seq::<char>::empty() =~= query);
    assert(query_of(watch_url_of(scheme, host, token)) == query);
    law_watch_url_names_its_token(watch_url_of(scheme, host, token), token);
    // The short link.
    let slash = "/"@;
    let short_rest = slash + token;
    lemma_path_names(slash);
    assert(short_rest[0] == slash[0]);
    assert(short_url_of(scheme, token) =~= scheme + "youtu.be"@ + short_rest);
    lemma_scheme_and_host(scheme, "youtu.be"@, short_rest);
    assert forall|i: int| 0 <= i < short_rest.len() implies !stops(
        Stop::Path,
        #[trigger] short_rest[i],
    ) by {
        if i >= slash.len() {
            assert(short_rest[i] == token[i - slash.len()]);
        } else {
            assert(short_rest[i] == slash[i]);
        }
    }
    lemma_leading_prefix(short_rest, Seq::empty(), Stop::Path);
    assert(short_rest + Seq::<char>::empty() =~= short_rest);
    law_short_link_names_its_token(short_url_of(scheme, token), token);
    // The embedded player.
    let embed = "/embed/"@;
    let embed_rest = embed + token;
    lemma_path_names(embed);
    assert(embed_rest[0] == embed[0]);
    assert(embed_url_of(scheme, host, token) =~= scheme + host + embed_rest);
    lemma_scheme_and_host(scheme, host, embed_rest);
    assert forall|i: int| 0 <= i < embed_rest.len() implies !stops(
        Stop::Path,
        #[trigger] embed_rest[i],
    ) by {
        if i >= embed.len() {
            assert(embed_rest[i] == token[i - embed.len()]);
        } else {
            assert(embed_rest[i] == embed[i]);
        }
    }
    lemma_leading_prefix(embed_rest, Seq::empty(), Stop::Path);
    assert(embed_rest + Seq::<char>::empty() =~= embed_rest);
    law_embed_url_names_its_token(embed_url_of(scheme, host, token), token);
}

} // verus!
