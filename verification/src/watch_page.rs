use crate::catalog::{CaptionTrack, TrackKind, TranscriptList, TranslationLanguage};
use crate::error::TranscriptError;
use crate::text::{chars_of, contains, find, search, string_of};
use vstd::prelude::*;
use vstd::slice::slice_subrange;
use vstd::string::*;

verus! {

/// The index after the `}` that closes the object which is being read at
/// `pos`, `depth` braces deep. Braces inside a string do not count; inside a
/// string a backslash takes the next character with it. `None` where the
/// text ends before the object does.
pub open spec fn object_end(
    s: Seq<char>,
    pos: int,
    depth: nat,
    in_string: bool,
    escaped: bool,
) -> Option<int>
    decreases s.len() - pos,
{
    if pos < 0 || pos >= s.len() {
        None
    } else if in_string {
        if escaped {
            object_end(s, pos + 1, depth, true, false)
        } else if s[pos] == '\\' {
            object_end(s, pos + 1, depth, true, true)
        } else if s[pos] == '"' {
            object_end(s, pos + 1, depth, false, false)
        } else {
            object_end(s, pos + 1, depth, true, false)
        }
    } else if s[pos] == '"' {
        object_end(s, pos + 1, depth, true, false)
    } else if s[pos] == '{' {
        object_end(s, pos + 1, depth + 1, false, false)
    } else if s[pos] == '}' {
        if depth <= 1 {
            Some(pos + 1)
        } else {
            object_end(s, pos + 1, (depth - 1) as nat, false, false)
        }
    } else {
        object_end(s, pos + 1, depth, false, false)
    }
}

/// The object that follows the first `marker` in `html`: the text from the
/// `{` right after the marker to the `}` that closes it. `None` where the
/// marker is missing, no `{` follows it, or the object is never closed.
pub open spec fn json_block(html: Seq<char>, marker: Seq<char>) -> Option<Seq<char>> {
    match search(html, marker, 0) {
        None => None,
        Some(at) => {
            let start = at + marker.len();
            if start < html.len() && html[start] == '{' {
                match object_end(html, start, 0, false, false) {
                    Some(end) => Some(html.subrange(start, end)),
                    None => None,
                }
            } else {
                None
            }
        },
    }
}

fn find_object_end(s: &[char], start: usize) -> (end: Option<usize>)
    requires
        start <= s.len(),
    ensures
        match end {
            Some(e) => object_end(s@, start as int, 0, false, false) == Some(e as int) && start
                < e <= s.len(),
            None => object_end(s@, start as int, 0, false, false) is None,
        },
{
    let mut depth: usize = 0;
    let mut in_string = false;
    let mut escaped = false;
    let mut i: usize = start;
    while i < s.len()
        invariant
            start <= i <= s.len(),
            depth <= i - start,
            escaped ==> in_string,
            object_end(s@, start as int, 0, false, false) == object_end(
                s@,
                i as int,
                depth as nat,
                in_string,
                escaped,
            ),
        decreases s.len() - i,
    {
        let c = s[i];
        if in_string {
            if escaped {
                escaped = false;
            } else if c == '\\' {
                escaped = true;
            } else if c == '"' {
                in_string = false;
            }
        } else if c == '"' {
            in_string = true;
        } else if c == '{' {
            depth += 1;
        } else if c == '}' {
            if depth <= 1 {
                return Some(i + 1);
            }
            depth -= 1;
        }
        i += 1;
    }
    None
}

/// Finds the object that the page assigns to the variable named in
/// `marker`. `marker` is the text that stands right before the object's
/// `{`, such as `ytInitialPlayerResponse = `.
pub fn find_json_block(html: &str, marker: &str) -> (block: Option<String>)
    ensures
        match block {
            Some(text) => json_block(html@, marker@) == Some(text@),
            None => json_block(html@, marker@) is None,
        },
{
    let page = chars_of(html);
    let pattern = chars_of(marker);
    let s = page.as_slice();
    let needle = pattern.as_slice();
    match find(s, needle) {
        None => None,
        Some(at) => {
            let total = s.len();
            let start = at + needle.len();
            if start < total && s[start] == '{' {
                match find_object_end(s, start) {
                    Some(end) => Some(string_of(slice_subrange(s, start, end))),
                    None => None,
                }
            } else {
                None
            }
        },
    }
}

/// The text that stands before the player's state on a watch page.
pub open spec fn player_marker() -> Seq<char> {
    "ytInitialPlayerResponse = "@
}

/// The text that stands before the list of videos on a playlist page.
pub open spec fn playlist_marker() -> Seq<char> {
    "ytInitialData = "@
}

/// The player's state as the watch page of the video `video_id` holds it,
/// still as text. Where the page holds none: `YouTubeDataUnparsable`.
pub fn extract_player_json(video_id: &str, html: &str) -> (r: Result<String, TranscriptError>)
    ensures
        match json_block(html@, player_marker()) {
            Some(block) => r matches Ok(text) && text@ == block,
            None => r matches Err(TranscriptError::YouTubeDataUnparsable(id)) && id@ == video_id@,
        },
{
    match find_json_block(html, "ytInitialPlayerResponse = ") {
        Some(text) => Ok(text),
        None => Err(TranscriptError::YouTubeDataUnparsable(String::from_str(video_id))),
    }
}

/// The list of videos as the page of the playlist `playlist_id` holds it,
/// still as text. Where the page holds none: `YouTubeDataUnparsable`.
pub fn extract_playlist_json(playlist_id: &str, html: &str) -> (r: Result<String, TranscriptError>)
    ensures
        match json_block(html@, playlist_marker()) {
            Some(block) => r matches Ok(text) && text@ == block,
            None => r matches Err(TranscriptError::YouTubeDataUnparsable(id)) && id@
                == playlist_id@,
        },
{
    match find_json_block(html, "ytInitialData = ") {
        Some(text) => Ok(text),
        None => Err(TranscriptError::YouTubeDataUnparsable(String::from_str(playlist_id))),
    }
}

/// One caption track as the page lists it.
#[derive(Debug, PartialEq, Eq)]
pub struct ListedTrack {
    pub name: String,
    pub language_code: String,
    /// What the page says of how the track was made; `asr` stands for
    /// speech recognition.
    pub kind: Option<String>,
    pub base_url: String,
}

/// The captions section of the page.
#[derive(Debug, PartialEq, Eq)]
pub struct CaptionSection {
    pub tracks: Vec<ListedTrack>,
    pub translation_languages: Vec<TranslationLanguage>,
}

/// How the page says the video can be played.
#[derive(Clone, Copy, PartialEq, Eq, Structural, Debug)]
pub enum Playability {
    /// It can be played, or the page says nothing.
    Playable,
    /// A login is asked for: the video is gated by age.
    LoginRequired,
    /// The video was removed, is private or does not exist.
    Gone,
    /// It cannot be played for another reason.
    Unplayable,
}

/// How the status `status` of the page reads. No status and `OK` mean that
/// the video can be played; `LOGIN_REQUIRED` asks for a login; `ERROR`
/// tells that the video is gone; every other status that it cannot be
/// played.
pub open spec fn playability_spec(status: Option<Seq<char>>) -> Playability {
    match status {
        None => Playability::Playable,
        Some(s) => if s == "OK"@ {
            Playability::Playable
        } else if s == "LOGIN_REQUIRED"@ {
            Playability::LoginRequired
        } else if s == "ERROR"@ {
            Playability::Gone
        } else {
            Playability::Unplayable
        },
    }
}

/// Reads the status that the page gives.
pub fn playability_of(status: Option<&str>) -> (p: Playability)
    ensures
        p == playability_spec(
            match status {
                Some(s) => Some(s@),
                None => None,
            },
        ),
{
    match status {
        None => Playability::Playable,
        Some(s) => {
            let chars = chars_of(s);
            if crate::text::spells(chars.as_slice(), "OK") {
                Playability::Playable
            } else if crate::text::spells(chars.as_slice(), "LOGIN_REQUIRED") {
                Playability::LoginRequired
            } else if crate::text::spells(chars.as_slice(), "ERROR") {
                Playability::Gone
            } else {
                Playability::Unplayable
            }
        },
    }
}

/// What the page tells of one video, decoded.
#[derive(Debug, PartialEq, Eq)]
pub struct PageState {
    pub playability: Playability,
    /// The reason the page gives where the video cannot be played.
    pub reason: String,
    pub captions: Option<CaptionSection>,
}

/// The mark in a track's URL that tells that a proof-of-origin token is
/// asked for.
pub open spec fn token_mark() -> Seq<char> {
    "&exp=xpe"@
}

/// Whether any of `tracks` asks for a proof-of-origin token.
pub open spec fn asks_for_token(tracks: Seq<ListedTrack>) -> bool {
    exists|i: int| 0 <= i < tracks.len() && contains((#[trigger] tracks[i]).base_url@, token_mark())
}

/// The kind of a listed track.
pub open spec fn kind_of(track: ListedTrack) -> TrackKind {
    match track.kind {
        Some(kind) => if kind@ == "asr"@ {
            TrackKind::Generated
        } else {
            TrackKind::Manual
        },
        None => TrackKind::Manual,
    }
}

/// Whether `track` is the listed track `listed` as the catalog holds it,
/// with the codes of `languages` as the languages it can be translated into.
pub open spec fn is_track_of(
    track: CaptionTrack,
    listed: ListedTrack,
    languages: Seq<TranslationLanguage>,
) -> bool {
    &&& track.language@ == listed.name@
    &&& track.language_code@ == listed.language_code@
    &&& track.kind == kind_of(listed)
    &&& track.base_url@ == listed.base_url@
    &&& track.translation_codes@.len() == languages.len()
    &&& forall|k: int|
        0 <= k < languages.len() ==> (#[trigger] track.translation_codes@[k])@
            == languages[k].language_code@
}

/// The last of the listed tracks of kind `kind` in the language `code`.
pub open spec fn last_listed(tracks: Seq<ListedTrack>, kind: TrackKind, code: Seq<char>) -> Option<
    ListedTrack,
>
    decreases tracks.len(),
{
    if tracks.len() == 0 {
        None
    } else if kind_of(tracks.last()) == kind && tracks.last().language_code@ == code {
        Some(tracks.last())
    } else {
        last_listed(tracks.drop_last(), kind, code)
    }
}

/// Whether the group `group` of a catalog holds, for the language `code`,
/// the last track of kind `kind` that the page lists in that language, and
/// nothing where the page lists none.
pub open spec fn holds_last_listed(
    group: Seq<CaptionTrack>,
    section: CaptionSection,
    kind: TrackKind,
    code: Seq<char>,
) -> bool {
    match last_listed(section.tracks@, kind, code) {
        Some(listed) => crate::catalog::lookup(group, code) matches Some(track) && is_track_of(
            track,
            listed,
            section.translation_languages@,
        ),
        None => crate::catalog::lookup(group, code) is None,
    }
}

/// Why no catalog can be made of a page, in the order in which the reasons
/// are looked for: a login is asked for; the video is gone; it cannot be
/// played; the page has no captions section; a track asks for a
/// proof-of-origin token. Or that a catalog can be made.
pub enum Verdict {
    AgeRestricted,
    Unavailable,
    Unplayable,
    Disabled,
    TokenRequired,
    Listed,
}

/// What is made of `state`: the first reason for which no catalog can be
/// made, or that one can.
pub open spec fn verdict(state: PageState) -> Verdict {
    match state.playability {
        Playability::LoginRequired => Verdict::AgeRestricted,
        Playability::Gone => Verdict::Unavailable,
        Playability::Unplayable => Verdict::Unplayable,
        Playability::Playable => match state.captions {
            None => Verdict::Disabled,
            Some(section) => if asks_for_token(section.tracks@) {
                Verdict::TokenRequired
            } else {
                Verdict::Listed
            },
        },
    }
}

fn language_codes(languages: &Vec<TranslationLanguage>) -> (codes: Vec<String>)
    ensures
        codes@.len() == languages@.len(),
        forall|i: int|
            0 <= i < codes@.len() ==> (#[trigger] codes@[i])@ == languages@[i].language_code@,
{
    let mut codes: Vec<String> = Vec::new();
    let mut i: usize = 0;
    while i < languages.len()
        invariant
            i <= languages.len(),
            codes@.len() == i,
            forall|j: int| 0 <= j < i ==> (#[trigger] codes@[j])@ == languages@[j].language_code@,
        decreases languages.len() - i,
    {
        codes.push(languages[i].language_code.clone());
        i += 1;
    }
    codes
}

fn any_asks_for_token(tracks: &Vec<ListedTrack>) -> (b: bool)
    ensures
        b == asks_for_token(tracks@),
{
    let mark = chars_of("&exp=xpe");
    let mut i: usize = 0;
    while i < tracks.len()
        invariant
            i <= tracks.len(),
            mark@ == token_mark(),
            forall|j: int| 0 <= j < i ==> !contains((#[trigger] tracks@[j]).base_url@, token_mark()),
        decreases tracks.len() - i,
    {
        let url = chars_of(tracks[i].base_url.as_str());
        if find(url.as_slice(), mark.as_slice()).is_some() {
            return true;
        }
        i += 1;
    }
    false
}

fn track_kind(listed: &ListedTrack) -> (kind: TrackKind)
    ensures
        kind == kind_of(*listed),
{
    match &listed.kind {
        Some(kind) => {
            let chars = chars_of(kind.as_str());
            if crate::text::spells(chars.as_slice(), "asr") {
                TrackKind::Generated
            } else {
                TrackKind::Manual
            }
        },
        None => TrackKind::Manual,
    }
}

/// The name that a label shows: its simple text where it has one, else its
/// runs, one after another.
pub open spec fn label_spec(simple: Option<String>, runs: Seq<String>) -> Seq<char>
    decreases runs.len(),
{
    match simple {
        Some(text) => text@,
        None => if runs.len() == 0 {
            Seq::empty()
        } else {
            label_spec(None, runs.drop_last()) + runs.last()@
        },
    }
}

/// The name that a label of the page shows.
pub fn label_text(simple: Option<String>, runs: &[String]) -> (text: String)
    ensures
        text@ == label_spec(simple, runs@),
{
    match simple {
        Some(text) => text,
        None => {
            let mut text = String::new();
            let mut i: usize = 0;
            while i < runs.len()
                invariant
                    i <= runs.len(),
                    text@ == label_spec(None, runs@.take(i as int)),
                decreases runs.len() - i,
            {
                assert(runs@.take(i as int + 1).drop_last() == runs@.take(i as int));
                text.append(runs[i].as_str());
                i += 1;
            }
            assert(runs@.take(runs.len() as int) == runs@);
            text
        },
    }
}

/// The tracks of the captions section, each with the codes of the
/// languages it can be translated into.
fn catalog_tracks(section: &CaptionSection) -> (tracks: Vec<CaptionTrack>)
    ensures
        tracks@.len() == section.tracks@.len(),
        forall|i: int|
            0 <= i < tracks@.len() ==> is_track_of(
                #[trigger] tracks@[i],
                section.tracks@[i],
                section.translation_languages@,
            ),
{
    let mut tracks: Vec<CaptionTrack> = Vec::new();
    let mut i: usize = 0;
    while i < section.tracks.len()
        invariant
            i <= section.tracks.len(),
            tracks@.len() == i,
            forall|j: int|
                0 <= j < i ==> is_track_of(
                    #[trigger] tracks@[j],
                    section.tracks@[j],
                    section.translation_languages@,
                ),
        decreases section.tracks.len() - i,
    {
        let listed = &section.tracks[i];
        let codes = language_codes(&section.translation_languages);
        let track = CaptionTrack {
            language: listed.name.clone(),
            language_code: listed.language_code.clone(),
            kind: track_kind(listed),
            base_url: listed.base_url.clone(),
            translation_codes: codes,
        };
        tracks.push(track);
        i += 1;
    }
    tracks
}

proof fn lemma_last_of_listed(
    tracks: Seq<CaptionTrack>,
    listed: Seq<ListedTrack>,
    languages: Seq<TranslationLanguage>,
    kind: TrackKind,
    code: Seq<char>,
)
    requires
        tracks.len() == listed.len(),
        forall|i: int| 0 <= i < tracks.len() ==> is_track_of(#[trigger] tracks[i], listed[i], languages),
    ensures
        match last_listed(listed, kind, code) {
            Some(l) => crate::catalog::last_of(tracks, kind, code) matches Some(t) && is_track_of(
                t,
                l,
                languages,
            ),
            None => crate::catalog::last_of(tracks, kind, code) is None,
        },
    decreases tracks.len(),
{
    if tracks.len() > 0 {
        assert(is_track_of(tracks.last(), listed.last(), languages));
        if !(kind_of(listed.last()) == kind && listed.last().language_code@ == code) {
            assert forall|i: int| 0 <= i < tracks.drop_last().len() implies is_track_of(
                #[trigger] tracks.drop_last()[i],
                listed.drop_last()[i],
                languages,
            ) by {
                assert(tracks.drop_last()[i] == tracks[i]);
            }
            lemma_last_of_listed(tracks.drop_last(), listed.drop_last(), languages, kind, code);
        }
    }
}

/// Makes the catalog of the video `video_id` out of what its page tells,
/// or says why there is none.
pub fn classify(video_id: &str, state: PageState) -> (r: Result<TranscriptList, TranscriptError>)
    ensures
        match verdict(state) {
            Verdict::AgeRestricted => r matches Err(TranscriptError::AgeRestricted(id)) && id@
                == video_id@,
            Verdict::Unavailable => r matches Err(TranscriptError::VideoUnavailable(id)) && id@
                == video_id@,
            Verdict::Unplayable => r matches Err(TranscriptError::VideoUnplayable(id, reason))
                && id@ == video_id@ && reason@ == state.reason@,
            Verdict::Disabled => r matches Err(TranscriptError::TranscriptsDisabled(id)) && id@
                == video_id@,
            Verdict::TokenRequired => r matches Err(TranscriptError::PoTokenRequired(id)) && id@
                == video_id@,
            Verdict::Listed => r matches Ok(list) && list.wf() && list.video_id@ == video_id@
                && list.translation_languages == state.captions->0.translation_languages
                && forall|code: Seq<char>|
                #![trigger last_listed(state.captions->0.tracks@, TrackKind::Manual, code)]
                #![trigger last_listed(state.captions->0.tracks@, TrackKind::Generated, code)]
                holds_last_listed(
                    list.manually_created@,
                    state.captions->0,
                    TrackKind::Manual,
                    code,
                ) && holds_last_listed(
                    list.generated@,
                    state.captions->0,
                    TrackKind::Generated,
                    code,
                ),
        },
{
    let id = String::from_str(video_id);
    match state.playability {
        Playability::LoginRequired => Err(TranscriptError::AgeRestricted(id)),
        Playability::Gone => Err(TranscriptError::VideoUnavailable(id)),
        Playability::Unplayable => Err(TranscriptError::VideoUnplayable(id, state.reason)),
        Playability::Playable => match state.captions {
            None => Err(TranscriptError::TranscriptsDisabled(id)),
            Some(section) => {
                if any_asks_for_token(&section.tracks) {
                    Err(TranscriptError::PoTokenRequired(id))
                } else {
                    let tracks = catalog_tracks(&section);
                    proof {
                        assert forall|code: Seq<char>|
                            #![trigger last_listed(section.tracks@, TrackKind::Manual, code)]
                            #![trigger last_listed(section.tracks@, TrackKind::Generated, code)]
                            true implies {
                                &&& (match last_listed(section.tracks@, TrackKind::Manual, code) {
                                    Some(l) => crate::catalog::last_of(
                                        tracks@,
                                        TrackKind::Manual,
                                        code,
                                    ) matches Some(t) && is_track_of(
                                        t,
                                        l,
                                        section.translation_languages@,
                                    ),
                                    None => crate::catalog::last_of(
                                        tracks@,
                                        TrackKind::Manual,
                                        code,
                                    ) is None,
                                })
                                &&& (match last_listed(section.tracks@, TrackKind::Generated, code) {
                                    Some(l) => crate::catalog::last_of(
                                        tracks@,
                                        TrackKind::Generated,
                                        code,
                                    ) matches Some(t) && is_track_of(
                                        t,
                                        l,
                                        section.translation_languages@,
                                    ),
                                    None => crate::catalog::last_of(
                                        tracks@,
                                        TrackKind::Generated,
                                        code,
                                    ) is None,
                                })
                            } by {
                            lemma_last_of_listed(
                                tracks@,
                                section.tracks@,
                                section.translation_languages@,
                                TrackKind::Manual,
                                code,
                            );
                            lemma_last_of_listed(
                                tracks@,
                                section.tracks@,
                                section.translation_languages@,
                                TrackKind::Generated,
                                code,
                            );
                        }
                    }
                    Ok(TranscriptList::build(id, tracks, section.translation_languages))
                }
            },
        },
    }
}

} // verus!
