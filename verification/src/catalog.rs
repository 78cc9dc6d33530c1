use crate::error::TranscriptError;
use vstd::prelude::*;
use vstd::string::*;

verus! {

/// Who wrote a caption track: a person, or speech recognition.
#[derive(Clone, Copy, PartialEq, Eq, Structural, Debug)]
pub enum TrackKind {
    Manual,
    Generated,
}

/// A language into which the tracks of a video can be translated.
#[derive(Debug, PartialEq, Eq)]
pub struct TranslationLanguage {
    pub language: String,
    pub language_code: String,
}

/// One caption stream of a video.
#[derive(Debug, PartialEq, Eq)]
pub struct CaptionTrack {
    /// The name of the language, for people.
    pub language: String,
    pub language_code: String,
    pub kind: TrackKind,
    /// Where the caption document is fetched.
    pub base_url: String,
    /// The codes of the languages into which this track can be translated.
    pub translation_codes: Vec<String>,
}

/// The first track of `tracks` in the language `code`.
pub open spec fn lookup(tracks: Seq<CaptionTrack>, code: Seq<char>) -> Option<CaptionTrack>
    decreases tracks.len(),
{
    if tracks.len() == 0 {
        None
    } else if tracks[0].language_code@ == code {
        Some(tracks[0])
    } else {
        lookup(tracks.skip(1), code)
    }
}

/// The last track of `tracks` of kind `kind` in the language `code`.
pub open spec fn last_of(tracks: Seq<CaptionTrack>, kind: TrackKind, code: Seq<char>) -> Option<
    CaptionTrack,
>
    decreases tracks.len(),
{
    if tracks.len() == 0 {
        None
    } else if tracks.last().kind == kind && tracks.last().language_code@ == code {
        Some(tracks.last())
    } else {
        last_of(tracks.drop_last(), kind, code)
    }
}

/// Whether every track of `tracks` is of kind `kind`, and no two of them are
/// in the same language.
pub open spec fn keyed(tracks: Seq<CaptionTrack>, kind: TrackKind) -> bool {
    &&& forall|i: int| 0 <= i < tracks.len() ==> (#[trigger] tracks[i]).kind == kind
    &&& forall|i: int, j: int|
        0 <= i < j < tracks.len() ==> (#[trigger] tracks[i]).language_code@ != (
        #[trigger] tracks[j]).language_code@
}

/// The first language of `languages` whose code is `code`.
pub open spec fn language_named(languages: Seq<TranslationLanguage>, code: Seq<char>) -> Option<
    TranslationLanguage,
>
    decreases languages.len(),
{
    if languages.len() == 0 {
        None
    } else if languages[0].language_code@ == code {
        Some(languages[0])
    } else {
        language_named(languages.skip(1), code)
    }
}

/// The views of a list of language codes.
pub open spec fn code_views(codes: Seq<&str>) -> Seq<Seq<char>> {
    codes.map_values(|c: &str| c@)
}

/// The base URL with the parameter that asks for a translation.
pub open spec fn translated_url(base_url: Seq<char>, target: Seq<char>) -> Seq<char> {
    base_url + "&tlang="@ + target
}

/// The caption tracks of one video: those that people wrote and those that
/// were generated, each group with one track for a language at most, and
/// the languages into which they can be translated.
#[derive(Debug, PartialEq, Eq)]
pub struct TranscriptList {
    pub video_id: String,
    pub manually_created: Vec<CaptionTrack>,
    pub generated: Vec<CaptionTrack>,
    pub translation_languages: Vec<TranslationLanguage>,
}

fn same_text(a: &String, b: &str) -> (same: bool)
    ensures
        same == (a@ == b@),
{
    let other = String::from_str(b);
    *a == other
}

fn position_of(tracks: &Vec<CaptionTrack>, code: &str) -> (at: Option<usize>)
    ensures
        match at {
            Some(i) => i < tracks.len() && lookup(tracks@, code@) == Some(tracks@[i as int])
                && tracks@[i as int].language_code@ == code@,
            None => lookup(tracks@, code@) is None && forall|i: int|
                0 <= i < tracks.len() ==> (#[trigger] tracks@[i]).language_code@ != code@,
        },
{
    let mut i: usize = 0;
    assert(tracks@.skip(0) == tracks@);
    while i < tracks.len()
        invariant
            i <= tracks.len(),
            lookup(tracks@, code@) == lookup(tracks@.skip(i as int), code@),
            forall|j: int| 0 <= j < i ==> (#[trigger] tracks@[j]).language_code@ != code@,
        decreases tracks.len() - i,
    {
        assert(tracks@.skip(i as int).skip(1) == tracks@.skip(i as int + 1));
        if same_text(&tracks[i].language_code, code) {
            return Some(i);
        }
        i += 1;
    }
    None
}

/// Adding a track at the end changes what is found only for its own
/// language, and only where nothing was found before.
pub proof fn lemma_lookup_push(tracks: Seq<CaptionTrack>, track: CaptionTrack, code: Seq<char>)
    ensures
        lookup(tracks.push(track), code) == match lookup(tracks, code) {
            Some(t) => Some(t),
            None => if track.language_code@ == code {
                Some(track)
            } else {
                None
            },
        },
    decreases tracks.len(),
{
    let longer = tracks.push(track);
    if tracks.len() == 0 {
        assert(longer[0] == track);
        assert(longer.skip(1) =~= Seq::<CaptionTrack>::empty());
        assert(lookup(longer.skip(1), code) is None);
    } else {
        assert(longer[0] == tracks[0]);
        assert(longer.skip(1) =~= tracks.skip(1).push(track));
        if tracks[0].language_code@ != code {
            lemma_lookup_push(tracks.skip(1), track, code);
        }
    }
}

impl TranscriptList {
    /// Each group holds tracks of its own kind, one for a language at most.
    pub open spec fn wf(&self) -> bool {
        &&& keyed(self.manually_created@, TrackKind::Manual)
        &&& keyed(self.generated@, TrackKind::Generated)
    }

    /// The track that the order of preference `codes` picks: for the first
    /// code that has a track, the one a person wrote where there is one,
    /// else the generated one.
    pub open spec fn preferred(&self, codes: Seq<Seq<char>>) -> Option<CaptionTrack>
        decreases codes.len(),
    {
        if codes.len() == 0 {
            None
        } else {
            match lookup(self.manually_created@, codes[0]) {
                Some(track) => Some(track),
                None => match lookup(self.generated@, codes[0]) {
                    Some(track) => Some(track),
                    None => self.preferred(codes.skip(1)),
                },
            }
        }
    }

    /// The catalog of the video `video_id` with the tracks `tracks`. Where
    /// two tracks of one kind are in the same language, the later one stays.
    pub fn build(
        video_id: String,
        tracks: Vec<CaptionTrack>,
        translation_languages: Vec<TranslationLanguage>,
    ) -> (list: Self)
        ensures
            list.wf(),
            list.video_id == video_id,
            list.translation_languages == translation_languages,
            forall|code: Seq<char>|
                lookup(list.manually_created@, code) == #[trigger] last_of(
                    tracks@,
                    TrackKind::Manual,
                    code,
                ),
            forall|code: Seq<char>|
                lookup(list.generated@, code) == #[trigger] last_of(
                    tracks@,
                    TrackKind::Generated,
                    code,
                ),
    {
        let ghost all = tracks@;
        let mut rest = tracks;
        let mut manual: Vec<CaptionTrack> = Vec::new();
        let mut generated: Vec<CaptionTrack> = Vec::new();
        while rest.len() > 0
            invariant
                keyed(manual@, TrackKind::Manual),
                keyed(generated@, TrackKind::Generated),
                forall|code: Seq<char>|
                    #[trigger] last_of(all, TrackKind::Manual, code) == match lookup(manual@, code) {
                        Some(t) => Some(t),
                        None => last_of(rest@, TrackKind::Manual, code),
                    },
                forall|code: Seq<char>|
                    #[trigger] last_of(all, TrackKind::Generated, code) == match lookup(
                        generated@,
                        code,
                    ) {
                        Some(t) => Some(t),
                        None => last_of(rest@, TrackKind::Generated, code),
                    },
            decreases rest.len(),
        {
            let ghost before = rest@;
            let ghost manual_before = manual@;
            let ghost generated_before = generated@;
            let track = rest.pop().unwrap();
            assert(rest@ == before.drop_last());
            assert(track == before.last());
            match track.kind {
                TrackKind::Manual => {
                    if position_of(&manual, track.language_code.as_str()).is_none() {
                        manual.push(track);
                        assert forall|code: Seq<char>|
                            #[trigger] last_of(all, TrackKind::Manual, code) == match lookup(
                                manual@,
                                code,
                            ) {
                                Some(t) => Some(t),
                                None => last_of(rest@, TrackKind::Manual, code),
                            } by {
                            lemma_lookup_push(manual_before, track, code);
                        }
                    }
                },
                TrackKind::Generated => {
                    if position_of(&generated, track.language_code.as_str()).is_none() {
                        generated.push(track);
                        assert forall|code: Seq<char>|
                            #[trigger] last_of(all, TrackKind::Generated, code) == match lookup(
                                generated@,
                                code,
                            ) {
                                Some(t) => Some(t),
                                None => last_of(rest@, TrackKind::Generated, code),
                            } by {
                            lemma_lookup_push(generated_before, track, code);
                        }
                    }
                },
            }
        }
        TranscriptList { video_id, manually_created: manual, generated, translation_languages }
    }

    /// The track for the first of `language_codes` that has one; for each
    /// code a track that a person wrote comes before a generated one. Where
    /// no code has a track: `NoTranscriptFound`, with the video and the codes.
    pub fn find_transcript(&self, language_codes: &[&str]) -> (r: Result<
        &CaptionTrack,
        TranscriptError,
    >)
        ensures
            match self.preferred(code_views(language_codes@)) {
                Some(track) => r matches Ok(t) && *t == track,
                None => r matches Err(TranscriptError::NoTranscriptFound(id, codes))
                    && id@ == self.video_id@ && crate::error::words(codes@) == code_views(
                    language_codes@,
                ),
            },
    {
        let ghost wanted = code_views(language_codes@);
        let mut i: usize = 0;
        assert(wanted.skip(0) == wanted);
        while i < language_codes.len()
            invariant
                i <= language_codes.len(),
                wanted == code_views(language_codes@),
                self.preferred(wanted) == self.preferred(wanted.skip(i as int)),
            decreases language_codes.len() - i,
        {
            assert(wanted.skip(i as int)[0] == language_codes@[i as int]@);
            assert(wanted.skip(i as int).skip(1) == wanted.skip(i as int + 1));
            match position_of(&self.manually_created, language_codes[i]) {
                Some(at) => {
                    return Ok(&self.manually_created[at]);
                },
                None => {},
            }
            match position_of(&self.generated, language_codes[i]) {
                Some(at) => {
                    return Ok(&self.generated[at]);
                },
                None => {},
            }
            i += 1;
        }
        let mut codes: Vec<String> = Vec::new();
        let mut k: usize = 0;
        while k < language_codes.len()
            invariant
                k <= language_codes.len(),
                codes@.len() == k,
                forall|j: int| 0 <= j < k ==> (#[trigger] codes@[j])@ == language_codes@[j]@,
            decreases language_codes.len() - k,
        {
            codes.push(String::from_str(language_codes[k]));
            k += 1;
        }
        assert(crate::error::words(codes@) =~= code_views(language_codes@));
        Err(TranscriptError::NoTranscriptFound(self.video_id.clone(), codes))
    }

    /// Whether the tracks of this video can be translated at all: whether
    /// there is any language to translate into.
    pub fn is_translatable(&self, track: &CaptionTrack) -> (b: bool)
        ensures
            b == (self.translation_languages@.len() > 0),
    {
        self.translation_languages.len() > 0
    }

    /// The track `track` translated into the language `target_code`: a new
    /// track in that language whose URL asks for the translation. With no
    /// language to translate into: `NotTranslatable`, with the video. With
    /// languages, but not this one: `TranslationLanguageNotAvailable`, with
    /// the code.
    pub fn translate(&self, track: &CaptionTrack, target_code: &str) -> (r: Result<
        CaptionTrack,
        TranscriptError,
    >)
        ensures
            if self.translation_languages@.len() == 0 {
                r matches Err(TranscriptError::NotTranslatable(id)) && id@ == self.video_id@
            } else {
                match language_named(self.translation_languages@, target_code@) {
                    None => r matches Err(TranscriptError::TranslationLanguageNotAvailable(code))
                        && code@ == target_code@,
                    Some(language) => r matches Ok(t) && t.language@ == language.language@
                        && t.language_code@ == target_code@ && t.kind == track.kind && t.base_url@
                        == translated_url(track.base_url@, target_code@)
                        && t.translation_codes@.len() == 0,
                }
            },
    {
        if self.translation_languages.len() == 0 {
            return Err(TranscriptError::NotTranslatable(self.video_id.clone()));
        }
        let languages = &self.translation_languages;
        let mut i: usize = 0;
        assert(languages@.skip(0) == languages@);
        while i < languages.len()
            invariant
                i <= languages.len(),
                languages == &self.translation_languages,
                language_named(languages@, target_code@) == language_named(
                    languages@.skip(i as int),
                    target_code@,
                ),
            decreases languages.len() - i,
        {
            assert(languages@.skip(i as int).skip(1) == languages@.skip(i as int + 1));
            if same_text(&languages[i].language_code, target_code) {
                let mut url = track.base_url.clone();
                url.append("&tlang=");
                url.append(target_code);
                return Ok(
                    CaptionTrack {
                        language: languages[i].language.clone(),
                        language_code: String::from_str(target_code),
                        kind: track.kind,
                        base_url: url,
                        translation_codes: Vec::new(),
                    },
                );
            }
            i += 1;
        }
        Err(TranscriptError::TranslationLanguageNotAvailable(String::from_str(target_code)))
    }
}


/// Whether the video has a track of either kind in the language `code`.
pub open spec fn has_track(list: TranscriptList, code: Seq<char>) -> bool {
    lookup(list.manually_created@, code) is Some || lookup(list.generated@, code) is Some
}

/// What is found in a well-formed group is of the group's kind and in the
/// language asked for.
pub proof fn lemma_lookup_finds_its_kind(tracks: Seq<CaptionTrack>, kind: TrackKind, code: Seq<char>)
    requires
        keyed(tracks, kind),
    ensures
        lookup(tracks, code) matches Some(t) ==> t.kind == kind && t.language_code@ == code,
    decreases tracks.len(),
{
    if tracks.len() > 0 && tracks[0].language_code@ != code {
        let rest = tracks.skip(1);
        assert forall|i: int| 0 <= i < rest.len() implies (#[trigger] rest[i]).kind == kind by {
            assert(rest[i] == tracks[i + 1]);
        }
        assert forall|i: int, j: int| 0 <= i < j < rest.len() implies (
        #[trigger] rest[i]).language_code@ != (#[trigger] rest[j]).language_code@ by {
            assert(rest[i] == tracks[i + 1]);
            assert(rest[j] == tracks[j + 1]);
        }
        lemma_lookup_finds_its_kind(rest, kind, code);
    }
}

/// The first language of the order of preference that has any track
/// decides, and where that language has a track that a person wrote, that
/// track is the one found, whether or not a generated one exists beside it.
/// Where it has only a generated track, that one is found.
pub proof fn law_manual_track_is_preferred(list: TranscriptList, codes: Seq<Seq<char>>, k: int)
    requires
        list.wf(),
        0 <= k < codes.len(),
        forall|j: int| 0 <= j < k ==> !has_track(list, #[trigger] codes[j]),
        has_track(list, codes[k]),
    ensures
        list.preferred(codes) == match lookup(list.manually_created@, codes[k]) {
            Some(track) => Some(track),
            None => lookup(list.generated@, codes[k]),
        },
        lookup(list.manually_created@, codes[k]) is Some ==> (list.preferred(codes) matches Some(t)
            && t.kind == TrackKind::Manual && t.language_code@ == codes[k]),
    decreases k,
{
    lemma_lookup_finds_its_kind(list.manually_created@, TrackKind::Manual, codes[k]);
    if k > 0 {
        assert(!has_track(list, codes[0]));
        let rest = codes.skip(1);
        assert forall|j: int| 0 <= j < k - 1 implies !has_track(list, #[trigger] rest[j]) by {
            assert(rest[j] == codes[j + 1]);
        }
        assert(rest[k - 1] == codes[k]);
        law_manual_track_is_preferred(list, rest, k - 1);
    }
}

/// Where no language of the order of preference has a track of either
/// kind, nothing is found.
pub proof fn law_no_track_no_transcript(list: TranscriptList, codes: Seq<Seq<char>>)
    requires
        forall|j: int| 0 <= j < codes.len() ==> !has_track(list, #[trigger] codes[j]),
    ensures
        list.preferred(codes) is None,
    decreases codes.len(),
{
    if codes.len() > 0 {
        assert(!has_track(list, codes[0]));
        let rest = codes.skip(1);
        assert forall|j: int| 0 <= j < rest.len() implies !has_track(list, #[trigger] rest[j]) by {
            assert(rest[j] == codes[j + 1]);
        }
        law_no_track_no_transcript(list, rest);
    }
}

} // verus!
