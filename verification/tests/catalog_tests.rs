use ytt::catalog::{CaptionTrack, TrackKind, TranscriptList, TranslationLanguage};
use ytt::error::TranscriptError;

fn track(code: &str, kind: TrackKind, url: &str) -> CaptionTrack {
    CaptionTrack {
        language: format!("Language {}", code),
        language_code: code.to_string(),
        kind,
        base_url: url.to_string(),
        translation_codes: Vec::new(),
    }
}

fn language(name: &str, code: &str) -> TranslationLanguage {
    TranslationLanguage { language: name.to_string(), language_code: code.to_string() }
}

fn sample(languages: Vec<TranslationLanguage>) -> TranscriptList {
    TranscriptList::build(
        "vid".to_string(),
        vec![
            track("en", TrackKind::Generated, "https://c/en-asr"),
            track("en", TrackKind::Manual, "https://c/en"),
            track("de", TrackKind::Generated, "https://c/de-asr"),
            track("fr", TrackKind::Manual, "https://c/fr"),
        ],
        languages,
    )
}

#[test]
fn manual_track_is_preferred_over_generated() {
    let list = sample(Vec::new());
    let found = list.find_transcript(&["en"]).unwrap();
    assert_eq!(found.kind, TrackKind::Manual);
    assert_eq!(found.base_url, "https://c/en");
}

#[test]
fn first_preferred_language_with_a_track_decides() {
    let list = sample(Vec::new());
    let found = list.find_transcript(&["es", "de", "en"]).unwrap();
    assert_eq!(found.language_code, "de");
    assert_eq!(found.kind, TrackKind::Generated);
    let found = list.find_transcript(&["fr", "en"]).unwrap();
    assert_eq!(found.language_code, "fr");
}

#[test]
fn no_matching_language_is_an_error() {
    let list = sample(Vec::new());
    assert_eq!(
        list.find_transcript(&["es", "it"]),
        Err(TranscriptError::NoTranscriptFound(
            "vid".to_string(),
            vec!["es".to_string(), "it".to_string()]
        ))
    );
    assert_eq!(
        list.find_transcript(&[]),
        Err(TranscriptError::NoTranscriptFound("vid".to_string(), Vec::new()))
    );
}

#[test]
fn later_track_of_the_same_language_and_kind_stays() {
    let list = TranscriptList::build(
        "vid".to_string(),
        vec![
            track("en", TrackKind::Manual, "first"),
            track("de", TrackKind::Manual, "only"),
            track("en", TrackKind::Manual, "second"),
            track("en", TrackKind::Generated, "asr"),
        ],
        Vec::new(),
    );
    assert_eq!(list.manually_created.len(), 2);
    assert_eq!(list.generated.len(), 1);
    assert_eq!(list.find_transcript(&["en"]).unwrap().base_url, "second");
    assert_eq!(list.find_transcript(&["de"]).unwrap().base_url, "only");
}

#[test]
fn translate_without_languages_is_not_translatable() {
    let list = sample(Vec::new());
    let source = track("en", TrackKind::Manual, "https://c/en");
    assert!(!list.is_translatable(&source));
    assert_eq!(
        list.translate(&source, "de"),
        Err(TranscriptError::NotTranslatable("vid".to_string()))
    );
}

#[test]
fn translate_into_unknown_language_is_refused() {
    let list = sample(vec![language("German", "de"), language("French", "fr")]);
    let source = track("en", TrackKind::Manual, "https://c/en");
    assert!(list.is_translatable(&source));
    assert_eq!(
        list.translate(&source, "es"),
        Err(TranscriptError::TranslationLanguageNotAvailable("es".to_string()))
    );
}

#[test]
fn translate_derives_a_track_and_leaves_the_catalog() {
    let list = sample(vec![language("German", "de"), language("French", "fr")]);
    let source = track("en", TrackKind::Manual, "https://c/en?x=1");
    let derived = list.translate(&source, "fr").unwrap();
    assert_eq!(derived.language, "French");
    assert_eq!(derived.language_code, "fr");
    assert_eq!(derived.kind, TrackKind::Manual);
    assert_eq!(derived.base_url, "https://c/en?x=1&tlang=fr");
    assert!(derived.translation_codes.is_empty());
    assert_eq!(list.manually_created.len(), 2);
    assert_eq!(list.generated.len(), 2);
    assert_eq!(list.find_transcript(&["fr"]).unwrap().base_url, "https://c/fr");
}
