use ytt::catalog::{TrackKind, TranslationLanguage};
use ytt::error::TranscriptError;
use ytt::watch_page::{
    classify, extract_player_json, extract_playlist_json, find_json_block, label_text,
    CaptionSection, ListedTrack, PageState, Playability,
};

fn listed(code: &str, generated: bool, url: &str) -> ListedTrack {
    ListedTrack {
        name: format!("Language {}", code),
        language_code: code.to_string(),
        kind: if generated { Some("asr".to_string()) } else { None },
        base_url: url.to_string(),
    }
}

fn state(playability: Playability, captions: Option<CaptionSection>) -> PageState {
    PageState { playability, reason: "because".to_string(), captions }
}

#[test]
fn json_block_is_cut_out_by_its_braces() {
    let html = r#"<script>var ytInitialPlayerResponse = {"a":{"b":"}{\"}"},"c":[{}]};var x = {};</script>"#;
    assert_eq!(
        find_json_block(html, "ytInitialPlayerResponse = "),
        Some(r#"{"a":{"b":"}{\"}"},"c":[{}]}"#.to_string())
    );
    assert_eq!(find_json_block(html, "var x = "), Some("{}".to_string()));
}

#[test]
fn json_block_missing_or_unfinished() {
    assert_eq!(find_json_block("<html></html>", "ytInitialPlayerResponse = "), None);
    assert_eq!(find_json_block("var a = [1];", "var a = "), None);
    assert_eq!(find_json_block("var a = {\"k\": {\"x\": 1}", "var a = "), None);
    assert_eq!(find_json_block("var a = {\"k\": \"}", "var a = "), None);
    assert_eq!(find_json_block("var a = ", "var a = "), None);
    assert_eq!(find_json_block("", "m"), None);
}

#[test]
fn json_block_follows_the_first_marker() {
    assert_eq!(find_json_block("m={1}m={2}", "m="), Some("{1}".to_string()));
    assert_eq!(find_json_block("m=[]m={2}", "m="), None);
    assert_eq!(find_json_block("{x}", ""), Some("{x}".to_string()));
}

#[test]
fn unplayable_pages_are_classified() {
    assert_eq!(
        classify("vid", state(Playability::LoginRequired, None)),
        Err(TranscriptError::AgeRestricted("vid".to_string()))
    );
    assert_eq!(
        classify("vid", state(Playability::Gone, None)),
        Err(TranscriptError::VideoUnavailable("vid".to_string()))
    );
    assert_eq!(
        classify("vid", state(Playability::Unplayable, None)),
        Err(TranscriptError::VideoUnplayable("vid".to_string(), "because".to_string()))
    );
}

#[test]
fn missing_captions_mean_transcripts_disabled() {
    assert_eq!(
        classify("vid", state(Playability::Playable, None)),
        Err(TranscriptError::TranscriptsDisabled("vid".to_string()))
    );
}

#[test]
fn token_mark_in_a_track_url_is_reported() {
    let section = CaptionSection {
        tracks: vec![listed("en", false, "https://c/en"), listed("de", true, "https://c/de?a=1&exp=xpe&b")],
        translation_languages: Vec::new(),
    };
    assert_eq!(
        classify("vid", state(Playability::Playable, Some(section))),
        Err(TranscriptError::PoTokenRequired("vid".to_string()))
    );
}

#[test]
fn tracks_are_parted_by_kind_and_keyed_by_language() {
    let section = CaptionSection {
        tracks: vec![
            listed("en", true, "asr"),
            listed("en", false, "old"),
            listed("fr", false, "fr"),
            listed("en", false, "new"),
        ],
        translation_languages: vec![
            TranslationLanguage { language: "German".to_string(), language_code: "de".to_string() },
            TranslationLanguage { language: "Spanish".to_string(), language_code: "es".to_string() },
        ],
    };
    let list = classify("vid", state(Playability::Playable, Some(section))).unwrap();
    assert_eq!(list.video_id, "vid");
    assert_eq!(list.manually_created.len(), 2);
    assert_eq!(list.generated.len(), 1);
    assert_eq!(list.translation_languages.len(), 2);
    assert_eq!(list.translation_languages[1].language_code, "es");
    let en = list.find_transcript(&["en"]).unwrap();
    assert_eq!(en.kind, TrackKind::Manual);
    assert_eq!(en.base_url, "new");
    assert_eq!(en.language, "Language en");
    assert_eq!(en.translation_codes, vec!["de", "es"]);
    assert_eq!(list.generated[0].base_url, "asr");
    assert_eq!(list.generated[0].kind, TrackKind::Generated);
}

#[test]
fn page_without_its_state_is_unparsable() {
    assert_eq!(
        extract_player_json("vid", "<html>nothing here</html>"),
        Err(TranscriptError::YouTubeDataUnparsable("vid".to_string()))
    );
    assert_eq!(
        extract_playlist_json("PL1", "var ytInitialData = [];"),
        Err(TranscriptError::YouTubeDataUnparsable("PL1".to_string()))
    );
}

#[test]
fn page_state_is_found_behind_its_marker() {
    let html = "<script>var ytInitialPlayerResponse = {\"videoDetails\":{\"title\":\"T\"}};</script>";
    assert_eq!(
        extract_player_json("vid", html),
        Ok("{\"videoDetails\":{\"title\":\"T\"}}".to_string())
    );
    let html = "window[\"ytInitialData\"] = 1; var ytInitialData = {\"contents\":[]};";
    assert_eq!(extract_playlist_json("PL1", html), Ok("{\"contents\":[]}".to_string()));
}

#[test]
fn only_speech_recognition_counts_as_generated() {
    let mut forced = listed("en", false, "forced");
    forced.kind = Some("forced".to_string());
    let section = CaptionSection {
        tracks: vec![forced, listed("de", true, "asr")],
        translation_languages: Vec::new(),
    };
    let list = classify("vid", state(Playability::Playable, Some(section))).unwrap();
    assert_eq!(list.manually_created.len(), 1);
    assert_eq!(list.manually_created[0].base_url, "forced");
    assert_eq!(list.generated.len(), 1);
    assert_eq!(list.generated[0].language_code, "de");
}

#[test]
fn label_shows_its_simple_text_or_its_runs() {
    assert_eq!(label_text(Some("English".to_string()), &["x".to_string()]), "English");
    assert_eq!(
        label_text(None, &["English".to_string(), " (auto-generated)".to_string()]),
        "English (auto-generated)"
    );
    assert_eq!(label_text(None, &[]), "");
}
