use ytt::error::TranscriptError;

#[test]
fn test_error_display() {
    let err = TranscriptError::VideoUnavailable("test123".to_string());
    assert!(err.message().contains("test123"));
}

#[test]
fn test_error_from_io_error() {
    let io_err = std::io::Error::new(std::io::ErrorKind::NotFound, "file not found");
    let transcript_err: TranscriptError = io_err.into();
    assert!(matches!(transcript_err, TranscriptError::IoError(_)));
}

#[test]
fn test_error_from_json_error() {
    let json_err = serde_json::from_str::<serde_json::Value>("invalid json");
    assert!(json_err.is_err());
    if let Err(e) = json_err {
        let transcript_err: TranscriptError = e.into();
        assert!(matches!(transcript_err, TranscriptError::JsonParseError(_)));
    }
}

#[test]
fn io_error_keeps_its_words() {
    let io_err = std::io::Error::new(std::io::ErrorKind::NotFound, "file not found");
    let err = TranscriptError::from(io_err);
    assert_eq!(err, TranscriptError::IoError("file not found".to_string()));
    assert_eq!(err.message(), "IO error: file not found");
}

#[test]
fn json_error_keeps_its_words() {
    let e = serde_json::from_str::<serde_json::Value>("{").unwrap_err();
    let words = e.to_string();
    assert!(!words.is_empty());
    let err = TranscriptError::from(e);
    assert_eq!(err.message(), format!("Failed to parse JSON: {}", words));
}

#[test]
fn every_error_has_its_line() {
    let id = || "abc".to_string();
    assert_eq!(TranscriptError::VideoUnavailable(id()).message(), "Video unavailable: abc");
    assert_eq!(
        TranscriptError::TranscriptsDisabled(id()).message(),
        "Transcripts disabled for video: abc"
    );
    assert_eq!(
        TranscriptError::NoTranscriptFound(id(), vec!["en".to_string(), "d\"e".to_string()])
            .message(),
        "No transcript found for video abc in languages: [\"en\", \"d\\\"e\"]"
    );
    assert_eq!(
        TranscriptError::NoTranscriptFound(id(), Vec::new()).message(),
        "No transcript found for video abc in languages: []"
    );
    assert_eq!(TranscriptError::AgeRestricted(id()).message(), "Age restricted video: abc");
    assert_eq!(TranscriptError::IpBlocked(id()).message(), "IP blocked for video: abc");
    assert_eq!(
        TranscriptError::RequestBlocked(id()).message(),
        "Request blocked (bot detected) for video: abc"
    );
    assert_eq!(
        TranscriptError::VideoUnplayable(id(), "why".to_string()).message(),
        "Video unplayable: abc - why"
    );
    assert_eq!(
        TranscriptError::FailedToCreateConsentCookie(id()).message(),
        "Failed to create consent cookie for video: abc"
    );
    assert_eq!(
        TranscriptError::YouTubeDataUnparsable(id()).message(),
        "YouTube data unparsable for video: abc"
    );
    assert_eq!(
        TranscriptError::PoTokenRequired(id()).message(),
        "Protected video requires token: abc"
    );
    assert_eq!(TranscriptError::InvalidVideoId(id()).message(), "Invalid video ID: abc");
    assert_eq!(TranscriptError::HttpError(id()).message(), "HTTP request failed: abc");
    assert_eq!(TranscriptError::XmlParseError(id()).message(), "Failed to parse XML: abc");
    assert_eq!(TranscriptError::JsonParseError(id()).message(), "Failed to parse JSON: abc");
    assert_eq!(TranscriptError::NotTranslatable(id()).message(), "Translation not available: abc");
    assert_eq!(
        TranscriptError::TranslationLanguageNotAvailable(id()).message(),
        "Translation language not available: abc"
    );
    assert_eq!(TranscriptError::IoError(id()).message(), "IO error: abc");
}
