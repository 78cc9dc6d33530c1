use vstd::prelude::*;
use vstd::std_specs::convert::FromSpecImpl;
use vstd::string::*;

verus! {

/// The input/output error of std, carried through as it is.
#[verifier::external_type_specification]
#[verifier::external_body]
pub struct ExIoError(std::io::Error);

/// The error of serde_json, carried through as it is.
#[verifier::external_type_specification]
#[verifier::external_body]
pub struct ExJsonError(serde_json::Error);

/// Everything that can go wrong between an identifier and its transcript.
#[derive(Debug, Clone, PartialEq, Eq)]
pub enum TranscriptError {
    VideoUnavailable(String),
    TranscriptsDisabled(String),
    NoTranscriptFound(String, Vec<String>),
    AgeRestricted(String),
    IpBlocked(String),
    RequestBlocked(String),
    VideoUnplayable(String, String),
    FailedToCreateConsentCookie(String),
    YouTubeDataUnparsable(String),
    PoTokenRequired(String),
    InvalidVideoId(String),
    HttpError(String),
    XmlParseError(String),
    JsonParseError(String),
    NotTranslatable(String),
    TranslationLanguageNotAvailable(String),
    IoError(String),
}

/// The views of a list of strings.
pub open spec fn words(list: Seq<String>) -> Seq<Seq<char>> {
    list.map_values(|s: String| s@)
}

/// A list of strings as std's `Debug` writes it: in square brackets, each
/// string in double quotes and escaped, with `, ` between them.
pub uninterp spec fn debug_words(list: Seq<Seq<char>>) -> Seq<char>;

/// The `Debug` form of a list of strings, by `format!` of std. The result is
/// named by `debug_words`.
#[verifier::external_body]
fn debug_text(list: &Vec<String>) -> (text: String)
    ensures
        text@ == debug_words(words(list@)),
{
    format!("{:?}", list)
}

/// `to_string` of std on an input/output error: the error's own words. They
/// may depend on the system, so nothing is said of them.
#[verifier::external_body]
fn io_error_text(err: &std::io::Error) -> (text: String) {
    err.to_string()
}

/// `to_string` on an error of serde_json: the error's own words, of which
/// nothing is said here.
#[verifier::external_body]
fn json_error_text(err: &serde_json::Error) -> (text: String) {
    err.to_string()
}

fn labelled(label: &str, detail: &str) -> (out: String)
    ensures
        out@ == label@ + detail@,
{
    let mut out = String::from_str(label);
    out.append(detail);
    out
}

impl TranscriptError {
    /// The one line that tells a person what went wrong.
    pub open spec fn message_spec(&self) -> Seq<char> {
        match self {
            TranscriptError::VideoUnavailable(id) => "Video unavailable: "@ + id@,
            TranscriptError::TranscriptsDisabled(id) => "Transcripts disabled for video: "@ + id@,
            TranscriptError::NoTranscriptFound(id, codes) => "No transcript found for video "@ + id@
                + " in languages: "@ + debug_words(words(codes@)),
            TranscriptError::AgeRestricted(id) => "Age restricted video: "@ + id@,
            TranscriptError::IpBlocked(id) => "IP blocked for video: "@ + id@,
            TranscriptError::RequestBlocked(id) => "Request blocked (bot detected) for video: "@
                + id@,
            TranscriptError::VideoUnplayable(id, reason) => "Video unplayable: "@ + id@ + " - "@
                + reason@,
            TranscriptError::FailedToCreateConsentCookie(id) =>
                "Failed to create consent cookie for video: "@ + id@,
            TranscriptError::YouTubeDataUnparsable(id) => "YouTube data unparsable for video: "@
                + id@,
            TranscriptError::PoTokenRequired(id) => "Protected video requires token: "@ + id@,
            TranscriptError::InvalidVideoId(id) => "Invalid video ID: "@ + id@,
            TranscriptError::HttpError(detail) => "HTTP request failed: "@ + detail@,
            TranscriptError::XmlParseError(detail) => "Failed to parse XML: "@ + detail@,
            TranscriptError::JsonParseError(detail) => "Failed to parse JSON: "@ + detail@,
            TranscriptError::NotTranslatable(id) => "Translation not available: "@ + id@,
            TranscriptError::TranslationLanguageNotAvailable(code) =>
                "Translation language not available: "@ + code@,
            TranscriptError::IoError(detail) => "IO error: "@ + detail@,
        }
    }

    /// The one line that tells a person what went wrong.
    pub fn message(&self) -> (out: String)
        ensures
            out@ == self.message_spec(),
    {
        match self {
            TranscriptError::VideoUnavailable(id) => labelled("Video unavailable: ", id.as_str()),
            TranscriptError::TranscriptsDisabled(id) => labelled(
                "Transcripts disabled for video: ",
                id.as_str(),
            ),
            TranscriptError::NoTranscriptFound(id, codes) => {
                let mut out = labelled("No transcript found for video ", id.as_str());
                out.append(" in languages: ");
                out.append(debug_text(codes).as_str());
                out
            },
            TranscriptError::AgeRestricted(id) => labelled("Age restricted video: ", id.as_str()),
            TranscriptError::IpBlocked(id) => labelled("IP blocked for video: ", id.as_str()),
            TranscriptError::RequestBlocked(id) => labelled(
                "Request blocked (bot detected) for video: ",
                id.as_str(),
            ),
            TranscriptError::VideoUnplayable(id, reason) => {
                let mut out = labelled("Video unplayable: ", id.as_str());
                out.append(" - ");
                out.append(reason.as_str());
                out
            },
            TranscriptError::FailedToCreateConsentCookie(id) => labelled(
                "Failed to create consent cookie for video: ",
                id.as_str(),
            ),
            TranscriptError::YouTubeDataUnparsable(id) => labelled(
                "YouTube data unparsable for video: ",
                id.as_str(),
            ),
            TranscriptError::PoTokenRequired(id) => labelled(
                "Protected video requires token: ",
                id.as_str(),
            ),
            TranscriptError::InvalidVideoId(id) => labelled("Invalid video ID: ", id.as_str()),
            TranscriptError::HttpError(detail) => labelled("HTTP request failed: ", detail.as_str()),
            TranscriptError::XmlParseError(detail) => labelled(
                "Failed to parse XML: ",
                detail.as_str(),
            ),
            TranscriptError::JsonParseError(detail) => labelled(
                "Failed to parse JSON: ",
                detail.as_str(),
            ),
            TranscriptError::NotTranslatable(id) => labelled(
                "Translation not available: ",
                id.as_str(),
            ),
            TranscriptError::TranslationLanguageNotAvailable(code) => labelled(
                "Translation language not available: ",
                code.as_str(),
            ),
            TranscriptError::IoError(detail) => labelled("IO error: ", detail.as_str()),
        }
    }
}

impl From<std::io::Error> for TranscriptError {
    /// An input/output error becomes `IoError` with the error's words.
    fn from(err: std::io::Error) -> (out: Self)
        ensures
            out is IoError,
    {
        TranscriptError::IoError(io_error_text(&err))
    }
}

impl FromSpecImpl<std::io::Error> for TranscriptError {
    open spec fn obeys_from_spec() -> bool {
        false
    }

    open spec fn from_spec(err: std::io::Error) -> Self {
        TranscriptError::IoError(arbitrary())
    }
}

impl From<serde_json::Error> for TranscriptError {
    /// An error of serde_json becomes `JsonParseError` with the error's words.
    fn from(err: serde_json::Error) -> (out: Self)
        ensures
            out is JsonParseError,
    {
        TranscriptError::JsonParseError(json_error_text(&err))
    }
}

impl FromSpecImpl<serde_json::Error> for TranscriptError {
    open spec fn obeys_from_spec() -> bool {
        false
    }

    open spec fn from_spec(err: serde_json::Error) -> Self {
        TranscriptError::JsonParseError(arbitrary())
    }
}

} // verus!
