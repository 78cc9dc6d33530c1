use crate::error::TranscriptError;
use crate::text::{chars_of, contains, find};
use vstd::prelude::*;
use vstd::string::*;

verus! {

/// What a caller sets: the least time between two requests, in
/// milliseconds; the languages wanted, most wanted first; the language to
/// translate into, if any.
#[derive(Debug, PartialEq, Eq)]
pub struct Config {
    pub delay_ms: u64,
    pub languages: Vec<String>,
    pub translate_to: Option<String>,
}

impl Default for Config {
    /// Half a second between requests, English, no translation.
    fn default() -> (config: Self)
        ensures
            config.delay_ms == 500,
            config.languages@.len() == 1,
            config.languages@[0]@ == "en"@,
            config.translate_to is None,
    {
        let mut languages: Vec<String> = Vec::new();
        languages.push(String::from_str("en"));
        Config { delay_ms: 500, languages, translate_to: None }
    }
}

/// The name and the value of the cookie that says the consent page was
/// answered.
pub fn consent_cookie() -> (cookie: (String, String))
    ensures
        cookie.0@ == "CONSENT"@,
        cookie.1@ == "YES+1"@,
{
    (String::from_str("CONSENT"), String::from_str("YES+1"))
}

/// What a response means for the request that was made.
#[derive(Clone, Copy, PartialEq, Eq, Structural, Debug)]
pub enum ResponseVerdict {
    /// The body is what was asked for.
    Accepted,
    /// The address was blocked for asking too much.
    IpBlocked,
    /// The request was taken for that of a machine.
    RequestBlocked,
}

/// The mark of the page that asks to solve a puzzle.
pub open spec fn puzzle_mark() -> Seq<char> {
    "class=\"g-recaptcha\""@
}

/// The mark of the page that asks to sign in to show one is no machine.
pub open spec fn sign_in_mark() -> Seq<char> {
    "Sign in to confirm you"@
}

/// What the response with the status `status` and the body `body` means.
/// Outside `200..=299` the status decides: 429 tells of a blocked address,
/// any other of a blocked request. Inside, the body decides: the puzzle
/// page tells of a blocked address, the sign-in page of a blocked request.
pub open spec fn response_verdict(status: u16, body: Seq<char>) -> ResponseVerdict {
    if status < 200 || status > 299 {
        if status == 429 {
            ResponseVerdict::IpBlocked
        } else {
            ResponseVerdict::RequestBlocked
        }
    } else if contains(body, puzzle_mark()) {
        ResponseVerdict::IpBlocked
    } else if contains(body, sign_in_mark()) {
        ResponseVerdict::RequestBlocked
    } else {
        ResponseVerdict::Accepted
    }
}

/// Judges the response to a request made for the video `video_id`.
pub fn check_response(video_id: &str, status: u16, body: &str) -> (r: Result<(), TranscriptError>)
    ensures
        match response_verdict(status, body@) {
            ResponseVerdict::Accepted => r is Ok,
            ResponseVerdict::IpBlocked => r matches Err(TranscriptError::IpBlocked(id)) && id@
                == video_id@,
            ResponseVerdict::RequestBlocked => r matches Err(TranscriptError::RequestBlocked(id))
                && id@ == video_id@,
        },
{
    if status < 200 || status > 299 {
        if status == 429 {
            return Err(TranscriptError::IpBlocked(String::from_str(video_id)));
        }
        return Err(TranscriptError::RequestBlocked(String::from_str(video_id)));
    }
    let text = chars_of(body);
    let puzzle = chars_of("class=\"g-recaptcha\"");
    let sign_in = chars_of("Sign in to confirm you");
    if find(text.as_slice(), puzzle.as_slice()).is_some() {
        Err(TranscriptError::IpBlocked(String::from_str(video_id)))
    } else if find(text.as_slice(), sign_in.as_slice()).is_some() {
        Err(TranscriptError::RequestBlocked(String::from_str(video_id)))
    } else {
        Ok(())
    }
}

} // verus!
