use ytt::cleanup::{
    api_error, check_api_response, cleanup_prompt, first_answer, missing_key, request_failed,
    response_unreadable, status_is_success, system_message,
};
use ytt::error::TranscriptError;

#[test]
fn prompt_without_markdown() {
    let prompt = cleanup_prompt("hello there", false);
    assert!(prompt.starts_with("Please clean up and improve the following transcript. Fix any grammar errors,"));
    assert!(prompt.contains("original transcript.\n\nIMPORTANT: Remove all references to products"));
    assert!(prompt.ends_with("informational content.\n\nTranscript:\n\nhello there"));
    assert!(!prompt.contains("Markdown"));
}

#[test]
fn prompt_with_markdown() {
    let prompt = cleanup_prompt("hello there", true);
    assert!(prompt.contains("informational content.\n\nFormat the cleaned transcript using Markdown syntax."));
    assert!(prompt.contains("elements like:\n- **Bold** for emphasis on important points\n- *Italics* for subtle emphasis\n"));
    assert!(prompt.ends_with("proper markdown formatting.\n\nTranscript:\n\nhello there"));
}

#[test]
fn system_message_is_fixed() {
    assert!(system_message().starts_with("You are a helpful assistant that cleans up"));
    assert!(system_message().ends_with("course offers, and training programs."));
}

#[test]
fn first_answer_is_trimmed() {
    assert_eq!(
        first_answer(&["  cleaned text \n".to_string(), "second".to_string()]),
        Ok("cleaned text".to_string())
    );
    assert_eq!(first_answer(&["\u{a0}x\u{2003}".to_string()]), Ok("x".to_string()));
    assert_eq!(first_answer(&["".to_string()]), Ok("".to_string()));
}

#[test]
fn no_answer_is_an_error() {
    assert_eq!(
        first_answer(&[]),
        Err(TranscriptError::HttpError("No response from OpenAI API".to_string()))
    );
}

#[test]
fn answers_are_judged_by_their_status() {
    assert_eq!(check_api_response(200, "200 OK", "{}"), Ok(()));
    assert_eq!(check_api_response(299, "299", ""), Ok(()));
    assert_eq!(
        check_api_response(401, "401 Unauthorized", "bad key"),
        Err(TranscriptError::HttpError("OpenAI API error (401 Unauthorized): bad key".to_string()))
    );
    assert_eq!(
        check_api_response(199, "199", ""),
        Err(TranscriptError::HttpError("OpenAI API error (199): ".to_string()))
    );
    assert_eq!(
        check_api_response(300, "300 Multiple Choices", "x"),
        Err(TranscriptError::HttpError("OpenAI API error (300 Multiple Choices): x".to_string()))
    );
}

#[test]
fn failures_of_the_service_have_their_words() {
    assert_eq!(
        request_failed("timed out"),
        TranscriptError::HttpError("Failed to call OpenAI API: timed out".to_string())
    );
    assert_eq!(
        response_unreadable("missing field"),
        TranscriptError::JsonParseError("Failed to parse OpenAI response: missing field".to_string())
    );
    assert_eq!(
        missing_key(),
        TranscriptError::HttpError(
            "OpenAI API key not found. Set OPENAI_API_KEY environment variable or use --openai-key flag"
                .to_string()
        )
    );
}

#[test]
fn success_is_a_status_in_the_two_hundreds() {
    assert!(status_is_success(200));
    assert!(status_is_success(204));
    assert!(status_is_success(299));
    assert!(!status_is_success(199));
    assert!(!status_is_success(300));
    assert!(!status_is_success(404));
    assert_eq!(
        api_error("500 Internal Server Error", "oops"),
        TranscriptError::HttpError("OpenAI API error (500 Internal Server Error): oops".to_string())
    );
}
