use crate::error::TranscriptError;
use crate::text::{chars_of, string_of, trim, trim_spec};
use vstd::prelude::*;
use vstd::string::*;

verus! {

/// What the assistant is told it is.
pub open spec fn system_message_spec() -> Seq<char> {
    "You are a helpful assistant that cleans up and improves transcripts while preserving their original meaning. You remove promotional content like product mentions, website URLs, course offers, and training programs."@
}

/// What is asked of the assistant, before the transcript.
pub open spec fn request_spec() -> Seq<char> {
    "Please clean up and improve the following transcript. \
Fix any grammar errors, improve sentence structure, remove filler words and repetitions, \
and make it more readable while preserving the original meaning and content. \
Do not add any information that wasn't in the original transcript.\n\n\
IMPORTANT: Remove all references to products, websites, courses, training programs, \
email addresses, social media handles, or any promotional content that the presenter may offer. \
Focus only on the educational or informational content.\n\n"@
}

/// What is asked in addition where the answer is to be in Markdown.
pub open spec fn markdown_request_spec() -> Seq<char> {
    "Format the cleaned transcript using Markdown syntax. Use appropriate markdown elements like:\n\
- **Bold** for emphasis on important points\n\
- *Italics* for subtle emphasis\n\
- Headings (##, ###) to organize sections if the transcript has clear topics\n\
- Bullet points (-) or numbered lists (1.) for lists\n\
- Blockquotes (>) for notable quotes\n\
- Line breaks between paragraphs\n\
Make it well-structured and readable with proper markdown formatting.\n\n"@
}

/// The whole prompt: the request, the request for Markdown where it is
/// wanted, and the transcript under its heading.
pub open spec fn prompt_spec(transcript_text: Seq<char>, format_markdown: bool) -> Seq<char> {
    request_spec() + (if format_markdown {
        markdown_request_spec()
    } else {
        Seq::empty()
    }) + "Transcript:\n\n"@ + transcript_text
}

/// What the assistant is told it is.
pub fn system_message() -> (message: String)
    ensures
        message@ == system_message_spec(),
{
    String::from_str(
        "You are a helpful assistant that cleans up and improves transcripts while preserving their original meaning. You remove promotional content like product mentions, website URLs, course offers, and training programs.",
    )
}

/// The prompt that asks to clean up `transcript_text`.
pub fn cleanup_prompt(transcript_text: &str, format_markdown: bool) -> (prompt: String)
    ensures
        prompt@ == prompt_spec(transcript_text@, format_markdown),
{
    let mut prompt = String::from_str(
        "Please clean up and improve the following transcript. \
Fix any grammar errors, improve sentence structure, remove filler words and repetitions, \
and make it more readable while preserving the original meaning and content. \
Do not add any information that wasn't in the original transcript.\n\n\
IMPORTANT: Remove all references to products, websites, courses, training programs, \
email addresses, social media handles, or any promotional content that the presenter may offer. \
Focus only on the educational or informational content.\n\n",
    );
    if format_markdown {
        prompt.append(
            "Format the cleaned transcript using Markdown syntax. Use appropriate markdown elements like:\n\
- **Bold** for emphasis on important points\n\
- *Italics* for subtle emphasis\n\
- Headings (##, ###) to organize sections if the transcript has clear topics\n\
- Bullet points (-) or numbered lists (1.) for lists\n\
- Blockquotes (>) for notable quotes\n\
- Line breaks between paragraphs\n\
Make it well-structured and readable with proper markdown formatting.\n\n",
        );
    } else {
        assert(prompt@ + Seq::<char>::empty() =~= prompt@);
    }
    prompt.append("Transcript:\n\n");
    prompt.append(transcript_text);
    prompt
}

/// The cleaned text out of the assistant's answers: the first answer,
/// trimmed. With no answer at all: `HttpError`.
pub fn first_answer(answers: &[String]) -> (r: Result<String, TranscriptError>)
    ensures
        if answers@.len() == 0 {
            r matches Err(TranscriptError::HttpError(m)) && m@ == "No response from OpenAI API"@
        } else {
            r matches Ok(text) && text@ == trim_spec(answers@[0]@)
        },
{
    if answers.len() == 0 {
        return Err(TranscriptError::HttpError(String::from_str("No response from OpenAI API")));
    }
    let chars = chars_of(answers[0].as_str());
    let trimmed = trim(chars.as_slice());
    Ok(string_of(trimmed.as_slice()))
}


/// What is said of an answer whose status tells of no success: the status
/// as the service wrote it, and the body.
pub open spec fn api_error_message(status_text: Seq<char>, body: Seq<char>) -> Seq<char> {
    "OpenAI API error ("@ + status_text + "): "@ + body
}

/// Whether the status `status` tells of a success: from 200 to 299.
pub fn status_is_success(status: u16) -> (b: bool)
    ensures
        b == (200 <= status <= 299),
{
    200 <= status && status <= 299
}

/// The error for an answer whose status tells of no success: an `HttpError`
/// with the status, as `status_text` writes it, and the body.
pub fn api_error(status_text: &str, body: &str) -> (e: TranscriptError)
    ensures
        e matches TranscriptError::HttpError(m) && m@ == api_error_message(status_text@, body@),
{
    let mut message = String::from_str("OpenAI API error (");
    message.append(status_text);
    message.append("): ");
    message.append(body);
    TranscriptError::HttpError(message)
}

/// Judges the answer of the service by its status: a status from 200 to
/// 299 is a success; any other is an `HttpError` that tells the status, as
/// `status_text` writes it, and the body.
pub fn check_api_response(status: u16, status_text: &str, body: &str) -> (r: Result<
    (),
    TranscriptError,
>)
    ensures
        if 200 <= status <= 299 {
            r is Ok
        } else {
            r matches Err(TranscriptError::HttpError(m)) && m@ == api_error_message(
                status_text@,
                body@,
            )
        },
{
    if status_is_success(status) {
        Ok(())
    } else {
        Err(api_error(status_text, body))
    }
}

/// The error for a request that could not be made, with the words of the
/// failure.
pub fn request_failed(detail: &str) -> (e: TranscriptError)
    ensures
        e matches TranscriptError::HttpError(m) && m@ == "Failed to call OpenAI API: "@ + detail@,
{
    let mut message = String::from_str("Failed to call OpenAI API: ");
    message.append(detail);
    TranscriptError::HttpError(message)
}

/// The error for an answer that could not be read, with the words of the
/// failure.
pub fn response_unreadable(detail: &str) -> (e: TranscriptError)
    ensures
        e matches TranscriptError::JsonParseError(m) && m@ == "Failed to parse OpenAI response: "@
            + detail@,
{
    let mut message = String::from_str("Failed to parse OpenAI response: ");
    message.append(detail);
    TranscriptError::JsonParseError(message)
}

/// The error for a key that was neither given nor found.
pub fn missing_key() -> (e: TranscriptError)
    ensures
        e matches TranscriptError::HttpError(m) && m@
            == "OpenAI API key not found. Set OPENAI_API_KEY environment variable or use --openai-key flag"@,
{
    TranscriptError::HttpError(
        String::from_str(
            "OpenAI API key not found. Set OPENAI_API_KEY environment variable or use --openai-key flag",
        ),
    )
}

} // verus!
