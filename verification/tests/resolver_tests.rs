use ytt::error::TranscriptError;
use ytt::resolver::{extract_playlist_id, extract_video_id};

#[test]
fn bare_identifier_is_taken_as_it_is() {
    assert_eq!(extract_video_id("dQw4w9WgXcQ"), Ok("dQw4w9WgXcQ".to_string()));
    assert_eq!(extract_video_id("a-b_c-d_e-f"), Ok("a-b_c-d_e-f".to_string()));
}

#[test]
fn all_url_forms_give_the_same_token() {
    let token = "dQw4w9WgXcQ";
    let forms = [
        "https://www.youtube.com/watch?v=dQw4w9WgXcQ",
        "http://www.youtube.com/watch?v=dQw4w9WgXcQ",
        "www.youtube.com/watch?v=dQw4w9WgXcQ",
        "https://youtube.com/watch?v=dQw4w9WgXcQ",
        "https://m.youtube.com/watch?v=dQw4w9WgXcQ",
        "https://www.youtube.com/watch?v=dQw4w9WgXcQ&t=42s",
        "https://www.youtube.com/watch?list=PL123&v=dQw4w9WgXcQ",
        "https://www.youtube.com/watch?v=dQw4w9WgXcQ#top",
        "https://youtu.be/dQw4w9WgXcQ",
        "https://youtu.be/dQw4w9WgXcQ?t=10",
        "youtu.be/dQw4w9WgXcQ/",
        "https://www.youtube.com/embed/dQw4w9WgXcQ",
        "https://www.youtube.com/embed/dQw4w9WgXcQ?autoplay=1",
    ];
    for form in forms {
        assert_eq!(extract_video_id(form), Ok(token.to_string()), "{}", form);
    }
}

#[test]
fn malformed_identifiers_are_refused() {
    let bad = [
        "",
        "short",
        "dQw4w9WgXc",
        "dQw4w9WgXcQQ",
        "dQw4w9WgXc!",
        "dQw4w9 gXcQ",
        "dQw4w9Wg\u{e9}cQ",
        "https://example.com/watch?v=dQw4w9WgXcQ",
        "https://vimeo.com/12345678901",
        "https://www.youtube.com/watch?v=tooshort",
        "https://www.youtube.com/watch?x=dQw4w9WgXcQ",
        "https://www.youtube.com/watch",
        "https://www.youtube.com/playlist?v=dQw4w9WgXcQ",
        "https://youtu.be/",
        "https://youtu.be/dQw4w9WgXcQQ",
        "https://www.youtube.com/embed/",
        "https://www.youtube.com/embed/bad*chars!!",
        "ftp://www.youtube.com/watch?v=dQw4w9WgXcQ",
    ];
    for input in bad {
        assert_eq!(
            extract_video_id(input),
            Err(TranscriptError::InvalidVideoId(input.to_string())),
            "{}",
            input
        );
    }
}

#[test]
fn first_parameter_called_v_decides() {
    assert_eq!(
        extract_video_id("https://www.youtube.com/watch?v=aaaaaaaaaaa&v=bbbbbbbbbbb"),
        Ok("aaaaaaaaaaa".to_string())
    );
    assert_eq!(
        extract_video_id("https://www.youtube.com/watch?v&v=bbbbbbbbbbb"),
        Ok("bbbbbbbbbbb".to_string())
    );
    assert_eq!(
        extract_video_id("https://www.youtube.com/watch?vv=aaaaaaaaaaa&v=bbbbbbbbbbb"),
        Ok("bbbbbbbbbbb".to_string())
    );
}

#[test]
fn playlist_identifier_bare_or_in_a_url() {
    assert_eq!(
        extract_playlist_id("PLrAXtmErZgOeiKm4sgNOknGvNjby9efdf"),
        Ok("PLrAXtmErZgOeiKm4sgNOknGvNjby9efdf".to_string())
    );
    assert_eq!(
        extract_playlist_id("https://www.youtube.com/playlist?list=PLrAXtmErZgOeiKm4sgNOknGvNjby9efdf"),
        Ok("PLrAXtmErZgOeiKm4sgNOknGvNjby9efdf".to_string())
    );
    assert_eq!(
        extract_playlist_id("https://www.youtube.com/watch?v=dQw4w9WgXcQ&list=PL123&index=2"),
        Ok("PL123".to_string())
    );
}

#[test]
fn playlist_identifier_missing_is_refused() {
    for input in [
        "",
        "https://www.youtube.com/watch?v=dQw4w9WgXcQ",
        "https://www.youtube.com/playlist?list=",
        "https://www.youtube.com/playlist?list=bad id",
        "https://www.youtube.com/playlist#list=PL123",
        "not a playlist",
    ] {
        assert_eq!(
            extract_playlist_id(input),
            Err(TranscriptError::InvalidVideoId(input.to_string())),
            "{}",
            input
        );
    }
}
