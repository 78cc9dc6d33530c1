use ytt::filename::{sanitize_filename, try_sanitize_filename};

#[test]
fn unfit_characters_become_underscores() {
    assert_eq!(sanitize_filename("Hello: World?"), "Hello_World");
    assert_eq!(sanitize_filename("a/b\\c"), "a_b_c");
    assert_eq!(sanitize_filename("v1.2-final_cut"), "v1.2-final_cut");
}

#[test]
fn white_space_is_trimmed_and_joined() {
    assert_eq!(sanitize_filename("  My   Video  Title  "), "My_Video_Title");
    assert_eq!(sanitize_filename("a\tb\nc"), "a_b_c");
    assert_eq!(sanitize_filename("a _ b"), "a_b");
}

#[test]
fn runs_of_underscores_become_one() {
    assert_eq!(sanitize_filename("a___b"), "a_b");
    assert_eq!(sanitize_filename("a!?*b"), "a_b");
    assert_eq!(sanitize_filename("__a__"), "_a");
    assert_eq!(sanitize_filename("!!!"), "");
    assert_eq!(sanitize_filename(""), "");
    assert_eq!(sanitize_filename("   "), "");
}

#[test]
fn letters_of_other_scripts_stay() {
    assert_eq!(sanitize_filename("caf\u{e9} \u{65e5}\u{672c}"), "caf\u{e9}_\u{65e5}\u{672c}");
}

#[test]
fn long_names_are_cut_to_two_hundred_bytes() {
    let long = "a".repeat(250);
    assert_eq!(sanitize_filename(&long), "a".repeat(200));
    let exact = "b".repeat(200);
    assert_eq!(sanitize_filename(&exact), exact);
    let wide = "\u{e9}".repeat(150);
    assert_eq!(sanitize_filename(&wide), "\u{e9}".repeat(100));
    let ends_in_underscore = format!("{}_{}", "a".repeat(199), "b".repeat(10));
    assert_eq!(sanitize_filename(&ends_in_underscore), "a".repeat(199));
}

#[test]
fn cut_inside_a_character_is_reported() {
    let awkward = format!("a{}", "\u{e9}".repeat(150));
    assert_eq!(try_sanitize_filename(&awkward), None);
    let fine = format!("ab{}", "\u{e9}".repeat(150));
    assert_eq!(try_sanitize_filename(&fine), Some(format!("ab{}", "\u{e9}".repeat(99))));
    assert_eq!(try_sanitize_filename("plain name"), Some("plain_name".to_string()));
}
