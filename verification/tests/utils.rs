use netero::utils::{capitalize, current_datetime, display_reply, get_user, render_markdown};

#[test]
fn test_capitalize() {
    assert_eq!(capitalize("hash"), "Hash");
}

#[test]
fn test_render_markdown() {
    let text = "Hello";
    let rendered = render_markdown(text);
    assert!(rendered.contains("Hello"));
}

#[test]
fn capitalize_leaves_the_rest_alone() {
    assert_eq!(capitalize("hASH tABLE"), "HASH tABLE");
    assert_eq!(capitalize("a"), "A");
    assert_eq!(capitalize("Z"), "Z");
    assert_eq!(capitalize("9 lives"), "9 lives");
}

#[test]
fn capitalize_of_nothing_is_nothing() {
    assert_eq!(capitalize(""), "");
}

#[test]
fn capitalize_gives_up_on_a_first_character_outside_ascii() {
    assert_eq!(capitalize("\u{e9}cole"), "");
    assert_eq!(capitalize("\u{df}"), "");
}

#[test]
fn get_user_capitalizes_the_login_name() {
    assert_eq!(get_user(Some("ada")), "Ada");
    assert_eq!(get_user(None), "User");
    assert_eq!(get_user(Some("")), "");
}

#[test]
fn current_datetime_has_the_shape_of_a_timestamp() {
    let now = current_datetime();
    let chars: Vec<char> = now.chars().collect();
    assert_eq!(chars.len(), 19);
    assert_eq!(chars[4], '-');
    assert_eq!(chars[7], '-');
    assert_eq!(chars[10], ' ');
    assert_eq!(chars[13], ':');
    assert_eq!(chars[16], ':');
    assert!(chars[0].is_ascii_digit());
    assert!(chars[18].is_ascii_digit());
}

#[test]
fn display_reply_begins_with_an_empty_line() {
    let shown = display_reply("Hello");
    assert!(shown.starts_with('\n'));
    assert!(shown.contains("Hello"));
}

#[test]
fn render_markdown_lays_out_emphasis() {
    let rendered = render_markdown("some **bold** text");
    assert!(rendered.contains("bold"));
    assert!(!rendered.contains("**bold**"));
}
