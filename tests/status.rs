use imap_bar::status::OutputMode;

#[test]
fn i3_without_unread_has_no_accent() {
    assert_eq!(
        "{\"full_text\": \"(0) 0\", \"color\": \"\"}",
        OutputMode::I3.render_status(0, 0)
    );
    assert_eq!(
        "{\"full_text\": \"(0) 42\", \"color\": \"\"}",
        OutputMode::I3.render_status(0, 42)
    );
}

#[test]
fn i3_with_unread_has_accent() {
    assert_eq!(
        "{\"full_text\": \"(3) 42\", \"color\": \"#00cc00\"}",
        OutputMode::I3.render_status(3, 42)
    );
    assert_eq!(
        "{\"full_text\": \"(1) 0\", \"color\": \"#00cc00\"}",
        OutputMode::I3.render_status(1, 0)
    );
}

#[test]
fn waybar_flag_follows_unread() {
    assert_eq!(
        "{\"text\": \"(0) 7\", \"alt\": \"false\"}",
        OutputMode::Waybar.render_status(0, 7)
    );
    assert_eq!(
        "{\"text\": \"(12) 4294967295\", \"alt\": \"true\"}",
        OutputMode::Waybar.render_status(12, u32::MAX)
    );
}
