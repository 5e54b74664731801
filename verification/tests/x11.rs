use pinakey::x11::parse_wm_class;

#[test]
fn parses_instance_and_class() {
    assert_eq!(parse_wm_class(b"google-chrome\0Google-chrome\0").as_deref(), Some("Google-chrome"));
    assert_eq!(parse_wm_class(b"firefox\0Firefox\0").as_deref(), Some("Firefox"));
}

#[test]
fn parses_single_component() {
    assert_eq!(parse_wm_class(b"xterm\0").as_deref(), Some("xterm"));
}

#[test]
fn empty_is_none() {
    assert_eq!(parse_wm_class(b""), None);
    assert_eq!(parse_wm_class(b"\0\0"), None);
}

#[test]
fn empty_pieces_skipped_and_invalid_utf8_replaced() {
    assert_eq!(parse_wm_class(b"\0\0a\0\0b\0c").as_deref(), Some("b"));
    assert_eq!(parse_wm_class(b"x\0\xffy").as_deref(), Some("\u{fffd}y"));
}
