use pinakey::action::Action;
use pinakey::display::{diff_replace, fold_actions, join_lines, DisplayState};

fn pre(t: &str, c: u32) -> Action {
    Action::UpdatePreedit { text: t.to_string(), cursor: c, underline: true }
}

#[test]
fn diff_replace_basics() {
    assert_eq!(diff_replace("vie", "viê"), (1, "ê".to_string()));
    assert_eq!(diff_replace("tiếng", "tiếng "), (0, " ".to_string()));
    assert_eq!(diff_replace("", "abc"), (0, "abc".to_string()));
    assert_eq!(diff_replace("abc", "ab"), (1, String::new()));
    assert_eq!(diff_replace("viêt", "việt"), (2, "ệt".to_string()));
    assert_eq!(diff_replace("xin", "xin"), (0, String::new()));
}

#[test]
fn fold_keeps_last_preedit_and_all_commits() {
    let f = fold_actions(&[
        Action::CommitText("a".to_string()),
        pre("x", 1),
        Action::HideAuxiliary,
        Action::CommitText("b".to_string()),
        pre("yz", 2),
    ]);
    assert_eq!(f.commit, "ab");
    assert_eq!(f.preedit, Some(("yz".to_string(), 2, true)));
    assert!(!f.hide);
    let f = fold_actions(&[pre("x", 1), Action::HidePreedit]);
    assert_eq!(f.preedit, None);
    assert!(f.hide);
    let f = fold_actions(&[Action::HidePreedit, pre("q", 1)]);
    assert!(!f.hide);
}

#[test]
fn preedit_mode_display() {
    let mut d = DisplayState::new();
    d.apply(&[pre("việ", 3)]);
    assert_eq!(d.preedit, "việ");
    assert!(d.preedit_visible);
    assert_eq!(d.preedit_cursor, 3);
    assert!(d.is_composing());
    d.apply(&[Action::HideLookupTable]);
    assert_eq!(d.preedit, "việ");
    d.apply(&[Action::CommitText("việt ".to_string()), Action::HidePreedit]);
    assert_eq!(d.commit, "việt ");
    assert_eq!(d.preedit, "");
    assert!(!d.preedit_visible);
    d.apply(&[pre("a\0b", 1)]);
    assert_eq!(d.preedit, "");
    assert!(!d.preedit_visible);
}

#[test]
fn replace_mode_follows_the_segment() {
    let mut d = DisplayState::new();
    d.apply_replace(&[pre("vi", 2)]);
    assert_eq!((d.replace_delete, d.replace_insert.as_str()), (0, "vi"));
    d.apply_replace(&[pre("viê", 3)]);
    assert_eq!((d.replace_delete, d.replace_insert.as_str()), (0, "ê"));
    d.apply_replace(&[pre("việt", 4)]);
    assert_eq!((d.replace_delete, d.replace_insert.as_str()), (1, "ệt"));
    assert_eq!(d.replace_segment, "việt");
    d.apply_replace(&[]);
    assert_eq!((d.replace_delete, d.replace_insert.as_str()), (0, ""));
    assert_eq!(d.replace_segment, "việt");
    d.apply_replace(&[Action::CommitText("việt ".to_string()), Action::HidePreedit]);
    assert_eq!((d.replace_delete, d.replace_insert.as_str()), (0, " "));
    assert_eq!(d.prev_displayed, "");
    assert!(!d.is_composing());
}

#[test]
fn flush_and_clear() {
    let mut d = DisplayState::new();
    d.apply(&[pre("xin", 3)]);
    assert_eq!(d.flush_preedit(), "xin");
    assert_eq!(d.commit, "xin");
    assert_eq!(d.preedit, "");
    assert!(!d.preedit_visible);
    d.apply_replace(&[pre("ab", 2)]);
    d.clear_display();
    assert_eq!(d.prev_displayed, "");
    assert_eq!(d.commit, "");
    assert!(d.preedit_underline);
}

#[test]
fn lines_joined() {
    assert_eq!(join_lines(&[]), "");
    assert_eq!(join_lines(&["😀".to_string()]), "😀");
    assert_eq!(join_lines(&["a".to_string(), "".to_string(), "b".to_string()]), "a\n\nb");
}
