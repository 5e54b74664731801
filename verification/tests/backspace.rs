//! Corrections by deleting backwards.
use pinakey::action::Action;
use pinakey::backspace::{correction_actions, diff_correction, Correction};
use pinakey::config::flags as cfg;


#[test]
fn diff_keeps_common_prefix() {
    // gõ dấu nặng: "viet" -> "việt": chung tiền tố "vi", xóa "et", chèn "ệt".
    let c = diff_correction("viet", "việt");
    assert_eq!(
        c,
        Correction {
            backspaces: 2,
            insert: "ệt".to_string()
        }
    );
}

#[test]
fn diff_append_only_no_backspace() {
    let c = diff_correction("vi", "vie");
    assert_eq!(
        c,
        Correction {
            backspaces: 0,
            insert: "e".to_string()
        }
    );
}

#[test]
fn diff_identical_is_noop() {
    let c = diff_correction("việt", "việt");
    assert_eq!(
        c,
        Correction {
            backspaces: 0,
            insert: String::new()
        }
    );
}

#[test]
fn diff_shrink_inserts_nothing() {
    // xóa bớt: "việt" -> "việ".
    let c = diff_correction("việt", "việ");
    assert_eq!(
        c,
        Correction {
            backspaces: 1,
            insert: String::new()
        }
    );
}

#[test]
fn diff_counts_unicode_chars_not_bytes() {
    // "đ" là 2 byte UTF-8 nhưng chỉ 1 ký tự cần 1 backspace.
    let c = diff_correction("đa", "đ");
    assert_eq!(c.backspaces, 1);
    assert_eq!(c.insert, "");
}

#[test]
fn actions_surrounding_text_uses_delete_surrounding() {
    let corr = Correction {
        backspaces: 2,
        insert: "ệt".to_string(),
    };
    let acts = correction_actions(cfg::SURROUNDING_TEXT_IM, &corr);
    assert_eq!(
        acts,
        vec![
            Action::DeleteSurroundingText {
                offset: -2,
                nchars: 2
            },
            Action::CommitText("ệt".to_string()),
        ]
    );
}

#[test]
fn actions_xtest_uses_fake_backspaces() {
    let corr = Correction {
        backspaces: 3,
        insert: "x".to_string(),
    };
    let acts = correction_actions(cfg::XTEST_FAKE_KEY_EVENT_IM, &corr);
    assert_eq!(
        acts,
        vec![
            Action::FakeBackspaces(3),
            Action::CommitText("x".to_string())
        ]
    );
}

#[test]
fn actions_forwarding_uses_forward_backspaces() {
    let corr = Correction {
        backspaces: 1,
        insert: "ê".to_string(),
    };
    let acts = correction_actions(cfg::BACKSPACE_FORWARDING_IM, &corr);
    assert_eq!(
        acts,
        vec![
            Action::ForwardBackspaces(1),
            Action::CommitText("ê".to_string())
        ]
    );
}

#[test]
fn actions_no_backspace_only_commits() {
    let corr = Correction {
        backspaces: 0,
        insert: "v".to_string(),
    };
    let acts = correction_actions(cfg::BACKSPACE_FORWARDING_IM, &corr);
    assert_eq!(acts, vec![Action::CommitText("v".to_string())]);
}

#[test]
fn actions_empty_insert_only_deletes() {
    let corr = Correction {
        backspaces: 2,
        insert: String::new(),
    };
    let acts = correction_actions(cfg::SURROUNDING_TEXT_IM, &corr);
    assert_eq!(
        acts,
        vec![Action::DeleteSurroundingText {
            offset: -2,
            nchars: 2
        }]
    );
}

#[test]
fn correction_applied_to_old_gives_new() {
    for (old, new) in [("viet", "việt"), ("", "a"), ("abc", ""), ("đường", "đươn"), ("x", "x")] {
        let c = diff_correction(old, new);
        let kept: String = old.chars().take(old.chars().count() - c.backspaces).collect();
        assert_eq!(kept + &c.insert, new);
    }
}
