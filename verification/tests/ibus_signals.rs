use pinakey::action::Action;
use pinakey::ibus_signals::{signals_of, IbusSignal, BACKSPACE_KEYCODE, IBUS_BACKSPACE, IBUS_RELEASE_MASK};

#[test]
fn actions_become_signals_in_order() {
    let s = signals_of(&[
        Action::CommitText("a".to_string()),
        Action::UpdatePreedit { text: "việt".to_string(), cursor: 4, underline: true },
        Action::UpdatePreedit { text: "x".to_string(), cursor: 1, underline: false },
        Action::HidePreedit,
        Action::DeleteSurroundingText { offset: -2, nchars: 2 },
        Action::FakeBackspaces(3),
    ]);
    assert_eq!(
        s,
        vec![
            IbusSignal::CommitText("a".to_string()),
            IbusSignal::UpdatePreeditText { text: "việt".to_string(), underline: Some(4), cursor: 4, visible: true, mode: 1 },
            IbusSignal::UpdatePreeditText { text: "x".to_string(), underline: None, cursor: 1, visible: true, mode: 1 },
            IbusSignal::HidePreeditText,
            IbusSignal::DeleteSurroundingText { offset: -2, nchars: 2 },
            IbusSignal::FakeBackspaces(3),
        ]
    );
}

#[test]
fn forwarded_backspaces_press_and_release() {
    let s = signals_of(&[Action::ForwardBackspaces(2), Action::HideAuxiliary]);
    let press = IbusSignal::ForwardKeyEvent { keyval: IBUS_BACKSPACE, keycode: BACKSPACE_KEYCODE, state: 0 };
    let release = IbusSignal::ForwardKeyEvent { keyval: IBUS_BACKSPACE, keycode: BACKSPACE_KEYCODE, state: IBUS_RELEASE_MASK };
    assert_eq!(s, vec![press.clone(), release.clone(), press, release, IbusSignal::HideAuxiliaryText]);
    assert!(signals_of(&[Action::ForwardBackspaces(0)]).is_empty());
}
