//! The IBus engine signals that carry out a key's actions, in order: what an IBus front end emits
//! on the bus.
use vstd::prelude::*;
use crate::action::{Action, ActionV, actions_view};

verus! {

/// The keysym of BackSpace.
pub const IBUS_BACKSPACE: u32 = 0xff08u32;
/// The hardware keycode of BackSpace (evdev `KEY_BACKSPACE`) used when forwarding it.
pub const BACKSPACE_KEYCODE: u32 = 14u32;
/// The state bit of a key release.
pub const IBUS_RELEASE_MASK: u32 = 0x4000_0000u32;
/// `UpdatePreeditText` mode: commit the preedit when focus is lost.
pub const IBUS_ENGINE_PREEDIT_COMMIT: u32 = 1u32;

/// One signal of the `org.freedesktop.IBus.Engine` interface.
#[derive(Debug, Clone, PartialEq)]
pub enum IbusSignal {
    CommitText(String),
    /// The preedit text, underlined over its first `underline` chars when that is set.
    UpdatePreeditText { text: String, underline: Option<u32>, cursor: u32, visible: bool, mode: u32 },
    UpdateAuxiliaryText { text: String, visible: bool },
    HidePreeditText,
    HideAuxiliaryText,
    HideLookupTable,
    DeleteSurroundingText { offset: i32, nchars: u32 },
    ForwardKeyEvent { keyval: u32, keycode: u32, state: u32 },
    /// BackSpace presses to inject through the X server (no signal: done locally).
    FakeBackspaces(u32),
}

pub ghost enum SignalV {
    CommitText(Seq<char>),
    UpdatePreeditText { text: Seq<char>, underline: Option<u32>, cursor: u32, visible: bool, mode: u32 },
    UpdateAuxiliaryText { text: Seq<char>, visible: bool },
    HidePreeditText,
    HideAuxiliaryText,
    HideLookupTable,
    DeleteSurroundingText { offset: i32, nchars: u32 },
    ForwardKeyEvent { keyval: u32, keycode: u32, state: u32 },
    FakeBackspaces(u32),
}

impl View for IbusSignal {
    type V = SignalV;

    open spec fn view(&self) -> SignalV {
        match self {
            IbusSignal::CommitText(s) => SignalV::CommitText(s@),
            IbusSignal::UpdatePreeditText { text, underline, cursor, visible, mode } => SignalV::UpdatePreeditText { text: text@, underline: *underline, cursor: *cursor, visible: *visible, mode: *mode },
            IbusSignal::UpdateAuxiliaryText { text, visible } => SignalV::UpdateAuxiliaryText { text: text@, visible: *visible },
            IbusSignal::HidePreeditText => SignalV::HidePreeditText,
            IbusSignal::HideAuxiliaryText => SignalV::HideAuxiliaryText,
            IbusSignal::HideLookupTable => SignalV::HideLookupTable,
            IbusSignal::DeleteSurroundingText { offset, nchars } => SignalV::DeleteSurroundingText { offset: *offset, nchars: *nchars },
            IbusSignal::ForwardKeyEvent { keyval, keycode, state } => SignalV::ForwardKeyEvent { keyval: *keyval, keycode: *keycode, state: *state },
            IbusSignal::FakeBackspaces(n) => SignalV::FakeBackspaces(*n),
        }
    }
}

pub open spec fn signals_view(s: Seq<IbusSignal>) -> Seq<SignalV> {
    s.map_values(|x: IbusSignal| x@)
}

/// `n` BackSpace presses forwarded as key events: a press, then a release, each time.
pub open spec fn backspace_events(n: nat) -> Seq<SignalV> {
    Seq::new(2 * n, |i: int| SignalV::ForwardKeyEvent {
        keyval: IBUS_BACKSPACE,
        keycode: BACKSPACE_KEYCODE,
        state: if i % 2 == 0 { 0 } else { IBUS_RELEASE_MASK },
    })
}

/// The signals of one action. A preedit update is visible, commits on focus loss, and is
/// underlined over `cursor` chars when it asks for an underline.
pub open spec fn action_signals(a: ActionV) -> Seq<SignalV> {
    match a {
        ActionV::CommitText(s) => seq![SignalV::CommitText(s)],
        ActionV::UpdatePreedit { text, cursor, underline } => seq![SignalV::UpdatePreeditText {
            text,
            underline: if underline { Some(cursor) } else { None },
            cursor,
            visible: true,
            mode: IBUS_ENGINE_PREEDIT_COMMIT,
        }],
        ActionV::UpdateAuxiliary { text, visible } => seq![SignalV::UpdateAuxiliaryText { text, visible }],
        ActionV::HidePreedit => seq![SignalV::HidePreeditText],
        ActionV::HideAuxiliary => seq![SignalV::HideAuxiliaryText],
        ActionV::HideLookupTable => seq![SignalV::HideLookupTable],
        ActionV::DeleteSurroundingText { offset, nchars } => seq![SignalV::DeleteSurroundingText { offset, nchars }],
        ActionV::ForwardBackspaces(n) => backspace_events(n as nat),
        ActionV::FakeBackspaces(n) => seq![SignalV::FakeBackspaces(n)],
    }
}

/// The signals of the actions, in order.
pub open spec fn signals_spec(a: Seq<ActionV>) -> Seq<SignalV>
    decreases a.len(),
{
    if a.len() == 0 {
        Seq::empty()
    } else {
        signals_spec(a.drop_last()) + action_signals(a.last())
    }
}

fn push_signal(out: &mut Vec<IbusSignal>, s: IbusSignal)
    ensures
        signals_view(final(out)@) == signals_view(old(out)@).push(s@),
{
    let ghost o = out@;
    out.push(s);
    assert(signals_view(out@) =~= signals_view(o).push(s@));
}

/// The signals that carry out the actions, in order.
pub fn signals_of(actions: &[Action]) -> (r: Vec<IbusSignal>)
    ensures
        signals_view(r@) == signals_spec(actions_view(actions@)),
{
    let mut out: Vec<IbusSignal> = Vec::new();
    for i in 0..actions.len()
        invariant
            signals_view(out@) == signals_spec(actions_view(actions@).take(i as int)),
    {
        assert(actions_view(actions@).take(i + 1).drop_last() =~= actions_view(actions@).take(i as int));
        assert(actions_view(actions@).take(i + 1).last() == actions@[i as int]@);
        let ghost before = signals_view(out@);
        match &actions[i] {
            Action::CommitText(s) => push_signal(&mut out, IbusSignal::CommitText(s.clone())),
            Action::UpdatePreedit { text, cursor, underline } => push_signal(&mut out, IbusSignal::UpdatePreeditText {
                text: text.clone(),
                underline: if *underline { Some(*cursor) } else { None },
                cursor: *cursor,
                visible: true,
                mode: IBUS_ENGINE_PREEDIT_COMMIT,
            }),
            Action::UpdateAuxiliary { text, visible } => push_signal(&mut out, IbusSignal::UpdateAuxiliaryText { text: text.clone(), visible: *visible }),
            Action::HidePreedit => push_signal(&mut out, IbusSignal::HidePreeditText),
            Action::HideAuxiliary => push_signal(&mut out, IbusSignal::HideAuxiliaryText),
            Action::HideLookupTable => push_signal(&mut out, IbusSignal::HideLookupTable),
            Action::DeleteSurroundingText { offset, nchars } => push_signal(&mut out, IbusSignal::DeleteSurroundingText { offset: *offset, nchars: *nchars }),
            Action::ForwardBackspaces(n) => {
                let n = *n;
                let mut k: u32 = 0;
                while k < n
                    invariant
                        k <= n,
                        signals_view(out@) == before + backspace_events(k as nat),
                    decreases n - k,
                {
                    let ghost b = signals_view(out@);
                    push_signal(&mut out, IbusSignal::ForwardKeyEvent { keyval: IBUS_BACKSPACE, keycode: BACKSPACE_KEYCODE, state: 0 });
                    push_signal(&mut out, IbusSignal::ForwardKeyEvent { keyval: IBUS_BACKSPACE, keycode: BACKSPACE_KEYCODE, state: IBUS_RELEASE_MASK });
                    assert(signals_view(out@) =~= before + backspace_events((k + 1) as nat)) by {
                        assert forall|j: int| 0 <= j < 2 * (k + 1) implies #[trigger] backspace_events((k + 1) as nat)[j] == (if j < 2 * k { backspace_events(k as nat)[j] } else if j == 2 * k { SignalV::ForwardKeyEvent { keyval: IBUS_BACKSPACE, keycode: BACKSPACE_KEYCODE, state: 0 } } else { SignalV::ForwardKeyEvent { keyval: IBUS_BACKSPACE, keycode: BACKSPACE_KEYCODE, state: IBUS_RELEASE_MASK } }) by {
                            if j == 2 * k {
                                assert(j % 2 == 0);
                            } else if j == 2 * k + 1 {
                                assert(j % 2 == 1);
                            }
                        }
                    }
                    k = k + 1;
                }
            },
            Action::FakeBackspaces(n) => push_signal(&mut out, IbusSignal::FakeBackspaces(*n)),
        }
        assert(signals_view(out@) =~= signals_spec(actions_view(actions@).take(i + 1)));
    }
    assert(actions_view(actions@).take(actions@.len() as int) =~= actions_view(actions@));
    out
}

} // verus!
