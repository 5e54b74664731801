//! What the front end must do after a key: commit text, show or hide the preedit, the auxiliary
//! text and the lookup table, or delete text before the cursor.
use vstd::prelude::*;

verus! {

/// A side effect for the front end to perform.
#[derive(Debug, Clone, PartialEq)]
pub enum Action {
    CommitText(String),
    UpdatePreedit { text: String, cursor: u32, underline: bool },
    UpdateAuxiliary { text: String, visible: bool },
    HidePreedit,
    HideAuxiliary,
    HideLookupTable,
    /// Delete `nchars` chars starting `offset` chars from the cursor.
    DeleteSurroundingText { offset: i32, nchars: u32 },
    /// Forward this many BackSpace key presses.
    ForwardBackspaces(u32),
    /// Inject this many BackSpace key presses (X11 only).
    FakeBackspaces(u32),
}

/// What an action means.
pub ghost enum ActionV {
    CommitText(Seq<char>),
    UpdatePreedit { text: Seq<char>, cursor: u32, underline: bool },
    UpdateAuxiliary { text: Seq<char>, visible: bool },
    HidePreedit,
    HideAuxiliary,
    HideLookupTable,
    DeleteSurroundingText { offset: i32, nchars: u32 },
    ForwardBackspaces(u32),
    FakeBackspaces(u32),
}

impl View for Action {
    type V = ActionV;

    open spec fn view(&self) -> ActionV {
        match self {
            Action::CommitText(s) => ActionV::CommitText(s@),
            Action::UpdatePreedit { text, cursor, underline } => ActionV::UpdatePreedit { text: text@, cursor: *cursor, underline: *underline },
            Action::UpdateAuxiliary { text, visible } => ActionV::UpdateAuxiliary { text: text@, visible: *visible },
            Action::HidePreedit => ActionV::HidePreedit,
            Action::HideAuxiliary => ActionV::HideAuxiliary,
            Action::HideLookupTable => ActionV::HideLookupTable,
            Action::DeleteSurroundingText { offset, nchars } => ActionV::DeleteSurroundingText { offset: *offset, nchars: *nchars },
            Action::ForwardBackspaces(n) => ActionV::ForwardBackspaces(*n),
            Action::FakeBackspaces(n) => ActionV::FakeBackspaces(*n),
        }
    }
}

pub open spec fn actions_view(a: Seq<Action>) -> Seq<ActionV> {
    a.map_values(|x: Action| x@)
}

/// Appends an action.
pub fn push_action(out: &mut Vec<Action>, a: Action)
    ensures
        actions_view(final(out)@) == actions_view(old(out)@).push(a@),
{
    let ghost o = out@;
    let ghost av = a@;
    out.push(a);
    assert(actions_view(out@) =~= actions_view(o).push(av));
}

} // verus!
