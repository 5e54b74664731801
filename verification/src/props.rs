//! The property menu on the IBus panel, as plain values: one toggle for Vietnamese, one radio
//! item per input method with the current one checked, and an action that opens the settings.
use vstd::prelude::*;
use crate::rules_parser::chars_eq;
use crate::unicode::str_chars;

verus! {

/// The kind of a menu item (IBus's `PropType`).
#[derive(Debug, Clone, Copy, PartialEq, Eq, Structural)]
pub enum PropKind {
    /// A checkbox.
    Toggle,
    /// One of several.
    Radio,
    /// A one-shot action.
    Action,
}

/// The key of the item that opens the settings.
pub const OPEN_SETTINGS_KEY: &'static str = "open_settings";

/// One menu item.
#[derive(Debug, Clone, PartialEq, Eq)]
pub struct Prop {
    pub key: String,
    pub label: String,
    pub kind: PropKind,
    pub checked: bool,
}

/// The input methods of the menu, in order.
pub const INPUT_METHODS: [&'static str; 3] = ["Telex", "VNI", "VIQR"];

/// The input methods of the menu, in order.
pub open spec fn menu_methods() -> Seq<Seq<char>> {
    seq!["Telex"@, "VNI"@, "VIQR"@]
}

pub open spec fn prop_view(p: Prop) -> (Seq<char>, Seq<char>, PropKind, bool) {
    (p.key@, p.label@, p.kind, p.checked)
}

pub open spec fn props_view(v: Seq<Prop>) -> Seq<(Seq<char>, Seq<char>, PropKind, bool)> {
    v.map_values(|p: Prop| prop_view(p))
}

/// The radio item of an input method, checked when it is the current one.
pub open spec fn method_item(m: Seq<char>, current: Seq<char>) -> (Seq<char>, Seq<char>, PropKind, bool) {
    ("im_"@ + m, m, PropKind::Radio, current == m)
}

/// The menu for the current input method and Vietnamese state.
pub open spec fn build_props_spec(input_method: Seq<char>, vietnamese_enabled: bool) -> Seq<(Seq<char>, Seq<char>, PropKind, bool)> {
    seq![("vn_toggle"@, if vietnamese_enabled { "Tiếng Việt"@ } else { "English"@ }, PropKind::Toggle, vietnamese_enabled)]
        + menu_methods().map_values(|m: Seq<char>| method_item(m, input_method))
        + seq![(OPEN_SETTINGS_KEY@, "Mở bảng thiết lập…"@, PropKind::Action, false)]
}

fn method_prop(im: &str, current: &[char]) -> (p: Prop)
    ensures
        prop_view(p) == method_item(im@, current@),
{
    let key = "im_".to_owned().concat(im);
    let checked = chars_eq(current, &str_chars(im));
    Prop { key, label: im.to_owned(), kind: PropKind::Radio, checked }
}

/// Builds the menu: the Vietnamese toggle, the input methods, then the settings action.
pub fn build_props(input_method: &str, vietnamese_enabled: bool) -> (r: Vec<Prop>)
    ensures
        props_view(r@) == build_props_spec(input_method@, vietnamese_enabled),
{
    let current = str_chars(input_method);
    let label = if vietnamese_enabled { "Tiếng Việt".to_owned() } else { "English".to_owned() };
    let mut props: Vec<Prop> = Vec::new();
    props.push(Prop { key: "vn_toggle".to_owned(), label, kind: PropKind::Toggle, checked: vietnamese_enabled });
    props.push(method_prop("Telex", &current));
    props.push(method_prop("VNI", &current));
    props.push(method_prop("VIQR", &current));
    props.push(Prop {
        key: OPEN_SETTINGS_KEY.to_owned(),
        label: "Mở bảng thiết lập…".to_owned(),
        kind: PropKind::Action,
        checked: false,
    });
    assert(props_view(props@) =~= build_props_spec(input_method@, vietnamese_enabled));
    props
}

} // verus!
