//! The built-in input method definitions: for each input method, its (key, rule line) pairs.
use vstd::prelude::*;
use crate::rules_parser::{is_name, pairs_view};
use crate::unicode::str_chars;

verus! {

/// The (key, rule line) pairs of one input method.
pub type InputMethodDefinition = Vec<(&'static str, &'static str)>;

/// The name of the restricted Telex, in which tone marks are placed at once and never moved.
pub const SIMPLE_TELEX: &'static str = "Telex (đơn giản)";

/// The pairs of a definition as char sequences.
pub open spec fn def_view(d: Seq<(&'static str, &'static str)>) -> Seq<(Seq<char>, Seq<char>)> {
    d.map_values(|p: (&'static str, &'static str)| (p.0@, p.1@))
}

/// Named definitions as char sequences.
pub open spec fn defs_view(d: Seq<(&'static str, InputMethodDefinition)>) -> Seq<(Seq<char>, Seq<(Seq<char>, Seq<char>)>)> {
    d.map_values(|e: (&'static str, InputMethodDefinition)| (e.0@, def_view(e.1@)))
}

/// Named owned definitions as char sequences.
pub open spec fn owned_defs_view(d: Seq<(String, Vec<(String, String)>)>) -> Seq<(Seq<char>, Seq<(Seq<char>, Seq<char>)>)> {
    d.map_values(|e: (String, Vec<(String, String)>)| (e.0@, pairs_view(e.1@)))
}

/// The pairs of Telex.
pub open spec fn telex_pairs() -> Seq<(Seq<char>, Seq<char>)> {
    seq![
        ("z"@, "XoaDauThanh"@),
        ("s"@, "DauSac"@),
        ("f"@, "DauHuyen"@),
        ("r"@, "DauHoi"@),
        ("x"@, "DauNga"@),
        ("j"@, "DauNang"@),
        ("a"@, "A_Â"@),
        ("e"@, "E_Ê"@),
        ("o"@, "O_Ô"@),
        ("w"@, "UOA_ƯƠĂ"@),
        ("d"@, "D_Đ"@),
    ]
}

/// The pairs of Telex (đơn giản).
pub open spec fn simple_telex_pairs() -> Seq<(Seq<char>, Seq<char>)> {
    seq![
        ("z"@, "XoaDauThanh"@),
        ("s"@, "DauSac"@),
        ("f"@, "DauHuyen"@),
        ("r"@, "DauHoi"@),
        ("x"@, "DauNga"@),
        ("j"@, "DauNang"@),
        ("a"@, "A_Â"@),
        ("e"@, "E_Ê"@),
        ("o"@, "O_Ô"@),
        ("w"@, "UOA_ƯƠĂ"@),
        ("d"@, "D_Đ"@),
    ]
}

/// The pairs of VNI.
pub open spec fn vni_pairs() -> Seq<(Seq<char>, Seq<char>)> {
    seq![
        ("0"@, "XoaDauThanh"@),
        ("1"@, "DauSac"@),
        ("2"@, "DauHuyen"@),
        ("3"@, "DauHoi"@),
        ("4"@, "DauNga"@),
        ("5"@, "DauNang"@),
        ("6"@, "AEO_ÂÊÔ"@),
        ("7"@, "UO_ƯƠ"@),
        ("8"@, "A_Ă"@),
        ("9"@, "D_Đ"@),
    ]
}

/// The pairs of VIQR.
pub open spec fn viqr_pairs() -> Seq<(Seq<char>, Seq<char>)> {
    seq![
        ("0"@, "XoaDauThanh"@),
        ("'"@, "DauSac"@),
        ("`"@, "DauHuyen"@),
        ("?"@, "DauHoi"@),
        ("~"@, "DauNga"@),
        ("."@, "DauNang"@),
        ("^"@, "AEO_ÂÊÔ"@),
        ("+"@, "UO_ƯƠ"@),
        ("*"@, "UO_ƯƠ"@),
        ("("@, "A_Ă"@),
        ("d"@, "D_Đ"@),
    ]
}

/// The pairs of Microsoft layout.
pub open spec fn microsoft_pairs() -> Seq<(Seq<char>, Seq<char>)> {
    seq![
        ("8"@, "DauSac"@),
        ("5"@, "DauHuyen"@),
        ("6"@, "DauHoi"@),
        ("7"@, "DauNga"@),
        ("9"@, "DauNang"@),
        ("1"@, "__ă"@),
        ("!"@, "_Ă"@),
        ("2"@, "__â"@),
        ("@"@, "_Â"@),
        ("3"@, "__ê"@),
        ("#"@, "_Ê"@),
        ("4"@, "__ô"@),
        ("$"@, "_Ô"@),
        ("0"@, "__đ"@),
        (")"@, "_Đ"@),
        ("["@, "__ư"@),
        ("{"@, "_Ư"@),
        ("]"@, "__ơ"@),
        ("}"@, "_Ơ"@),
    ]
}

/// The pairs of Telex 2.
pub open spec fn telex_2_pairs() -> Seq<(Seq<char>, Seq<char>)> {
    seq![
        ("z"@, "XoaDauThanh"@),
        ("s"@, "DauSac"@),
        ("f"@, "DauHuyen"@),
        ("r"@, "DauHoi"@),
        ("x"@, "DauNga"@),
        ("j"@, "DauNang"@),
        ("a"@, "A_Â"@),
        ("e"@, "E_Ê"@),
        ("o"@, "O_Ô"@),
        ("w"@, "UOA_ƯƠĂ__Ư"@),
        ("d"@, "D_Đ"@),
        ("]"@, "__ư"@),
        ("["@, "__ơ"@),
        ("}"@, "_Ư"@),
        ("{"@, "_Ơ"@),
    ]
}

/// The pairs of Telex + VNI.
pub open spec fn telex_vni_pairs() -> Seq<(Seq<char>, Seq<char>)> {
    seq![
        ("z"@, "XoaDauThanh"@),
        ("s"@, "DauSac"@),
        ("f"@, "DauHuyen"@),
        ("r"@, "DauHoi"@),
        ("x"@, "DauNga"@),
        ("j"@, "DauNang"@),
        ("a"@, "A_Â"@),
        ("e"@, "E_Ê"@),
        ("o"@, "O_Ô"@),
        ("w"@, "UOA_ƯƠĂ"@),
        ("d"@, "D_Đ"@),
        ("0"@, "XoaDauThanh"@),
        ("1"@, "DauSac"@),
        ("2"@, "DauHuyen"@),
        ("3"@, "DauHoi"@),
        ("4"@, "DauNga"@),
        ("5"@, "DauNang"@),
        ("6"@, "AEO_ÂÊÔ"@),
        ("7"@, "UO_ƯƠ"@),
        ("8"@, "A_Ă"@),
        ("9"@, "D_Đ"@),
    ]
}

/// The pairs of Telex + VNI + VIQR.
pub open spec fn telex_vni_viqr_pairs() -> Seq<(Seq<char>, Seq<char>)> {
    seq![
        ("z"@, "XoaDauThanh"@),
        ("s"@, "DauSac"@),
        ("f"@, "DauHuyen"@),
        ("r"@, "DauHoi"@),
        ("x"@, "DauNga"@),
        ("j"@, "DauNang"@),
        ("a"@, "A_Â"@),
        ("e"@, "E_Ê"@),
        ("o"@, "O_Ô"@),
        ("w"@, "UOA_ƯƠĂ"@),
        ("d"@, "D_Đ"@),
        ("0"@, "XoaDauThanh"@),
        ("1"@, "DauSac"@),
        ("2"@, "DauHuyen"@),
        ("3"@, "DauHoi"@),
        ("4"@, "DauNga"@),
        ("5"@, "DauNang"@),
        ("6"@, "AEO_ÂÊÔ"@),
        ("7"@, "UO_ƯƠ"@),
        ("8"@, "A_Ă"@),
        ("9"@, "D_Đ"@),
        ("'"@, "DauSac"@),
        ("`"@, "DauHuyen"@),
        ("?"@, "DauHoi"@),
        ("~"@, "DauNga"@),
        ("."@, "DauNang"@),
        ("^"@, "AEO_ÂÊÔ"@),
        ("+"@, "UO_ƯƠ"@),
        ("*"@, "UO_ƯƠ"@),
        ("("@, "A_Ă"@),
        ("\\"@, "D_Đ"@),
    ]
}

/// The pairs of VNI Bàn phím tiếng Pháp.
pub open spec fn vni_french_pairs() -> Seq<(Seq<char>, Seq<char>)> {
    seq![
        ("&"@, "XoaDauThanh"@),
        ("é"@, "DauSac"@),
        ("\""@, "DauHuyen"@),
        ("'"@, "DauHoi"@),
        ("("@, "DauNga"@),
        ("-"@, "DauNang"@),
        ("è"@, "AEO_ÂÊÔ"@),
        ("_"@, "UO_ƯƠ"@),
        ("ç"@, "A_Ă"@),
        ("à"@, "D_Đ"@),
    ]
}

/// The pairs of Telex W.
pub open spec fn telex_w_pairs() -> Seq<(Seq<char>, Seq<char>)> {
    seq![
        ("z"@, "XoaDauThanh"@),
        ("s"@, "DauSac"@),
        ("f"@, "DauHuyen"@),
        ("r"@, "DauHoi"@),
        ("x"@, "DauNga"@),
        ("j"@, "DauNang"@),
        ("a"@, "A_Â"@),
        ("e"@, "E_Ê"@),
        ("o"@, "O_Ô"@),
        ("w"@, "UOA_ƯƠĂ__Ư"@),
        ("d"@, "D_Đ"@),
    ]
}

/// Every built-in input method with its pairs, in a fixed order.
pub open spec fn builtin_defs() -> Seq<(Seq<char>, Seq<(Seq<char>, Seq<char>)>)> {
    seq![
        ("Telex"@, telex_pairs()),
        ("Telex (đơn giản)"@, simple_telex_pairs()),
        ("VNI"@, vni_pairs()),
        ("VIQR"@, viqr_pairs()),
        ("Microsoft layout"@, microsoft_pairs()),
        ("Telex 2"@, telex_2_pairs()),
        ("Telex + VNI"@, telex_vni_pairs()),
        ("Telex + VNI + VIQR"@, telex_vni_viqr_pairs()),
        ("VNI Bàn phím tiếng Pháp"@, vni_french_pairs()),
        ("Telex W"@, telex_w_pairs()),
    ]
}

fn telex() -> (d: InputMethodDefinition)
    ensures
        def_view(d@) == telex_pairs(),
{
    let mut d: InputMethodDefinition = Vec::new();
    d.push(("z", "XoaDauThanh"));
    d.push(("s", "DauSac"));
    d.push(("f", "DauHuyen"));
    d.push(("r", "DauHoi"));
    d.push(("x", "DauNga"));
    d.push(("j", "DauNang"));
    d.push(("a", "A_Â"));
    d.push(("e", "E_Ê"));
    d.push(("o", "O_Ô"));
    d.push(("w", "UOA_ƯƠĂ"));
    d.push(("d", "D_Đ"));
    assert(def_view(d@) =~= telex_pairs());
    d
}

fn simple_telex() -> (d: InputMethodDefinition)
    ensures
        def_view(d@) == simple_telex_pairs(),
{
    let mut d: InputMethodDefinition = Vec::new();
    d.push(("z", "XoaDauThanh"));
    d.push(("s", "DauSac"));
    d.push(("f", "DauHuyen"));
    d.push(("r", "DauHoi"));
    d.push(("x", "DauNga"));
    d.push(("j", "DauNang"));
    d.push(("a", "A_Â"));
    d.push(("e", "E_Ê"));
    d.push(("o", "O_Ô"));
    d.push(("w", "UOA_ƯƠĂ"));
    d.push(("d", "D_Đ"));
    assert(def_view(d@) =~= simple_telex_pairs());
    d
}

fn vni() -> (d: InputMethodDefinition)
    ensures
        def_view(d@) == vni_pairs(),
{
    let mut d: InputMethodDefinition = Vec::new();
    d.push(("0", "XoaDauThanh"));
    d.push(("1", "DauSac"));
    d.push(("2", "DauHuyen"));
    d.push(("3", "DauHoi"));
    d.push(("4", "DauNga"));
    d.push(("5", "DauNang"));
    d.push(("6", "AEO_ÂÊÔ"));
    d.push(("7", "UO_ƯƠ"));
    d.push(("8", "A_Ă"));
    d.push(("9", "D_Đ"));
    assert(def_view(d@) =~= vni_pairs());
    d
}

fn viqr() -> (d: InputMethodDefinition)
    ensures
        def_view(d@) == viqr_pairs(),
{
    let mut d: InputMethodDefinition = Vec::new();
    d.push(("0", "XoaDauThanh"));
    d.push(("'", "DauSac"));
    d.push(("`", "DauHuyen"));
    d.push(("?", "DauHoi"));
    d.push(("~", "DauNga"));
    d.push((".", "DauNang"));
    d.push(("^", "AEO_ÂÊÔ"));
    d.push(("+", "UO_ƯƠ"));
    d.push(("*", "UO_ƯƠ"));
    d.push(("(", "A_Ă"));
    d.push(("d", "D_Đ"));
    assert(def_view(d@) =~= viqr_pairs());
    d
}

fn microsoft() -> (d: InputMethodDefinition)
    ensures
        def_view(d@) == microsoft_pairs(),
{
    let mut d: InputMethodDefinition = Vec::new();
    d.push(("8", "DauSac"));
    d.push(("5", "DauHuyen"));
    d.push(("6", "DauHoi"));
    d.push(("7", "DauNga"));
    d.push(("9", "DauNang"));
    d.push(("1", "__ă"));
    d.push(("!", "_Ă"));
    d.push(("2", "__â"));
    d.push(("@", "_Â"));
    d.push(("3", "__ê"));
    d.push(("#", "_Ê"));
    d.push(("4", "__ô"));
    d.push(("$", "_Ô"));
    d.push(("0", "__đ"));
    d.push((")", "_Đ"));
    d.push(("[", "__ư"));
    d.push(("{", "_Ư"));
    d.push(("]", "__ơ"));
    d.push(("}", "_Ơ"));
    assert(def_view(d@) =~= microsoft_pairs());
    d
}

fn telex_2() -> (d: InputMethodDefinition)
    ensures
        def_view(d@) == telex_2_pairs(),
{
    let mut d: InputMethodDefinition = Vec::new();
    d.push(("z", "XoaDauThanh"));
    d.push(("s", "DauSac"));
    d.push(("f", "DauHuyen"));
    d.push(("r", "DauHoi"));
    d.push(("x", "DauNga"));
    d.push(("j", "DauNang"));
    d.push(("a", "A_Â"));
    d.push(("e", "E_Ê"));
    d.push(("o", "O_Ô"));
    d.push(("w", "UOA_ƯƠĂ__Ư"));
    d.push(("d", "D_Đ"));
    d.push(("]", "__ư"));
    d.push(("[", "__ơ"));
    d.push(("}", "_Ư"));
    d.push(("{", "_Ơ"));
    assert(def_view(d@) =~= telex_2_pairs());
    d
}

fn telex_vni() -> (d: InputMethodDefinition)
    ensures
        def_view(d@) == telex_vni_pairs(),
{
    let mut d: InputMethodDefinition = Vec::new();
    d.push(("z", "XoaDauThanh"));
    d.push(("s", "DauSac"));
    d.push(("f", "DauHuyen"));
    d.push(("r", "DauHoi"));
    d.push(("x", "DauNga"));
    d.push(("j", "DauNang"));
    d.push(("a", "A_Â"));
    d.push(("e", "E_Ê"));
    d.push(("o", "O_Ô"));
    d.push(("w", "UOA_ƯƠĂ"));
    d.push(("d", "D_Đ"));
    d.push(("0", "XoaDauThanh"));
    d.push(("1", "DauSac"));
    d.push(("2", "DauHuyen"));
    d.push(("3", "DauHoi"));
    d.push(("4", "DauNga"));
    d.push(("5", "DauNang"));
    d.push(("6", "AEO_ÂÊÔ"));
    d.push(("7", "UO_ƯƠ"));
    d.push(("8", "A_Ă"));
    d.push(("9", "D_Đ"));
    assert(def_view(d@) =~= telex_vni_pairs());
    d
}

fn telex_vni_viqr() -> (d: InputMethodDefinition)
    ensures
        def_view(d@) == telex_vni_viqr_pairs(),
{
    let mut d: InputMethodDefinition = Vec::new();
    d.push(("z", "XoaDauThanh"));
    d.push(("s", "DauSac"));
    d.push(("f", "DauHuyen"));
    d.push(("r", "DauHoi"));
    d.push(("x", "DauNga"));
    d.push(("j", "DauNang"));
    d.push(("a", "A_Â"));
    d.push(("e", "E_Ê"));
    d.push(("o", "O_Ô"));
    d.push(("w", "UOA_ƯƠĂ"));
    d.push(("d", "D_Đ"));
    d.push(("0", "XoaDauThanh"));
    d.push(("1", "DauSac"));
    d.push(("2", "DauHuyen"));
    d.push(("3", "DauHoi"));
    d.push(("4", "DauNga"));
    d.push(("5", "DauNang"));
    d.push(("6", "AEO_ÂÊÔ"));
    d.push(("7", "UO_ƯƠ"));
    d.push(("8", "A_Ă"));
    d.push(("9", "D_Đ"));
    d.push(("'", "DauSac"));
    d.push(("`", "DauHuyen"));
    d.push(("?", "DauHoi"));
    d.push(("~", "DauNga"));
    d.push((".", "DauNang"));
    d.push(("^", "AEO_ÂÊÔ"));
    d.push(("+", "UO_ƯƠ"));
    d.push(("*", "UO_ƯƠ"));
    d.push(("(", "A_Ă"));
    d.push(("\\", "D_Đ"));
    assert(def_view(d@) =~= telex_vni_viqr_pairs());
    d
}

fn vni_french() -> (d: InputMethodDefinition)
    ensures
        def_view(d@) == vni_french_pairs(),
{
    let mut d: InputMethodDefinition = Vec::new();
    d.push(("&", "XoaDauThanh"));
    d.push(("é", "DauSac"));
    d.push(("\"", "DauHuyen"));
    d.push(("'", "DauHoi"));
    d.push(("(", "DauNga"));
    d.push(("-", "DauNang"));
    d.push(("è", "AEO_ÂÊÔ"));
    d.push(("_", "UO_ƯƠ"));
    d.push(("ç", "A_Ă"));
    d.push(("à", "D_Đ"));
    assert(def_view(d@) =~= vni_french_pairs());
    d
}

fn telex_w() -> (d: InputMethodDefinition)
    ensures
        def_view(d@) == telex_w_pairs(),
{
    let mut d: InputMethodDefinition = Vec::new();
    d.push(("z", "XoaDauThanh"));
    d.push(("s", "DauSac"));
    d.push(("f", "DauHuyen"));
    d.push(("r", "DauHoi"));
    d.push(("x", "DauNga"));
    d.push(("j", "DauNang"));
    d.push(("a", "A_Â"));
    d.push(("e", "E_Ê"));
    d.push(("o", "O_Ô"));
    d.push(("w", "UOA_ƯƠĂ__Ư"));
    d.push(("d", "D_Đ"));
    assert(def_view(d@) =~= telex_w_pairs());
    d
}

/// Every built-in input method with its (key, rule line) pairs, in a fixed order.
pub fn input_method_definitions() -> (r: Vec<(&'static str, InputMethodDefinition)>)
    ensures
        defs_view(r@) == builtin_defs(),
{
    let mut r: Vec<(&'static str, InputMethodDefinition)> = Vec::new();
    r.push(("Telex", telex()));
    r.push(("Telex (đơn giản)", simple_telex()));
    r.push(("VNI", vni()));
    r.push(("VIQR", viqr()));
    r.push(("Microsoft layout", microsoft()));
    r.push(("Telex 2", telex_2()));
    r.push(("Telex + VNI", telex_vni()));
    r.push(("Telex + VNI + VIQR", telex_vni_viqr()));
    r.push(("VNI Bàn phím tiếng Pháp", vni_french()));
    r.push(("Telex W", telex_w()));
    assert(defs_view(r@) =~= builtin_defs());
    r
}

/// Whether `name` is the restricted Telex (whose engine places tone marks strictly).
pub fn is_simple_telex(name: &str) -> (r: bool)
    ensures
        r == (name@ == SIMPLE_TELEX@),
{
    let n = str_chars(name);
    is_name(&n, SIMPLE_TELEX)
}

/// The pairs of a definition as owned strings.
pub fn owned_pairs(d: &[(&'static str, &'static str)]) -> (r: Vec<(String, String)>)
    ensures
        pairs_view(r@) == def_view(d@),
{
    let mut r: Vec<(String, String)> = Vec::new();
    for i in 0..d.len()
        invariant
            r@.len() == i,
            pairs_view(r@) == def_view(d@).take(i as int),
    {
        let (k, v) = d[i];
        let ks = k.to_owned();
        let vs = v.to_owned();
        assert(ks@ == d@[i as int].0@);
        assert(vs@ == d@[i as int].1@);
        let ghost o = r@;
        r.push((ks, vs));
        assert(r@ == o.push((ks, vs)));
        assert(pairs_view(r@) =~= def_view(d@).take(i + 1)) by {
            assert forall|j: int| 0 <= j < i + 1 implies #[trigger] pairs_view(r@)[j] == def_view(d@).take(i + 1)[j] by {
                if j < i {
                    assert(pairs_view(o)[j] == pairs_view(r@)[j]);
                }
            }
        }
    }
    assert(def_view(d@).take(d@.len() as int) =~= def_view(d@));
    r
}

/// Every built-in definition as owned strings, in the same order (the form kept in a
/// configuration).
pub fn input_method_definitions_owned() -> (r: Vec<(String, Vec<(String, String)>)>)
    ensures
        owned_defs_view(r@) == builtin_defs(),
{
    let defs = input_method_definitions();
    let mut r: Vec<(String, Vec<(String, String)>)> = Vec::new();
    for i in 0..defs.len()
        invariant
            defs_view(defs@) == builtin_defs(),
            r@.len() == i,
            i <= defs@.len(),
            owned_defs_view(r@) == defs_view(defs@).take(i as int),
    {
        let name = defs[i].0;
        let pairs = owned_pairs(defs[i].1.as_slice());
        let ns = name.to_owned();
        let ghost o = r@;
        r.push((ns, pairs));
        assert(owned_defs_view(r@) =~= defs_view(defs@).take(i + 1)) by {
            assert forall|j: int| 0 <= j < i + 1 implies #[trigger] owned_defs_view(r@)[j] == defs_view(defs@).take(i + 1)[j] by {
                if j < i {
                    assert(owned_defs_view(o)[j] == owned_defs_view(r@)[j]);
                }
            }
        }
    }
    assert(defs_view(defs@).take(defs@.len() as int) =~= defs_view(defs@));
    r
}

} // verus!
