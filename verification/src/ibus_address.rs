//! Where the IBus daemon's address is found: the address file named after the machine, the
//! display and the configuration directory, and the `IBUS_ADDRESS=` line in it. Environment
//! values are taken as strings, an unset variable being empty.
use vstd::prelude::*;
use crate::text::{is_prefix, lines_spec, lines_of, starts_with, trim_spec, trim_chars};
use crate::unicode::{str_chars, string_from_chars};
use crate::config::append_chars;
use crate::rules_parser::chars_range;

verus! {

/// Index of the first `c` in `s` at or after `i`, or the length.
pub open spec fn find_from(s: Seq<char>, c: char, i: int) -> int
    decreases s.len() - i,
{
    if i < 0 || i >= s.len() {
        s.len() as int
    } else if s[i] == c {
        i
    } else {
        find_from(s, c, i + 1)
    }
}

proof fn lemma_find_from(s: Seq<char>, c: char, i: int)
    requires
        0 <= i <= s.len(),
    ensures
        i <= find_from(s, c, i) <= s.len(),
    decreases s.len() - i,
{
    if i < s.len() && s[i] != c {
        lemma_find_from(s, c, i + 1);
    }
}

/// `s.splitn(2, c)`: the part before the first `c` (all of `s` when there is none), and the
/// part after it (empty when there is none).
pub open spec fn split_first(s: Seq<char>, c: char) -> (Seq<char>, Seq<char>) {
    let k = find_from(s, c, 0);
    if k < s.len() {
        (s.take(k), s.skip(k + 1))
    } else {
        (s, Seq::empty())
    }
}

fn split_first_exec(s: &[char], c: char) -> (r: (Vec<char>, Vec<char>))
    ensures
        (r.0@, r.1@) == split_first(s@, c),
{
    let mut k: usize = 0;
    while k < s.len() && s[k] != c
        invariant
            k <= s.len(),
            find_from(s@, c, 0) == find_from(s@, c, k as int),
        decreases s.len() - k,
    {
        k = k + 1;
    }
    if k < s.len() {
        let a = chars_range(s, 0, k);
        let b = chars_range(s, k + 1, s.len());
        assert(a@ =~= s@.take(k as int));
        assert(b@ =~= s@.skip(k + 1));
        (a, b)
    } else {
        let a = chars_range(s, 0, s.len());
        assert(a@ =~= s@);
        (a, Vec::new())
    }
}

/// The user's configuration directory: `$XDG_CONFIG_HOME` when set, else `$HOME/.config`.
pub open spec fn user_config_dir_spec(xdg_config_home: Seq<char>, home: Seq<char>) -> Seq<char> {
    if xdg_config_home.len() > 0 { xdg_config_home } else { home + "/.config"@ }
}

/// The display a socket is named after: the Wayland display when there is one (host `unix`);
/// else `$DISPLAY` (`:0.0` when empty), read as `host:number.screen`, the host `unix` when empty.
pub open spec fn display_parts(wayland_display: Seq<char>, display: Seq<char>) -> (Seq<char>, Seq<char>) {
    if wayland_display.len() > 0 {
        ("unix"@, wayland_display)
    } else {
        let d = if display.len() > 0 { display } else { ":0.0"@ };
        let (h, tail) = split_first(d, ':');
        (if h.len() > 0 { h } else { "unix"@ }, split_first(tail, '.').0)
    }
}

/// The address file: `$IBUS_ADDRESS_FILE` when set; else
/// `{config dir}/ibus/bus/{machine id}-{host}-{display number}` (the machine id trimmed).
pub open spec fn socket_path_spec(address_file: Seq<char>, wayland_display: Seq<char>, display: Seq<char>, machine_id: Seq<char>, xdg_config_home: Seq<char>, home: Seq<char>) -> Seq<char> {
    if address_file.len() > 0 {
        address_file
    } else {
        let (host, number) = display_parts(wayland_display, display);
        user_config_dir_spec(xdg_config_home, home) + "/ibus/bus/"@ + trim_spec(machine_id) + "-"@ + host + "-"@ + number
    }
}

/// The user's configuration directory (see `user_config_dir_spec`).
pub fn user_config_dir_in(xdg_config_home: &str, home: &str) -> (r: String)
    ensures
        r@ == user_config_dir_spec(xdg_config_home@, home@),
{
    let x = str_chars(xdg_config_home);
    if x.len() > 0 {
        return string_from_chars(&x);
    }
    let mut p = str_chars(home);
    append_chars(&mut p, &str_chars("/.config"));
    string_from_chars(&p)
}

/// The path of the IBus address file (see `socket_path_spec`).
pub fn socket_path_in(address_file: &str, wayland_display: &str, display: &str, machine_id: &str, xdg_config_home: &str, home: &str) -> (r: String)
    ensures
        r@ == socket_path_spec(address_file@, wayland_display@, display@, machine_id@, xdg_config_home@, home@),
{
    let af = str_chars(address_file);
    if af.len() > 0 {
        return string_from_chars(&af);
    }
    let w = str_chars(wayland_display);
    let (host, number) = if w.len() > 0 {
        (str_chars("unix"), w)
    } else {
        let d0 = str_chars(display);
        let d = if d0.len() > 0 { d0 } else { str_chars(":0.0") };
        let (h, tail) = split_first_exec(&d, ':');
        let (n, _) = split_first_exec(&tail, '.');
        (if h.len() > 0 { h } else { str_chars("unix") }, n)
    };
    assert((host@, number@) == display_parts(wayland_display@, display@));
    let mut p = str_chars(user_config_dir_in(xdg_config_home, home).as_str());
    append_chars(&mut p, &str_chars("/ibus/bus/"));
    append_chars(&mut p, &trim_chars(&str_chars(machine_id)));
    append_chars(&mut p, &str_chars("-"));
    append_chars(&mut p, &host);
    append_chars(&mut p, &str_chars("-"));
    append_chars(&mut p, &number);
    string_from_chars(&p)
}

/// The address in the text of an address file: what follows `IBUS_ADDRESS=` on the first line
/// that starts with it.
pub open spec fn address_in_lines(lines: Seq<Seq<char>>) -> Option<Seq<char>>
    decreases lines.len(),
{
    if lines.len() == 0 {
        None
    } else if is_prefix("IBUS_ADDRESS="@, lines[0]) {
        Some(lines[0].skip(13))
    } else {
        address_in_lines(lines.drop_first())
    }
}

/// The address in the text of an address file (see `address_in_lines`).
pub fn address_in_file(data: &str) -> (r: Option<String>)
    ensures
        match r {
            Some(a) => address_in_lines(lines_spec(data@)) == Some(a@),
            None => address_in_lines(lines_spec(data@)).is_none(),
        },
{
    let lines = lines_of(&str_chars(data));
    let ghost lv = lines@.map_values(|l: Vec<char>| l@);
    let key = str_chars("IBUS_ADDRESS=");
    proof { reveal_strlit("IBUS_ADDRESS="); }
    assert(key@.len() == 13);
    assert(lv.skip(0) =~= lv);
    for i in 0..lines.len()
        invariant
            lv == lines@.map_values(|l: Vec<char>| l@),
            lv == lines_spec(data@),
            key@ == "IBUS_ADDRESS="@,
            key@.len() == 13,
            address_in_lines(lv) == address_in_lines(lv.skip(i as int)),
    {
        assert(lv.skip(i as int)[0] == lines@[i as int]@);
        assert(lv.skip(i as int).drop_first() =~= lv.skip(i + 1));
        if starts_with(&lines[i], &key) {
            let rest = chars_range(&lines[i], 13, lines[i].len());
            assert(rest@ =~= lines@[i as int]@.skip(13));
            return Some(string_from_chars(&rest));
        }
    }
    assert(lv.skip(lv.len() as int) =~= Seq::<Seq<char>>::empty());
    None
}

} // verus!
