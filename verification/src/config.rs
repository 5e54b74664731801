//! The configuration: input method and its definitions, output charset, feature flags and
//! typing preferences, and where its files live.
use vstd::prelude::*;
use crate::input_method_def::{builtin_defs, input_method_definitions_owned, owned_defs_view};
use crate::unicode::{str_chars, string_from_chars, char_from_small};

pub mod flags;

verus! {

/// The stored configuration of an engine.
#[derive(Debug, Clone)]
pub struct Config {
    pub input_method: String,
    /// Each input method by name with its (key, rule line) pairs.
    pub input_method_definitions: Vec<(String, Vec<(String, String)>)>,
    pub output_charset: String,
    /// Engine flags (`crate::flag`).
    pub flags: u32,
    /// Feature flags (`flags`).
    pub ib_flags: u32,
    /// Kept so that stored configurations keep this field; nothing reads it.
    pub shortcuts: [u32; 10],
    pub default_input_mode: i32,
    pub input_mode_mapping: Vec<(String, i32)>,
    /// Programs in which no Vietnamese processing happens (matched without case, whole or part).
    pub english_exclude: Vec<String>,
    /// `w` types `ư`: 0 never, 1 except at the start of a word, 2 everywhere.
    pub w_shortcut: u8,
    /// strftime format for `$DATE` in macros.
    pub macro_date_format: String,
    /// strftime format for `$TIME` in macros.
    pub macro_time_format: String,
}

/// The default configuration: Telex, Unicode, the standard flags and the built-in definitions.
pub open spec fn is_default_cfg(c: Config) -> bool {
    &&& c.input_method@ == "Telex"@
    &&& c.output_charset@ == "Unicode"@
    &&& owned_defs_view(c.input_method_definitions@) == builtin_defs()
    &&& c.flags == crate::flag::STD_FLAGS
    &&& c.ib_flags == flags::IB_STD_FLAGS
    &&& c.shortcuts@ == seq![1u32, 126u32, 0u32, 0u32, 0u32, 0u32, 0u32, 0u32, 5u32, 117u32]
    &&& c.default_input_mode == flags::PREEDIT_IM
    &&& c.input_mode_mapping@.len() == 0
    &&& c.english_exclude@.len() == 0
    &&& c.w_shortcut == 0
    &&& c.macro_date_format@ == "%d/%m/%Y"@
    &&& c.macro_time_format@ == "%H:%M"@
}

/// The default configuration.
pub fn default_cfg() -> (c: Config)
    ensures
        is_default_cfg(c),
{
    let c = Config {
        input_method: "Telex".to_owned(),
        input_method_definitions: input_method_definitions_owned(),
        output_charset: "Unicode".to_owned(),
        flags: crate::flag::STD_FLAGS,
        ib_flags: flags::IB_STD_FLAGS,
        shortcuts: [1u32, 126u32, 0u32, 0u32, 0u32, 0u32, 0u32, 0u32, 5u32, 117u32],
        default_input_mode: flags::PREEDIT_IM,
        input_mode_mapping: Vec::new(),
        english_exclude: Vec::new(),
        w_shortcut: 0,
        macro_date_format: "%d/%m/%Y".to_owned(),
        macro_time_format: "%H:%M".to_owned(),
    };
    assert(c.shortcuts@ =~= seq![1u32, 126u32, 0u32, 0u32, 0u32, 0u32, 0u32, 0u32, 5u32, 117u32]);
    c
}

impl Default for Config {
    fn default() -> (c: Config)
        ensures
            is_default_cfg(c),
    {
        default_cfg()
    }
}

// ---------------------------------------------------------------------------------------------
// Paths

/// `b` appended to the path `a` as a path component: an absolute `b` replaces `a`, and a
/// separator goes between them unless `a` is empty or already ends with one.
pub open spec fn path_join(a: Seq<char>, b: Seq<char>) -> Seq<char> {
    if b.len() > 0 && b[0] == '/' {
        b
    } else if a.len() == 0 {
        b
    } else if a.last() == '/' {
        a + b
    } else {
        a + seq!['/'] + b
    }
}

pub open spec fn opt_view(o: Option<String>) -> Option<Seq<char>> {
    match o {
        Some(s) => Some(s@),
        None => None,
    }
}

/// The configuration directory: `pinakey` under the XDG configuration base, else under
/// `{home}/.config`; none when neither is known.
pub open spec fn config_dir_spec(xdg_config_base: Option<Seq<char>>, home: Option<Seq<char>>) -> Option<Seq<char>> {
    match xdg_config_base {
        Some(x) => Some(path_join(x, "pinakey"@)),
        None => match home {
            Some(h) => Some(path_join(path_join(h, ".config"@), "pinakey"@)),
            None => None,
        },
    }
}

/// A file in the configuration directory, when there is one.
pub open spec fn file_in_spec(dir: Option<Seq<char>>, name: Seq<char>) -> Option<Seq<char>> {
    match dir {
        Some(d) => Some(path_join(d, name)),
        None => None,
    }
}

/// `b` joined to `a` as a path component.
pub fn join_path(a: &[char], b: &[char]) -> (r: Vec<char>)
    ensures
        r@ == path_join(a@, b@),
{
    let mut r: Vec<char> = Vec::new();
    if b.len() > 0 && b[0] == '/' {
        append_chars(&mut r, b);
        assert(r@ =~= b@);
        return r;
    }
    append_chars(&mut r, a);
    if a.len() > 0 && a[a.len() - 1] != '/' {
        r.push('/');
    }
    append_chars(&mut r, b);
    assert(r@ =~= path_join(a@, b@));
    r
}

/// Appends the chars of `b` to `a`.
pub fn append_chars(a: &mut Vec<char>, b: &[char])
    ensures
        final(a)@ == old(a)@ + b@,
{
    let ghost a0 = a@;
    for i in 0..b.len()
        invariant
            a@ == a0 + b@.take(i as int),
    {
        a.push(b[i]);
        assert(a0 + b@.take(i + 1) =~= (a0 + b@.take(i as int)).push(b@[i as int]));
    }
    assert(b@.take(b@.len() as int) =~= b@);
}

/// The configuration directory from the XDG configuration base and the home directory, as in
/// `config_dir_spec`.
pub fn config_dir_in(xdg_config_base: Option<String>, home: Option<String>) -> (r: Option<String>)
    ensures
        opt_view(r) == config_dir_spec(opt_view(xdg_config_base), opt_view(home)),
{
    let name = str_chars("pinakey");
    match xdg_config_base {
        Some(x) => {
            let xc = str_chars(x.as_str());
            let p = join_path(&xc, &name);
            Some(string_from_chars(&p))
        },
        None => match home {
            Some(h) => {
                let hc = str_chars(h.as_str());
                let dot = str_chars(".config");
                let base = join_path(&hc, &dot);
                let p = join_path(&base, &name);
                Some(string_from_chars(&p))
            },
            None => None,
        },
    }
}

/// `dirs::config_dir`, as a string (the XDG configuration base of the user); a path that is not
/// valid UTF-8 is converted lossily.
#[verifier::external_body]
fn env_config_base() -> (r: Option<String>) {
    dirs::config_dir().map(|p| p.to_string_lossy().into_owned())
}

/// `dirs::home_dir`, as a string; a path that is not valid UTF-8 is converted lossily.
#[verifier::external_body]
fn env_home_dir() -> (r: Option<String>) {
    dirs::home_dir().map(|p| p.to_string_lossy().into_owned())
}

/// The configuration directory of this user: `config_dir_in` of what the environment gives for
/// the XDG configuration base and the home directory. Never a path relative to the working
/// directory.
pub fn try_config_dir() -> (r: Option<String>)
    ensures
        exists|x: Option<Seq<char>>, h: Option<Seq<char>>| opt_view(r) == #[trigger] config_dir_spec(x, h),
{
    let x = env_config_base();
    let h = env_home_dir();
    let ghost xv = opt_view(x);
    let ghost hv = opt_view(h);
    let r = config_dir_in(x, h);
    assert(opt_view(r) == config_dir_spec(xv, hv));
    r
}

/// The directory of the older ibus-bamboo layout under a home directory: `{home}/.config/ibus-bamboo`,
/// with `~` standing for an unknown home.
pub open spec fn bamboo_dir_spec(home: Option<Seq<char>>) -> Seq<char> {
    let base = match home {
        Some(h) => h,
        None => "~"@,
    };
    base + "/.config/ibus-bamboo"@
}

/// `bamboo_dir_spec` of a home directory.
pub fn bamboo_config_dir_in(home: Option<String>) -> (r: String)
    ensures
        r@ == bamboo_dir_spec(opt_view(home)),
{
    let mut p = match home {
        Some(h) => str_chars(h.as_str()),
        None => str_chars("~"),
    };
    append_chars(&mut p, &str_chars("/.config/ibus-bamboo"));
    string_from_chars(&p)
}

/// The configuration directory of the older ibus-bamboo layout, under this user's home
/// directory (see `bamboo_dir_spec`).
pub fn get_config_dir() -> (r: String)
    ensures
        exists|h: Option<Seq<char>>| r@ == #[trigger] bamboo_dir_spec(h),
{
    let h = env_home_dir();
    let ghost hv = opt_view(h);
    let r = bamboo_config_dir_in(h);
    assert(r@ == bamboo_dir_spec(hv));
    r
}

/// The file `name` in the configuration directory `dir`, if there is one.
pub fn file_in(dir: Option<String>, name: &[char]) -> (r: Option<String>)
    ensures
        opt_view(r) == file_in_spec(opt_view(dir), name@),
{
    match dir {
        Some(d) => {
            let dc = str_chars(d.as_str());
            let p = join_path(&dc, name);
            Some(string_from_chars(&p))
        },
        None => None,
    }
}

/// A file of this user's configuration directory (none when the directory is unknown).
pub open spec fn user_file(r: Option<String>, name: Seq<char>) -> bool {
    exists|x: Option<Seq<char>>, h: Option<Seq<char>>| opt_view(r) == #[trigger] file_in_spec(config_dir_spec(x, h), name)
}

fn user_file_named(name: &[char]) -> (r: Option<String>)
    ensures
        user_file(r, name@),
{
    let d = try_config_dir();
    let ghost dv = opt_view(d);
    let r = file_in(d, name);
    proof {
        let (x, h) = choose|x: Option<Seq<char>>, h: Option<Seq<char>>| dv == config_dir_spec(x, h);
        assert(opt_view(r) == file_in_spec(config_dir_spec(x, h), name@));
    }
    r
}

/// `ibus-{engine_name}.{suffix}`.
fn engine_file_name(engine_name: &str, suffix: &str) -> (r: Vec<char>)
    ensures
        r@ == "ibus-"@ + engine_name@ + "."@ + suffix@,
{
    let mut r = str_chars("ibus-");
    append_chars(&mut r, &str_chars(engine_name));
    append_chars(&mut r, &str_chars("."));
    append_chars(&mut r, &str_chars(suffix));
    r
}

/// `ibus-{engine_name}.macro.text` in the configuration directory.
pub fn get_macro_path(engine_name: &str) -> (r: Option<String>)
    ensures
        user_file(r, "ibus-"@ + engine_name@ + "."@ + "macro.text"@),
{
    user_file_named(&engine_file_name(engine_name, "macro.text"))
}

/// `ibus-{engine_name}.config.json` in the configuration directory.
pub fn get_config_path(engine_name: &str) -> (r: Option<String>)
    ensures
        user_file(r, "ibus-"@ + engine_name@ + "."@ + "config.json"@),
{
    user_file_named(&engine_file_name(engine_name, "config.json"))
}

/// `dict.txt` (the user's spelling dictionary) in the configuration directory.
pub fn get_dict_path() -> (r: Option<String>)
    ensures
        user_file(r, "dict.txt"@),
{
    user_file_named(&str_chars("dict.txt"))
}

/// `emoji-recent.txt` (recently used emoji) in the configuration directory.
pub fn get_emoji_recent_path() -> (r: Option<String>)
    ensures
        user_file(r, "emoji-recent.txt"@),
{
    user_file_named(&str_chars("emoji-recent.txt"))
}

/// `transport-rules.conf` (the user's per-program transport rules) in the configuration
/// directory.
pub fn get_transport_rules_path() -> (r: Option<String>)
    ensures
        user_file(r, "transport-rules.conf"@),
{
    user_file_named(&str_chars("transport-rules.conf"))
}

/// The decimal digit char of `d` (0 to 9).
pub open spec fn digit_char(d: int) -> char {
    (d + 48) as char
}

/// The decimal digits of `n`, without leading zeros (`"0"` for zero).
pub open spec fn decimal(n: nat) -> Seq<char>
    decreases n,
{
    if n < 10 {
        seq![digit_char(n as int)]
    } else {
        decimal(n / 10).push(digit_char((n % 10) as int))
    }
}

proof fn lemma_decimal_digits(n: nat)
    ensures
        forall|i: int| 0 <= i < decimal(n).len() ==> '0' <= #[trigger] decimal(n)[i] <= '9',
    decreases n,
{
    if n >= 10 {
        lemma_decimal_digits(n / 10);
        let d = decimal(n / 10);
        assert forall|i: int| 0 <= i < decimal(n).len() implies '0' <= #[trigger] decimal(n)[i] <= '9' by {
            if i < d.len() {
                assert(decimal(n)[i] == d[i]);
            }
        }
    }
}

/// The decimal digits of `n` (as `format!("{n}")` writes them).
pub fn decimal_chars(n: u32) -> (r: Vec<char>)
    ensures
        r@ == decimal(n as nat),
    decreases n,
{
    if n < 10 {
        let c = char_from_small(n + 48);
        let mut v: Vec<char> = Vec::new();
        v.push(c);
        assert(v@ =~= seq![digit_char(n as int)]);
        v
    } else {
        let mut v = decimal_chars(n / 10);
        let c = char_from_small(n % 10 + 48);
        v.push(c);
        v
    }
}

/// What `std::path::Path::with_extension` gives for the path and extension (as text).
pub uninterp spec fn with_extension_of(path: Seq<char>, ext: Seq<char>) -> Seq<char>;

/// Calls `Path::with_extension` on a path given as text; the result is named
/// `with_extension_of`. The extension holds no path separator (`/`, nor `\\`), for which the
/// call panics.
#[verifier::external_body]
fn path_with_extension(path: &str, ext: &str) -> (r: String)
    requires
        !ext@.contains('/'),
        !ext@.contains('\\'),
    ensures
        r@ == with_extension_of(path@, ext@),
{
    std::path::Path::new(path).with_extension(ext).to_string_lossy().into_owned()
}

/// The temporary file for an atomic write of `path`: in the same directory, its extension
/// replaced by `json.tmp.{pid}`, so that two processes never share one.
pub fn tmp_path_for(path: &str, pid: u32) -> (r: String)
    ensures
        r@ == with_extension_of(path@, "json.tmp."@ + decimal(pid as nat)),
{
    let mut ext = str_chars("json.tmp.");
    proof { reveal_strlit("json.tmp."); }
    let digits = decimal_chars(pid);
    proof { lemma_decimal_digits(pid as nat); }
    append_chars(&mut ext, &digits);
    assert(!ext@.contains('/') && !ext@.contains('\\')) by {
        assert forall|i: int| 0 <= i < ext@.len() implies ext@[i] != '/' && ext@[i] != '\\' by {
            if i >= 9 {
                assert(ext@[i] == digits@[i - 9]);
            }
        }
    }
    path_with_extension(path, string_from_chars(&ext).as_str())
}

} // verus!
