//! Output charsets: Unicode (UTF-8) and the legacy byte charsets of Vietnamese, each a table
//! from chars to byte strings.
use vstd::prelude::*;
use crate::rules_parser::{chars_eq, is_name};
use crate::unicode::{str_chars, string_from_chars};

verus! {

pub const UNICODE: &'static str = "Unicode";

/// A named charset: the bytes of each char it encodes.
pub type CharsetTable = (&'static str, Vec<(char, Vec<u8>)>);

pub open spec fn table_view(t: Seq<(char, Vec<u8>)>) -> Seq<(char, Seq<u8>)> {
    t.map_values(|e: (char, Vec<u8>)| (e.0, e.1@))
}

pub open spec fn tables_view(ts: Seq<CharsetTable>) -> Seq<(Seq<char>, Seq<(char, Seq<u8>)>)> {
    ts.map_values(|e: CharsetTable| (e.0@, table_view(e.1@)))
}

/// The built-in byte charsets, in declaration order. No table is built in: this distribution
/// carries none.
pub open spec fn builtin_tables() -> Seq<(Seq<char>, Seq<(char, Seq<u8>)>)> {
    Seq::empty()
}

/// The built-in byte charsets, in declaration order.
pub fn charset_definitions() -> (r: Vec<CharsetTable>)
    ensures
        tables_view(r@) == builtin_tables(),
{
    let r: Vec<CharsetTable> = Vec::new();
    assert(tables_view(r@) =~= builtin_tables());
    r
}

/// Index of the last table named `name` among the first `n`, or -1 (a later table of the same
/// name replaces an earlier one).
pub open spec fn find_table(ts: Seq<(Seq<char>, Seq<(char, Seq<u8>)>)>, name: Seq<char>, n: int) -> int
    decreases n,
{
    if n <= 0 {
        -1
    } else if ts[n - 1].0 == name {
        n - 1
    } else {
        find_table(ts, name, n - 1)
    }
}

/// The bytes of `c` in a table: its last entry for `c` among the first `n`, if any.
pub open spec fn table_lookup(t: Seq<(char, Seq<u8>)>, c: char, n: int) -> Option<Seq<u8>>
    decreases n,
{
    if n <= 0 {
        None
    } else if t[n - 1].0 == c {
        Some(t[n - 1].1)
    } else {
        table_lookup(t, c, n - 1)
    }
}

/// `input` in a table: each char's bytes, or its UTF-8 bytes when the table has none.
pub open spec fn encode_with(t: Seq<(char, Seq<u8>)>, input: Seq<char>) -> Seq<u8>
    decreases input.len(),
{
    if input.len() == 0 {
        Seq::empty()
    } else {
        encode_with(t, input.drop_last()) + match table_lookup(t, input.last(), t.len() as int) {
            Some(b) => b,
            None => vstd::utf8::encode_utf8(seq![input.last()]),
        }
    }
}

/// `input` in the charset `name`: UTF-8 for Unicode and for unknown names.
pub open spec fn encode_spec(tables: Seq<(Seq<char>, Seq<(char, Seq<u8>)>)>, name: Seq<char>, input: Seq<char>) -> Seq<u8> {
    if name == UNICODE@ {
        vstd::utf8::encode_utf8(input)
    } else {
        let k = find_table(tables, name, tables.len() as int);
        if 0 <= k < tables.len() {
            encode_with(tables[k].1, input)
        } else {
            vstd::utf8::encode_utf8(input)
        }
    }
}

fn utf8_bytes(s: &str) -> (r: Vec<u8>)
    ensures
        r@ == vstd::utf8::encode_utf8(s@),
{
    let b = s.as_bytes();
    let mut r: Vec<u8> = Vec::new();
    for i in 0..b.len()
        invariant
            b@ == vstd::utf8::encode_utf8(s@),
            r@ == b@.take(i as int),
    {
        r.push(b[i]);
        assert(b@.take(i + 1) =~= b@.take(i as int).push(b@[i as int]));
    }
    assert(b@.take(b@.len() as int) =~= b@);
    r
}

fn push_bytes(out: &mut Vec<u8>, b: &[u8])
    ensures
        final(out)@ == old(out)@ + b@,
{
    let ghost o = out@;
    for i in 0..b.len()
        invariant
            out@ == o + b@.take(i as int),
    {
        out.push(b[i]);
        assert(o + b@.take(i + 1) =~= (o + b@.take(i as int)).push(b@[i as int]));
    }
    assert(b@.take(b@.len() as int) =~= b@);
}

fn lookup_char(t: &Vec<(char, Vec<u8>)>, c: char) -> (r: Option<usize>)
    ensures
        match r {
            Some(i) => i < t@.len() && table_lookup(table_view(t@), c, t@.len() as int) == Some(t@[i as int].1@),
            None => table_lookup(table_view(t@), c, t@.len() as int).is_none(),
        },
{
    let ghost tv = table_view(t@);
    let mut n = t.len();
    while n > 0
        invariant
            n <= t@.len(),
            tv == table_view(t@),
            table_lookup(tv, c, t@.len() as int) == table_lookup(tv, c, n as int),
        decreases n,
    {
        if t[n - 1].0 == c {
            return Some(n - 1);
        }
        n = n - 1;
    }
    None
}

/// `input` encoded in the charset named `charset_name`: UTF-8 for Unicode and for a name that
/// no table has; in a table, each char's bytes, or its UTF-8 bytes when the table has none.
pub fn encode(charset_name: &str, input: &str) -> (r: Vec<u8>)
    ensures
        r@ == encode_spec(builtin_tables(), charset_name@, input@),
{
    let name = str_chars(charset_name);
    if is_name(&name, UNICODE) {
        return utf8_bytes(input);
    }
    let tables = charset_definitions();
    let ghost ts = tables_view(tables@);
    let mut n = tables.len();
    while n > 0
        invariant
            n <= tables@.len(),
            ts == tables_view(tables@),
            ts == builtin_tables(),
            name@ == charset_name@,
            name@ != UNICODE@,
            find_table(ts, name@, ts.len() as int) == find_table(ts, name@, n as int),
        decreases n,
    {
        if is_name(&name, tables[n - 1].0) {
            let t = &tables[n - 1].1;
            let ghost tv = table_view(t@);
            let cs = str_chars(input);
            let mut out: Vec<u8> = Vec::new();
            for i in 0..cs.len()
                invariant
                    tv == table_view(t@),
                    out@ == encode_with(tv, cs@.take(i as int)),
            {
                let c = cs[i];
                assert(cs@.take(i + 1).drop_last() =~= cs@.take(i as int));
                match lookup_char(t, c) {
                    Some(j) => push_bytes(&mut out, t[j].1.as_slice()),
                    None => {
                        let one: Vec<char> = vec![c];
                        let s = string_from_chars(&one);
                        let b = utf8_bytes(s.as_str());
                        assert(one@ =~= seq![c]);
                        push_bytes(&mut out, &b);
                    },
                }
            }
            assert(cs@.take(cs@.len() as int) =~= cs@);
            assert(ts[n - 1] == (tables@[n - 1].0@, tv));
            return out;
        }
        n = n - 1;
    }
    utf8_bytes(input)
}

/// The names of the charsets: Unicode first, then each table in declaration order.
pub fn get_charset_names() -> (r: Vec<String>)
    ensures
        r@.map_values(|s: String| s@) == seq![UNICODE@] + builtin_tables().map_values(|e: (Seq<char>, Seq<(char, Seq<u8>)>)| e.0),
{
    let tables = charset_definitions();
    let mut names: Vec<String> = Vec::new();
    names.push(UNICODE.to_owned());
    for i in 0..tables.len()
        invariant
            tables_view(tables@) == builtin_tables(),
            names@.map_values(|s: String| s@) == seq![UNICODE@] + builtin_tables().take(i as int).map_values(|e: (Seq<char>, Seq<(char, Seq<u8>)>)| e.0),
    {
        names.push(tables[i].0.to_owned());
    }
    assert(builtin_tables().take(tables@.len() as int) =~= builtin_tables());
    names
}

} // verus!
