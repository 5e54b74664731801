//! Vowel, mark and tone tables and the character helpers built on them.
use vstd::prelude::*;
use crate::rules::{Mark, Tone, tone_of, tone_num, mark_of};
use crate::unicode::{to_lower, lowercase_single};

verus! {

/// The position of `c` in the vowel table (six tones per base vowel), or -1.
pub open spec fn vowel_pos(c: char) -> int {
    match c {
        'a' => 0,
        'à' => 1,
        'á' => 2,
        'ả' => 3,
        'ã' => 4,
        'ạ' => 5,
        'ă' => 6,
        'ằ' => 7,
        'ắ' => 8,
        'ẳ' => 9,
        'ẵ' => 10,
        'ặ' => 11,
        'â' => 12,
        'ầ' => 13,
        'ấ' => 14,
        'ẩ' => 15,
        'ẫ' => 16,
        'ậ' => 17,
        'e' => 18,
        'è' => 19,
        'é' => 20,
        'ẻ' => 21,
        'ẽ' => 22,
        'ẹ' => 23,
        'ê' => 24,
        'ề' => 25,
        'ế' => 26,
        'ể' => 27,
        'ễ' => 28,
        'ệ' => 29,
        'i' => 30,
        'ì' => 31,
        'í' => 32,
        'ỉ' => 33,
        'ĩ' => 34,
        'ị' => 35,
        'o' => 36,
        'ò' => 37,
        'ó' => 38,
        'ỏ' => 39,
        'õ' => 40,
        'ọ' => 41,
        'ô' => 42,
        'ồ' => 43,
        'ố' => 44,
        'ổ' => 45,
        'ỗ' => 46,
        'ộ' => 47,
        'ơ' => 48,
        'ờ' => 49,
        'ớ' => 50,
        'ở' => 51,
        'ỡ' => 52,
        'ợ' => 53,
        'u' => 54,
        'ù' => 55,
        'ú' => 56,
        'ủ' => 57,
        'ũ' => 58,
        'ụ' => 59,
        'ư' => 60,
        'ừ' => 61,
        'ứ' => 62,
        'ử' => 63,
        'ữ' => 64,
        'ự' => 65,
        'y' => 66,
        'ỳ' => 67,
        'ý' => 68,
        'ỷ' => 69,
        'ỹ' => 70,
        'ỵ' => 71,
        _ => -1,
    }
}

/// The vowel at position `i` of the vowel table.
pub open spec fn vowel_at(i: int) -> char {
    if i == 0 {
        'a'
    } else if i == 1 {
        'à'
    } else if i == 2 {
        'á'
    } else if i == 3 {
        'ả'
    } else if i == 4 {
        'ã'
    } else if i == 5 {
        'ạ'
    } else if i == 6 {
        'ă'
    } else if i == 7 {
        'ằ'
    } else if i == 8 {
        'ắ'
    } else if i == 9 {
        'ẳ'
    } else if i == 10 {
        'ẵ'
    } else if i == 11 {
        'ặ'
    } else if i == 12 {
        'â'
    } else if i == 13 {
        'ầ'
    } else if i == 14 {
        'ấ'
    } else if i == 15 {
        'ẩ'
    } else if i == 16 {
        'ẫ'
    } else if i == 17 {
        'ậ'
    } else if i == 18 {
        'e'
    } else if i == 19 {
        'è'
    } else if i == 20 {
        'é'
    } else if i == 21 {
        'ẻ'
    } else if i == 22 {
        'ẽ'
    } else if i == 23 {
        'ẹ'
    } else if i == 24 {
        'ê'
    } else if i == 25 {
        'ề'
    } else if i == 26 {
        'ế'
    } else if i == 27 {
        'ể'
    } else if i == 28 {
        'ễ'
    } else if i == 29 {
        'ệ'
    } else if i == 30 {
        'i'
    } else if i == 31 {
        'ì'
    } else if i == 32 {
        'í'
    } else if i == 33 {
        'ỉ'
    } else if i == 34 {
        'ĩ'
    } else if i == 35 {
        'ị'
    } else if i == 36 {
        'o'
    } else if i == 37 {
        'ò'
    } else if i == 38 {
        'ó'
    } else if i == 39 {
        'ỏ'
    } else if i == 40 {
        'õ'
    } else if i == 41 {
        'ọ'
    } else if i == 42 {
        'ô'
    } else if i == 43 {
        'ồ'
    } else if i == 44 {
        'ố'
    } else if i == 45 {
        'ổ'
    } else if i == 46 {
        'ỗ'
    } else if i == 47 {
        'ộ'
    } else if i == 48 {
        'ơ'
    } else if i == 49 {
        'ờ'
    } else if i == 50 {
        'ớ'
    } else if i == 51 {
        'ở'
    } else if i == 52 {
        'ỡ'
    } else if i == 53 {
        'ợ'
    } else if i == 54 {
        'u'
    } else if i == 55 {
        'ù'
    } else if i == 56 {
        'ú'
    } else if i == 57 {
        'ủ'
    } else if i == 58 {
        'ũ'
    } else if i == 59 {
        'ụ'
    } else if i == 60 {
        'ư'
    } else if i == 61 {
        'ừ'
    } else if i == 62 {
        'ứ'
    } else if i == 63 {
        'ử'
    } else if i == 64 {
        'ữ'
    } else if i == 65 {
        'ự'
    } else if i == 66 {
        'y'
    } else if i == 67 {
        'ỳ'
    } else if i == 68 {
        'ý'
    } else if i == 69 {
        'ỷ'
    } else if i == 70 {
        'ỹ'
    } else if i == 71 {
        'ỵ'
    } else {
        '\0'
    }
}

/// The mark family row of `c`: five slots indexed by mark number, `'_'` where there is no char.
pub open spec fn mark_row(c: char) -> Option<Seq<char>> {
    if c == 'a' || c == 'â' || c == 'ă' {
        Some(seq!['a', 'â', 'ă', '_', '_'])
    } else if c == 'e' || c == 'ê' {
        Some(seq!['e', 'ê', '_', '_', '_'])
    } else if c == 'o' || c == 'ô' || c == 'ơ' {
        Some(seq!['o', 'ô', '_', 'ơ', '_'])
    } else if c == 'u' || c == 'ư' {
        Some(seq!['u', '_', '_', 'ư', '_'])
    } else if c == 'd' || c == 'đ' {
        Some(seq!['d', '_', '_', '_', 'đ'])
    } else {
        None
    }
}

/// The chars of a row other than `'_'`, in order.
pub open spec fn non_blank(s: Seq<char>) -> Seq<char>
    decreases s.len(),
{
    if s.len() == 0 {
        s
    } else if s.last() == '_' {
        non_blank(s.drop_last())
    } else {
        non_blank(s.drop_last()).push(s.last())
    }
}

/// The first index of `c` in `s`, or -1.
pub open spec fn index_of(s: Seq<char>, c: char) -> int
    decreases s.len(),
{
    if s.len() == 0 {
        -1
    } else if s[0] == c {
        0
    } else if index_of(s.drop_first(), c) < 0 {
        -1
    } else {
        index_of(s.drop_first(), c) + 1
    }
}

pub open spec fn is_vowel_spec(c: char) -> bool {
    vowel_pos(c) >= 0
}

pub open spec fn is_punctuation_spec(c: char) -> bool {
    match c {
        ',' | ';' | ':' | '.' | '"' | '\'' | '!' | '?' | ' ' | '<' | '>' | '=' | '+' | '-' | '*' | '/' | '\\' | '_' | '~' | '`' | '@' | '#' | '$' | '%' | '^' | '&' | '(' | ')' | '{' | '}' | '[' | ']' | '|' => true,
        _ => false,
    }
}

pub open spec fn is_ascii_digit_spec(c: char) -> bool {
    '0' <= c <= '9'
}

pub open spec fn is_word_break_spec(c: char) -> bool {
    is_punctuation_spec(c) || is_ascii_digit_spec(c)
}

pub open spec fn is_alpha_spec(c: char) -> bool {
    ('a' <= c <= 'z') || ('A' <= c <= 'Z')
}

pub open spec fn mark_family_spec(c: char) -> Seq<char> {
    match mark_row(c) {
        Some(r) => non_blank(r),
        None => Seq::empty(),
    }
}

pub open spec fn mark_position_spec(c: char) -> int {
    match mark_row(c) {
        Some(r) => index_of(r, c),
        None => -1,
    }
}

pub open spec fn mark_from_char_spec(c: char) -> Option<Mark> {
    if mark_position_spec(c) >= 0 {
        Some(mark_of(mark_position_spec(c) as u8))
    } else {
        None
    }
}

pub open spec fn add_mark_toneless_spec(c: char, mark: u8) -> char {
    match mark_row(c) {
        Some(r) => if mark < 5 && r[mark as int] != '_' { r[mark as int] } else { c },
        None => c,
    }
}

pub open spec fn tone_from_char_spec(c: char) -> Tone {
    if vowel_pos(c) == -1 {
        Tone::NoTone
    } else {
        tone_of((vowel_pos(c) % 6) as u8)
    }
}

/// `add_tone_to_char` stays inside the vowel table.
pub open spec fn tone_fits(c: char, tone: u8) -> bool {
    vowel_pos(c) < 0 || vowel_pos(c) - vowel_pos(c) % 6 + tone < 72
}

pub open spec fn add_tone_spec(c: char, tone: u8) -> char {
    if vowel_pos(c) > -1 {
        vowel_at(vowel_pos(c) - vowel_pos(c) % 6 + tone)
    } else {
        c
    }
}

pub open spec fn add_mark_spec(c: char, mark: u8) -> char {
    add_tone_spec(
        add_mark_toneless_spec(add_tone_spec(c, 0), mark),
        tone_num(tone_from_char_spec(c)),
    )
}

pub open spec fn is_vietnamese_rune_spec(c: char) -> bool {
    tone_from_char_spec(c) != Tone::NoTone || c != add_mark_toneless_spec(c, 0)
}

pub open spec fn can_process_key_spec(lower_key: char, effect_keys: Seq<char>) -> bool {
    if is_alpha_spec(lower_key) || effect_keys.contains(lower_key) {
        true
    } else if is_word_break_spec(lower_key) {
        false
    } else {
        is_vietnamese_rune_spec(lower_key)
    }
}

pub proof fn lemma_index_of_bounds(s: Seq<char>, c: char)
    ensures
        -1 <= index_of(s, c) < s.len(),
        index_of(s, c) >= 0 ==> s[index_of(s, c)] == c,
    decreases s.len(),
{
    if s.len() > 0 {
        lemma_index_of_bounds(s.drop_first(), c);
    }
}

pub proof fn lemma_vowel_row(c: char)
    ensures
        vowel_pos(c) >= 0 ==> vowel_pos(c) < 72 && vowel_at(vowel_pos(c)) == c,
        vowel_pos(c) >= -1,
{
}

proof fn lemma_vowel_table_inverse()
    ensures
        forall|k: int| 0 <= k < 72 ==> #[trigger] vowel_pos(vowel_at(k)) == k,
{
    assert forall|k: int| 0 <= k < 72 implies #[trigger] vowel_pos(vowel_at(k)) == k by {
    }
}

/// Tones come off the way they go on: a vowel given tone `t` (0 to 5) is still a vowel, its tone
/// is `t`, and taking the tone off again gives the vowel without any tone.
pub proof fn lemma_tone_roundtrip(c: char, t: u8)
    requires
        is_vowel_spec(c),
        t < 6,
    ensures
        is_vowel_spec(add_tone_spec(c, t)),
        tone_from_char_spec(add_tone_spec(c, t)) == tone_of(t),
        add_tone_spec(add_tone_spec(c, t), 0) == add_tone_spec(c, 0),
        add_tone_spec(add_tone_spec(c, t), tone_num(tone_from_char_spec(c))) == c,
{
    lemma_vowel_table_inverse();
    lemma_vowel_row(c);
    let k = vowel_pos(c) - vowel_pos(c) % 6;
    assert(vowel_pos(vowel_at(k + t)) == k + t);
    assert(vowel_pos(vowel_at(k)) == k);
    assert((k + t) % 6 == t as int);
    assert((k + t) - (k + t) % 6 == k);
    assert(tone_num(tone_of((vowel_pos(c) % 6) as u8)) == vowel_pos(c) % 6);
}

/// Marks come off the way they go on (for a char without a tone): giving `c` the mark `m` of its
/// family yields a char whose mark is `m`, of the same family, and giving that char no mark
/// yields the family's base char, as for `c` itself.
pub proof fn lemma_mark_roundtrip(c: char, m: u8)
    requires
        mark_row(c).is_some(),
        m < 5,
        mark_row(c).unwrap()[m as int] != '_',
    ensures
        mark_row(add_mark_toneless_spec(c, m)) == mark_row(c),
        mark_from_char_spec(add_mark_toneless_spec(c, m)) == Some(mark_of(m)),
        add_mark_toneless_spec(add_mark_toneless_spec(c, m), 0) == add_mark_toneless_spec(c, 0),
{
    reveal_with_fuel(index_of, 6);
}

pub fn is_space(key: char) -> (r: bool)
    ensures
        r == (key == ' '),
{
    key == ' '
}

pub fn is_punctuation_mark(key: char) -> (r: bool)
    ensures
        r == is_punctuation_spec(key),
{
    match key {
        ',' | ';' | ':' | '.' | '"' | '\'' | '!' | '?' | ' ' | '<' | '>' | '=' | '+' | '-' | '*' | '/' | '\\' | '_' | '~' | '`' | '@' | '#' | '$' | '%' | '^' | '&' | '(' | ')' | '{' | '}' | '[' | ']' | '|' => true,
        _ => false,
    }
}

pub fn is_word_break_symbol(key: char) -> (r: bool)
    ensures
        r == is_word_break_spec(key),
{
    is_punctuation_mark(key) || ('0' <= key && key <= '9')
}

pub fn is_vowel(chr: char) -> (r: bool)
    ensures
        r == is_vowel_spec(chr),
{
    find_vowel_position(chr) >= 0
}

/// Position of `chr` in the vowel table, or -1.
pub fn find_vowel_position(chr: char) -> (p: isize)
    ensures
        p == vowel_pos(chr),
{
    match chr {
        'a' => 0,
        'à' => 1,
        'á' => 2,
        'ả' => 3,
        'ã' => 4,
        'ạ' => 5,
        'ă' => 6,
        'ằ' => 7,
        'ắ' => 8,
        'ẳ' => 9,
        'ẵ' => 10,
        'ặ' => 11,
        'â' => 12,
        'ầ' => 13,
        'ấ' => 14,
        'ẩ' => 15,
        'ẫ' => 16,
        'ậ' => 17,
        'e' => 18,
        'è' => 19,
        'é' => 20,
        'ẻ' => 21,
        'ẽ' => 22,
        'ẹ' => 23,
        'ê' => 24,
        'ề' => 25,
        'ế' => 26,
        'ể' => 27,
        'ễ' => 28,
        'ệ' => 29,
        'i' => 30,
        'ì' => 31,
        'í' => 32,
        'ỉ' => 33,
        'ĩ' => 34,
        'ị' => 35,
        'o' => 36,
        'ò' => 37,
        'ó' => 38,
        'ỏ' => 39,
        'õ' => 40,
        'ọ' => 41,
        'ô' => 42,
        'ồ' => 43,
        'ố' => 44,
        'ổ' => 45,
        'ỗ' => 46,
        'ộ' => 47,
        'ơ' => 48,
        'ờ' => 49,
        'ớ' => 50,
        'ở' => 51,
        'ỡ' => 52,
        'ợ' => 53,
        'u' => 54,
        'ù' => 55,
        'ú' => 56,
        'ủ' => 57,
        'ũ' => 58,
        'ụ' => 59,
        'ư' => 60,
        'ừ' => 61,
        'ứ' => 62,
        'ử' => 63,
        'ữ' => 64,
        'ự' => 65,
        'y' => 66,
        'ỳ' => 67,
        'ý' => 68,
        'ỷ' => 69,
        'ỹ' => 70,
        'ỵ' => 71,
        _ => -1,
    }
}

fn vowel_char(i: usize) -> (c: char)
    requires
        i < 72,
    ensures
        c == vowel_at(i as int),
{
    match i {
        0 => 'a',
        1 => 'à',
        2 => 'á',
        3 => 'ả',
        4 => 'ã',
        5 => 'ạ',
        6 => 'ă',
        7 => 'ằ',
        8 => 'ắ',
        9 => 'ẳ',
        10 => 'ẵ',
        11 => 'ặ',
        12 => 'â',
        13 => 'ầ',
        14 => 'ấ',
        15 => 'ẩ',
        16 => 'ẫ',
        17 => 'ậ',
        18 => 'e',
        19 => 'è',
        20 => 'é',
        21 => 'ẻ',
        22 => 'ẽ',
        23 => 'ẹ',
        24 => 'ê',
        25 => 'ề',
        26 => 'ế',
        27 => 'ể',
        28 => 'ễ',
        29 => 'ệ',
        30 => 'i',
        31 => 'ì',
        32 => 'í',
        33 => 'ỉ',
        34 => 'ĩ',
        35 => 'ị',
        36 => 'o',
        37 => 'ò',
        38 => 'ó',
        39 => 'ỏ',
        40 => 'õ',
        41 => 'ọ',
        42 => 'ô',
        43 => 'ồ',
        44 => 'ố',
        45 => 'ổ',
        46 => 'ỗ',
        47 => 'ộ',
        48 => 'ơ',
        49 => 'ờ',
        50 => 'ớ',
        51 => 'ở',
        52 => 'ỡ',
        53 => 'ợ',
        54 => 'u',
        55 => 'ù',
        56 => 'ú',
        57 => 'ủ',
        58 => 'ũ',
        59 => 'ụ',
        60 => 'ư',
        61 => 'ừ',
        62 => 'ứ',
        63 => 'ử',
        64 => 'ữ',
        65 => 'ự',
        66 => 'y',
        67 => 'ỳ',
        68 => 'ý',
        69 => 'ỷ',
        70 => 'ỹ',
        71 => 'ỵ',
        _ => '\0',
    }
}

fn mark_row_exec(c: char) -> (r: Option<[char; 5]>)
    ensures
        match r {
            Some(a) => mark_row(c) == Some(a@),
            None => mark_row(c) is None,
        },
{
    let r = match c {
        'a' | 'â' | 'ă' => Some(['a', 'â', 'ă', '_', '_']),
        'e' | 'ê' => Some(['e', 'ê', '_', '_', '_']),
        'o' | 'ô' | 'ơ' => Some(['o', 'ô', '_', 'ơ', '_']),
        'u' | 'ư' => Some(['u', '_', '_', 'ư', '_']),
        'd' | 'đ' => Some(['d', '_', '_', '_', 'đ']),
        _ => None,
    };
    proof {
        if let Some(a) = r {
            assert(a@ =~= mark_row(c)->0);
        }
    }
    r
}

pub fn get_mark_family(chr: char) -> (v: Vec<char>)
    ensures
        v@ == mark_family_spec(chr),
{
    let mut result: Vec<char> = Vec::new();
    if let Some(arr) = mark_row_exec(chr) {
        let ghost row = arr@;
        for i in 0..5
            invariant
                row == arr@,
                row.len() == 5,
                result@ == non_blank(row.take(i as int)),
        {
            let c = arr[i];
            assert(row.take(i + 1).drop_last() =~= row.take(i as int));
            if c != '_' {
                result.push(c);
            }
        }
        assert(row.take(5) =~= row);
    }
    result
}

/// Position of `chr` within its own mark family row, or -1.
pub fn find_mark_position(chr: char) -> (p: isize)
    ensures
        p == mark_position_spec(chr),
{
    if let Some(arr) = mark_row_exec(chr) {
        let ghost row = arr@;
        assert(row.skip(0) =~= row);
        let mut i: usize = 0;
        while i < 5
            invariant
                row == arr@,
                mark_row(chr) == Some(row),
                row.len() == 5,
                0 <= i <= 5,
                index_of(row, chr) == (if index_of(row.skip(i as int), chr) < 0 { -1 } else { index_of(row.skip(i as int), chr) + i }),
            decreases 5 - i,
        {
            assert(row.skip(i as int).drop_first() =~= row.skip(i + 1));
            if arr[i] == chr {
                assert(row.skip(i as int)[0] == chr);
                assert(index_of(row.skip(i as int), chr) == 0);

                return i as isize;
            }
            i = i + 1;
        }
        assert(row.skip(5).len() == 0);
        -1
    } else {
        -1
    }
}

pub fn find_mark_from_char(chr: char) -> (m: Option<Mark>)
    ensures
        m == mark_from_char_spec(chr),
{
    let pos = find_mark_position(chr);
    if pos >= 0 {
        proof {
            lemma_index_of_bounds(mark_row(chr)->0, chr);
        }
        Some(match pos {
            1 => Mark::Hat,
            2 => Mark::Breve,
            3 => Mark::Horn,
            4 => Mark::Dash,
            5 => Mark::Raw,
            _ => Mark::NoMark,
        })
    } else {
        None
    }
}

pub fn add_mark_to_toneless_char(chr: char, mark: u8) -> (r: char)
    ensures
        r == add_mark_toneless_spec(chr, mark),
{
    if let Some(arr) = mark_row_exec(chr) {
        let idx = mark as usize;
        if idx < 5 && arr[idx] != '_' {
            return arr[idx];
        }
    }
    chr
}

pub fn add_mark_to_char(chr: char, mark: u8) -> (r: char)
    ensures
        r == add_mark_spec(chr, mark),
{
    proof { lemma_vowel_row(chr); }
    let tone = find_tone_from_char(chr);
    let c0 = add_tone_to_char(chr, 0);
    let c1 = add_mark_to_toneless_char(c0, mark);
    proof { lemma_vowel_row(c1); lemma_tone_num_small(tone); }
    add_tone_to_char(c1, tone.to_u8())
}

proof fn lemma_tone_num_small(t: Tone)
    ensures
        tone_num(t) <= 5,
{
}

pub fn is_alpha(c: char) -> (r: bool)
    ensures
        r == is_alpha_spec(c),
{
    ('a' <= c && c <= 'z') || ('A' <= c && c <= 'Z')
}

pub fn in_key_list(keys: &[char], key: char) -> (r: bool)
    ensures
        r == keys@.contains(key),
{
    for i in 0..keys.len()
        invariant
            forall|j: int| 0 <= j < i ==> keys@[j] != key,
    {
        if keys[i] == key {
            return true;
        }
    }
    false
}

pub fn find_tone_from_char(chr: char) -> (t: Tone)
    ensures
        t == tone_from_char_spec(chr),
{
    let pos = find_vowel_position(chr);
    if pos == -1 {
        return Tone::NoTone;
    }
    proof { lemma_vowel_row(chr); }
    Tone::from_u8((pos % 6) as u8)
}

pub fn add_tone_to_char(chr: char, tone: u8) -> (r: char)
    requires
        tone_fits(chr, tone),
    ensures
        r == add_tone_spec(chr, tone),
{
    let pos = find_vowel_position(chr);
    if pos > -1 {
        proof { lemma_vowel_row(chr); }
        let current_tone = pos % 6;
        let offset = tone as isize - current_tone;
        vowel_char((pos + offset) as usize)
    } else {
        chr
    }
}

pub fn can_process_key(lower_key: char, effect_keys: &[char]) -> (r: bool)
    ensures
        r == can_process_key_spec(lower_key, effect_keys@),
{
    if is_alpha(lower_key) || in_key_list(effect_keys, lower_key) {
        return true;
    }
    if is_word_break_symbol(lower_key) {
        return false;
    }
    is_vietnamese_rune(lower_key)
}

pub fn is_vietnamese_rune(lower_key: char) -> (r: bool)
    ensures
        r == is_vietnamese_rune_spec(lower_key),
{
    if find_tone_from_char(lower_key) != Tone::NoTone {
        return true;
    }
    lower_key != add_mark_to_toneless_char(lower_key, 0)
}

/// Some char of `word`, lowered, is a Vietnamese rune.
pub open spec fn any_vietnamese_rune(word: Seq<char>) -> bool {
    exists|i: int| 0 <= i < word.len() && is_vietnamese_rune_spec(lowercase_single(#[trigger] word[i]))
}

/// Some char of `word`, lowered, is a vowel.
pub open spec fn any_vietnamese_vowel(word: Seq<char>) -> bool {
    exists|i: int| 0 <= i < word.len() && is_vowel_spec(lowercase_single(#[trigger] word[i]))
}

pub fn has_any_vietnamese_rune_chars(word: &[char]) -> (r: bool)
    ensures
        r == any_vietnamese_rune(word@),
{
    for i in 0..word.len()
        invariant
            forall|j: int| 0 <= j < i ==> !is_vietnamese_rune_spec(lowercase_single(#[trigger] word@[j])),
    {
        if is_vietnamese_rune(to_lower(word[i])) {
            return true;
        }
    }
    false
}

pub fn has_any_vietnamese_vowel_chars(word: &[char]) -> (r: bool)
    ensures
        r == any_vietnamese_vowel(word@),
{
    for i in 0..word.len()
        invariant
            forall|j: int| 0 <= j < i ==> !is_vowel_spec(lowercase_single(#[trigger] word@[j])),
    {
        if is_vowel(to_lower(word[i])) {
            return true;
        }
    }
    false
}

pub fn has_any_vietnamese_rune(word: &str) -> (r: bool)
    ensures
        r == any_vietnamese_rune(word@),
{
    let w = crate::unicode::str_chars(word);
    has_any_vietnamese_rune_chars(&w)
}

pub fn has_any_vietnamese_vowel(word: &str) -> (r: bool)
    ensures
        r == any_vietnamese_vowel(word@),
{
    let w = crate::unicode::str_chars(word);
    has_any_vietnamese_vowel_chars(&w)
}

} // verus!
