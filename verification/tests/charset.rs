//! Charset names and encoding.
use pinakey::charset::{charset_definitions, encode, get_charset_names, UNICODE};

#[test]
fn charset_names_unicode_dau_tien() {
    assert_eq!(get_charset_names()[0], UNICODE);
}

#[test]
fn charset_names_theo_thu_tu_khai_bao() {
    let expected: Vec<String> = std::iter::once(UNICODE.to_string())
        .chain(charset_definitions().into_iter().map(|(name, _)| name.to_string()))
        .collect();
    assert_eq!(get_charset_names(), expected);
}

#[test]
fn charset_names_tat_dinh_giua_cac_lan_goi() {
    let a = get_charset_names();
    let b = get_charset_names();
    assert_eq!(a, b);
    let declared: Vec<String> = charset_definitions().into_iter().map(|(name, _)| name.to_string()).collect();
    assert_eq!(&a[1..], declared.as_slice());
}

#[test]
fn unicode_and_unknown_charsets_give_utf8() {
    assert_eq!(encode("Unicode", "việt"), "việt".as_bytes().to_vec());
    assert_eq!(encode("no such charset", "đ"), vec![0xc4, 0x91]);
    assert_eq!(encode("Unicode", ""), Vec::<u8>::new());
}
