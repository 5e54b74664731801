use pinakey::transport::{TransportPref, TransportRules};

#[test]
fn parse_skips_comments_and_garbage() {
    let mut r = TransportRules::empty();
    r.append_layer("# chú thích\n; nữa\n\npreedit\nbay bổng gì đó\nPREEDIT Foo\nauto foo\n");
    assert_eq!(r.lookup("foo"), TransportPref::Auto);
    assert_eq!(r.len(), 2);
}

#[test]
fn user_layer_overrides_earlier_layer() {
    let mut r = TransportRules::empty();
    r.append_layer("preedit soffice\npreedit libreoffice\npreedit kitty\n");
    r.append_layer("replace soffice\npreedit gedit\n");
    assert_eq!(r.lookup("soffice.bin"), TransportPref::Replace);
    assert_eq!(r.lookup("gedit"), TransportPref::Preedit);
    assert_eq!(r.lookup("libreoffice-writer"), TransportPref::Preedit);
    assert_eq!(r.lookup("org.libreoffice.LibreOffice"), TransportPref::Preedit);
    assert_eq!(r.lookup("Kitty"), TransportPref::Preedit);
    assert_eq!(r.lookup("firefox"), TransportPref::Auto);
    assert_eq!(r.lookup(""), TransportPref::Auto);
}

#[test]
fn empty_table_and_codes() {
    let r = TransportRules::empty();
    assert_eq!(r.len(), 0);
    assert_eq!(r.lookup("anything"), TransportPref::Auto);
    assert_eq!(TransportPref::Auto.code(), 0);
    assert_eq!(TransportPref::Preedit.code(), 1);
    assert_eq!(TransportPref::Replace.code(), 2);
}

#[test]
fn extra_words_crlf_and_indentation() {
    let mut r = TransportRules::empty();
    r.append_layer("  Replace\tTerm  trailing words\r\n\t# preedit term\r\n");
    assert_eq!(r.len(), 1);
    assert_eq!(r.lookup("xterm"), TransportPref::Replace);
}
