use pinakey::inject::{find_keycode, KEYSYM_BACKSPACE};

#[test]
fn find_keycode_locates_target_row() {
    let keysyms = vec![0x61, 0x41, 0, 0xff08, 0, 0];
    assert_eq!(find_keycode(&keysyms, 3, 8, 0xff08), Some(9));
    assert_eq!(find_keycode(&keysyms, 3, 8, 0x61), Some(8));
}

#[test]
fn find_keycode_missing_is_none() {
    let keysyms = vec![0x61, 0x41, 0, 0xff08, 0, 0];
    assert_eq!(find_keycode(&keysyms, 3, 8, 0xdead), None);
}

#[test]
fn find_keycode_zero_per_is_none() {
    assert_eq!(find_keycode(&[], 0, 8, 0xff08), None);
}

#[test]
fn find_keycode_short_last_row_and_wrap() {
    let keysyms = vec![1, 2, 3, 4, KEYSYM_BACKSPACE];
    assert_eq!(find_keycode(&keysyms, 2, 8, KEYSYM_BACKSPACE), Some(10));
    assert_eq!(find_keycode(&keysyms, 2, 255, 3), Some(0));
    assert_eq!(find_keycode(&keysyms, 1, 250, KEYSYM_BACKSPACE), Some(254));
}
