use pinakey::props::{build_props, PropKind, INPUT_METHODS, OPEN_SETTINGS_KEY};

#[test]
fn first_prop_is_vn_toggle() {
    let p = build_props("Telex", true);
    assert_eq!(p[0].key, "vn_toggle");
    assert_eq!(p[0].kind, PropKind::Toggle);
    assert!(p[0].checked);
    assert_eq!(p[0].label, "Tiếng Việt");
}

#[test]
fn vn_toggle_reflects_disabled() {
    let p = build_props("Telex", false);
    assert!(!p[0].checked);
    assert_eq!(p[0].label, "English");
}

#[test]
fn input_methods_are_radios_with_current_checked() {
    let p = build_props("VNI", true);
    let telex = p.iter().find(|x| x.key == "im_Telex").unwrap();
    let vni = p.iter().find(|x| x.key == "im_VNI").unwrap();
    assert_eq!(telex.kind, PropKind::Radio);
    assert!(!telex.checked);
    assert!(vni.checked);
    for im in INPUT_METHODS {
        assert!(p.iter().any(|x| x.key == format!("im_{im}")));
    }
}

#[test]
fn has_open_settings_action() {
    let p = build_props("Telex", true);
    let s = p.iter().find(|x| x.key == OPEN_SETTINGS_KEY).expect("settings item");
    assert_eq!(s.kind, PropKind::Action);
    assert!(!s.checked);
}

#[test]
fn menu_order_and_unknown_method() {
    let p = build_props("Other", false);
    let keys: Vec<&str> = p.iter().map(|x| x.key.as_str()).collect();
    assert_eq!(keys, vec!["vn_toggle", "im_Telex", "im_VNI", "im_VIQR", "open_settings"]);
    assert!(p.iter().all(|x| !x.checked));
    assert_eq!(p[4].label, "Mở bảng thiết lập…");
}
