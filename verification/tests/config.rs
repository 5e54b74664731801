//! Default configuration and the configuration directory.
use pinakey::config::flags;
use pinakey::config::{
    bamboo_config_dir_in, config_dir_in, decimal_chars, default_cfg, get_config_dir, get_config_path, get_dict_path,
    get_emoji_recent_path, get_macro_path, get_transport_rules_path, tmp_path_for, try_config_dir,
};
use std::path::Path;

#[test]
fn lib_default_has_telex_and_definitions() {
    let c = default_cfg();
    assert_eq!(c.input_method, "Telex");
    assert_eq!(c.output_charset, "Unicode");
    assert!(c.input_method_definitions.iter().any(|(name, _)| name == "Telex"));
    assert!(c.input_method_definitions.iter().any(|(name, _)| name == "VNI"));
    assert_eq!(c.default_input_mode, flags::PREEDIT_IM);
    assert_eq!(c.shortcuts, [1, 126, 0, 0, 0, 0, 0, 0, 5, 117]);
}

#[test]
fn config_dir_uses_xdg_base_when_present() {
    assert_eq!(
        config_dir_in(Some("/tmp/xdgbase".to_string()), Some("/home/u".to_string())),
        Some("/tmp/xdgbase/pinakey".to_string())
    );
}

#[test]
fn config_dir_falls_back_to_home_config_when_xdg_absent() {
    assert_eq!(
        config_dir_in(None, Some("/home/u".to_string())),
        Some("/home/u/.config/pinakey".to_string())
    );
}

#[test]
fn config_dir_is_none_without_xdg_and_home() {
    assert_eq!(config_dir_in(None, None), None);
}

#[test]
fn config_dir_joins_without_doubling_separators() {
    assert_eq!(
        config_dir_in(Some("/tmp/xdgbase/".to_string()), None),
        Some("/tmp/xdgbase/pinakey".to_string())
    );
    assert_eq!(config_dir_in(None, Some(String::new())), Some(".config/pinakey".to_string()));
}

#[test]
fn typing_conveniences_are_off_by_default() {
    let c = default_cfg();
    assert_eq!(c.w_shortcut, 0);
    assert_eq!(c.ib_flags & flags::IB_CAPITALIZE_SENTENCE, 0);
    assert_eq!(c.ib_flags & flags::IB_DOUBLE_SPACE_PERIOD, 0);
    assert_eq!(c.macro_date_format, "%d/%m/%Y");
    assert_eq!(c.macro_time_format, "%H:%M");
}

#[test]
fn im_lookup_table_lists_every_mode_in_order() {
    let t = flags::im_lookup_table();
    let modes: Vec<i32> = t.iter().map(|(m, _)| *m).collect();
    assert_eq!(modes, vec![1, 2, 3, 4, 5, 6, 7]);
    assert_eq!(t[0].1, "Cấu hình mặc định (Pre-edit)");
    assert_eq!(t[6].1, "Thêm vào danh sách loại trừ");
}

#[test]
fn bamboo_layout_dir() {
    assert_eq!(bamboo_config_dir_in(Some("/home/a".to_string())), "/home/a/.config/ibus-bamboo");
    assert_eq!(bamboo_config_dir_in(None), "~/.config/ibus-bamboo");
    assert!(get_config_dir().ends_with("/.config/ibus-bamboo"));
}

#[test]
fn tmp_path_unique_per_process_and_same_dir() {
    let p = "/x/ibus-Telex.config.json";
    assert_ne!(tmp_path_for(p, 1234), tmp_path_for(p, 5678));
    assert_eq!(Path::new(&tmp_path_for(p, 1)).parent(), Path::new(p).parent());
    assert_eq!(tmp_path_for(p, 1234), "/x/ibus-Telex.config.json.tmp.1234");
    assert_eq!(tmp_path_for(p, 0), "/x/ibus-Telex.config.json.tmp.0");
}

#[test]
fn path_getters_compose_on_config_dir_and_are_absolute() {
    let Some(base) = try_config_dir() else {
        return;
    };
    let base = Path::new(&base);
    assert!(base.is_absolute());
    let s = |p: std::path::PathBuf| Some(p.to_string_lossy().into_owned());
    assert_eq!(get_config_path("Telex"), s(base.join("ibus-Telex.config.json")));
    assert_eq!(get_emoji_recent_path(), s(base.join("emoji-recent.txt")));
    assert_eq!(get_dict_path(), s(base.join("dict.txt")));
    assert_eq!(get_macro_path("Telex"), s(base.join("ibus-Telex.macro.text")));
    assert_eq!(get_transport_rules_path(), s(base.join("transport-rules.conf")));
}

#[test]
fn decimal_digits() {
    assert_eq!(decimal_chars(0), vec!['0']);
    assert_eq!(decimal_chars(4294967295).into_iter().collect::<String>(), "4294967295");
}
