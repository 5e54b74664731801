use pinakey::ibus_address::{address_in_file, socket_path_in, user_config_dir_in};

#[test]
fn address_file_path_from_display() {
    assert_eq!(
        socket_path_in("", "", "myhost:1.0", "abc123\n", "", "/home/u"),
        "/home/u/.config/ibus/bus/abc123-myhost-1"
    );
    assert_eq!(socket_path_in("", "", ":0", "id", "/x", "/home/u"), "/x/ibus/bus/id-unix-0");
    assert_eq!(socket_path_in("", "", "", "id", "", "/h"), "/h/.config/ibus/bus/id-unix-0");
    assert_eq!(socket_path_in("", "wayland-0", ":1", "id", "", "/h"), "/h/.config/ibus/bus/id-unix-wayland-0");
    assert_eq!(socket_path_in("/tmp/addr", "w", "d", "id", "", "/h"), "/tmp/addr");
    assert_eq!(socket_path_in("", "", "nodisplaycolon", "id", "", "/h"), "/h/.config/ibus/bus/id-nodisplaycolon-");
}

#[test]
fn config_dir_prefers_xdg() {
    assert_eq!(user_config_dir_in("/xdg", "/home/u"), "/xdg");
    assert_eq!(user_config_dir_in("", "/home/u"), "/home/u/.config");
}

#[test]
fn address_line_is_found() {
    let data = "# comment\nIBUS_ADDRESS=unix:path=/tmp/ibus,guid=1\nIBUS_DAEMON_PID=42\n";
    assert_eq!(address_in_file(data), Some("unix:path=/tmp/ibus,guid=1".to_string()));
    assert_eq!(address_in_file("IBUS_DAEMON_PID=42\n"), None);
    assert_eq!(address_in_file("IBUS_ADDRESS=\nIBUS_ADDRESS=x"), Some(String::new()));
}
