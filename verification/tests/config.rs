use moonshine_tray::config::{
    default_config_path, parse_webserver_port, port_from_table, webserver_port, DEFAULT_PORT,
};
use std::path::Path;

#[test]
fn reads_a_configured_port() {
    let contents = "[webserver]\nport = 48000\nport_https = 48001\n";
    assert_eq!(parse_webserver_port(contents), Some(48000));
}

#[test]
fn missing_webserver_section_has_no_port() {
    assert_eq!(parse_webserver_port("[stream]\nfec_percentage = 20\n"), None);
}

#[test]
fn missing_port_key_has_no_port() {
    assert_eq!(parse_webserver_port("[webserver]\nport_https = 47984\n"), None);
}

#[test]
fn malformed_config_has_no_port() {
    assert_eq!(parse_webserver_port("[webserver\nport ="), None);
}

#[test]
fn out_of_range_port_is_rejected() {
    assert_eq!(parse_webserver_port("[webserver]\nport = 70000\n"), None);
}

/// A file that cannot be read has no contents to hand over.
fn contents_of(path: &Path) -> Option<&'static str> {
    assert!(!path.exists());
    None
}

#[test]
fn unreadable_file_falls_back_to_the_default_port() {
    assert_eq!(
        webserver_port(contents_of(Path::new("/nonexistent/moonshine/config.toml"))),
        DEFAULT_PORT
    );
}

#[test]
fn the_default_port_is_that_of_the_daemon() {
    assert_eq!(DEFAULT_PORT, 47989);
}

#[test]
fn the_ends_of_the_port_range_are_accepted() {
    assert_eq!(parse_webserver_port("[webserver]\nport = 0\n"), Some(0));
    assert_eq!(parse_webserver_port("[webserver]\nport = 65535\n"), Some(65535));
    assert_eq!(parse_webserver_port("[webserver]\nport = 65536\n"), None);
    assert_eq!(parse_webserver_port("[webserver]\nport = -1\n"), None);
}

#[test]
fn a_port_that_is_no_integer_is_rejected() {
    assert_eq!(parse_webserver_port("[webserver]\nport = \"48000\"\n"), None);
    assert_eq!(parse_webserver_port("[webserver]\nport = 48000.0\n"), None);
    assert_eq!(parse_webserver_port("[webserver]\nport = [48000]\n"), None);
}

#[test]
fn a_webserver_that_is_no_table_has_no_port() {
    assert_eq!(parse_webserver_port("webserver = 48000\n"), None);
    assert_eq!(parse_webserver_port("[[webserver]]\nport = 48000\n"), None);
}

#[test]
fn a_dotted_or_inline_port_is_read_too() {
    assert_eq!(parse_webserver_port("webserver.port = 48000\n"), Some(48000));
    assert_eq!(parse_webserver_port("webserver = { port = 48000 }\n"), Some(48000));
}

#[test]
fn readable_files_are_used_and_unusable_ones_fall_back() {
    assert_eq!(webserver_port(Some("[webserver]\nport = 48000\n")), 48000);
    assert_eq!(webserver_port(Some("")), DEFAULT_PORT);
    assert_eq!(webserver_port(Some("[webserver\nport =")), DEFAULT_PORT);
    assert_eq!(webserver_port(Some("[webserver]\nport = 70000\n")), DEFAULT_PORT);
}

#[test]
fn a_table_that_was_built_is_read_like_one_that_was_parsed() {
    let mut webserver = toml::Table::new();
    webserver.insert("port".to_string(), toml::Value::Integer(48000));
    let mut table = toml::Table::new();
    assert_eq!(port_from_table(&table), None);
    table.insert("webserver".to_string(), toml::Value::Table(webserver));
    assert_eq!(port_from_table(&table), Some(48000));
}

#[test]
fn the_config_home_comes_before_the_home_directory() {
    assert_eq!(
        default_config_path(Some("/etc/xdg"), Some("/home/kez")),
        "/etc/xdg/moonshine/config.toml"
    );
    assert_eq!(default_config_path(Some("/etc/xdg"), None), "/etc/xdg/moonshine/config.toml");
}

#[test]
fn an_empty_config_home_counts_as_unset() {
    assert_eq!(
        default_config_path(Some(""), Some("/home/kez")),
        "/home/kez/.config/moonshine/config.toml"
    );
    assert_eq!(
        default_config_path(None, Some("/home/kez")),
        "/home/kez/.config/moonshine/config.toml"
    );
}

#[test]
fn without_a_home_directory_that_of_root_is_used() {
    assert_eq!(default_config_path(None, None), "/root/.config/moonshine/config.toml");
}

#[test]
fn paths_are_joined_as_the_standard_library_joins_them() {
    for base in ["/home/kez", "/home/kez/", "/", "relative", "a//", "", "déjà/vu", "."] {
        let expected = Path::new(base).join(".config/moonshine/config.toml");
        assert_eq!(default_config_path(None, Some(base)), expected.to_str().unwrap());
    }
}
