use zq::config::{config_path, Config, ConfigFile, DEFAULT_CONFIG};

#[test]
fn test_defaults() {
    let config = Config::default();
    assert_eq!(config.proxy_addr, "127.0.0.1:8080");
    assert_eq!(config.interface, "en0");
    assert_eq!(config.proxy_port, 8888);
    assert_eq!(config.socket_path, "/tmp/zq-tui.sock");
}

#[test]
fn test_parse_basic() {
    let input = "proxy_addr = 10.0.0.1:9090\ninterface = en1\nproxy_port = 9999\n";
    let config = Config::parse(input);
    assert_eq!(config.proxy_addr, "10.0.0.1:9090");
    assert_eq!(config.interface, "en1");
    assert_eq!(config.proxy_port, 9999);
    // socket_path should remain default
    assert_eq!(config.socket_path, "/tmp/zq-tui.sock");
}

#[test]
fn test_parse_comments_and_blanks() {
    let input = "\
# This is a comment
proxy_addr = 1.2.3.4:5555

# Another comment
interface = en2
";
    let config = Config::parse(input);
    assert_eq!(config.proxy_addr, "1.2.3.4:5555");
    assert_eq!(config.interface, "en2");
    assert_eq!(config.proxy_port, 8888); // default
}

#[test]
fn test_parse_invalid_port_uses_default() {
    let input = "proxy_port = notanumber\n";
    let config = Config::parse(input);
    assert_eq!(config.proxy_port, 8888);
}

#[test]
fn test_parse_unknown_keys_ignored() {
    let input = "unknown_key = some_value\nproxy_addr = 5.5.5.5:1234\n";
    let config = Config::parse(input);
    assert_eq!(config.proxy_addr, "5.5.5.5:1234");
}

#[test]
fn test_parse_socket_path() {
    let input = "socket_path = /var/run/zq.sock\n";
    let config = Config::parse(input);
    assert_eq!(config.socket_path, "/var/run/zq.sock");
}

#[test]
fn test_parse_empty_input() {
    let config = Config::parse("");
    assert_eq!(config.proxy_addr, "127.0.0.1:8080");
    assert_eq!(config.interface, "en0");
    assert_eq!(config.proxy_port, 8888);
}

#[test]
fn default_file_gives_the_defaults() {
    let config = Config::parse(DEFAULT_CONFIG);
    let default = Config::default();
    assert_eq!(config.proxy_addr, default.proxy_addr);
    assert_eq!(config.interface, default.interface);
    assert_eq!(config.proxy_port, default.proxy_port);
    assert_eq!(config.socket_path, default.socket_path);
}

#[test]
fn later_lines_override_earlier_ones() {
    let config = Config::parse("interface = en1\ninterface = en7");
    assert_eq!(config.interface, "en7");
}

#[test]
fn a_bad_port_keeps_the_port_set_before() {
    let config = Config::parse("proxy_port = 70\nproxy_port = 65536\nproxy_port = -1\nproxy_port =\n");
    assert_eq!(config.proxy_port, 70);
}

#[test]
fn lines_that_set_nothing_can_stand_anywhere() {
    let before = "interface = en3\nproxy_port = 70\n";
    let after = "socket_path = /s\n";
    let same = Config::parse(&format!("{before}{after}"));
    for idle in [
        "",
        "  \t",
        "# proxy_port = 71",
        "no assignment",
        "color = blue",
        "Interface = en4",
        "proxy_port = many",
        "proxy_port = 65536\r",
    ] {
        let config = Config::parse(&format!("{before}{idle}\n{after}"));
        assert_eq!(config.proxy_addr, same.proxy_addr);
        assert_eq!(config.interface, "en3");
        assert_eq!(config.proxy_port, 70);
        assert_eq!(config.socket_path, "/s");
    }
}

#[test]
fn ports_at_the_limits() {
    assert_eq!(Config::parse("proxy_port = 65535").proxy_port, 65535);
    assert_eq!(Config::parse("proxy_port = +00080").proxy_port, 80);
    assert_eq!(Config::parse("proxy_port = 0").proxy_port, 0);
    assert_eq!(Config::parse("proxy_port = 99999999999999999999").proxy_port, 8888);
    assert_eq!(Config::parse("proxy_port = +").proxy_port, 8888);
}

#[test]
fn odd_lines() {
    // The value is everything after the first `=`; a carriage return is white space.
    let config = Config::parse("\u{a0} interface\t=\u{3000}a=b c \r\n  # interface = no\nsocket_path\n= x");
    assert_eq!(config.interface, "a=b c");
    assert_eq!(config.socket_path, "/tmp/zq-tui.sock");
    assert_eq!(Config::parse("interface=").interface, "");
}

#[test]
fn settings_for_what_was_found() {
    let (c, create) = Config::load(&ConfigFile::NoHome);
    assert_eq!(c.proxy_port, 8888);
    assert!(create.is_none());
    let (c, create) = Config::load(&ConfigFile::Missing);
    assert_eq!(c.interface, "en0");
    assert_eq!(create, Some(DEFAULT_CONFIG));
    let (c, create) = Config::load(&ConfigFile::Unreadable);
    assert_eq!(c.interface, "en0");
    assert!(create.is_none());
    let (c, create) = Config::load(&ConfigFile::Contents("interface = en9".to_string()));
    assert_eq!(c.interface, "en9");
    assert!(create.is_none());
}

#[test]
fn the_file_lies_under_the_home_directory() {
    for home in ["/Users/me", "/Users/me/", "/", "", "rel"] {
        let expected = std::path::PathBuf::from(home).join(".zq").join("config");
        assert_eq!(
            config_path(Some(home)).map(std::path::PathBuf::from),
            Some(expected.clone())
        );
        assert_eq!(config_path(Some(home)).as_deref(), expected.to_str());
    }
    assert_eq!(config_path(None), None);
}
