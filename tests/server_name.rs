use ruma_identifiers::server_name::{is_valid_server_name, server_name_port};
use ruma_identifiers::{Error, ServerName};

#[test]
fn hostnames() {
    assert!(is_valid_server_name("example.com"));
    assert!(is_valid_server_name("localhost"));
    assert!(is_valid_server_name("EXAMPLE.com"));
    assert!(is_valid_server_name("my-host.example.com"));
    assert!(!is_valid_server_name(""));
    assert!(!is_valid_server_name("/"));
    assert!(!is_valid_server_name("-example.com"));
    assert!(!is_valid_server_name("example-.com"));
    assert!(!is_valid_server_name("example..com"));
    assert!(!is_valid_server_name(".example.com"));
    assert!(!is_valid_server_name("example.com."));
    assert!(!is_valid_server_name("exa_mple.com"));
}

#[test]
fn label_and_name_lengths() {
    let label63 = "a".repeat(63);
    assert!(is_valid_server_name(&format!("{}.com", label63)));
    let label64 = "a".repeat(64);
    assert!(!is_valid_server_name(&format!("{}.com", label64)));
    let name253 = format!("{}.{}.{}.{}", "a".repeat(63), "b".repeat(63), "c".repeat(63), "d".repeat(61));
    assert_eq!(name253.len(), 253);
    assert!(is_valid_server_name(&name253));
    let name254 = format!("{}e", name253);
    assert!(!is_valid_server_name(&name254));
}

#[test]
fn ipv4_addresses() {
    assert!(is_valid_server_name("1.2.3.4"));
    assert!(is_valid_server_name("255.255.255.255:80"));
    assert!(is_valid_server_name("0.0.0.0"));
}

#[test]
fn ipv6_addresses() {
    assert!(is_valid_server_name("[::1]"));
    assert!(is_valid_server_name("[::]"));
    assert!(is_valid_server_name("[1:2:3:4:5:6:7:8]"));
    assert!(is_valid_server_name("[2001:db8::ff00:42:8329]:8448"));
    assert!(is_valid_server_name("[fe80::]"));
    assert!(!is_valid_server_name("[1:2:3:4:5:6:7]"));
    assert!(!is_valid_server_name("[1:2:3:4:5:6:7:8:9]"));
    assert!(!is_valid_server_name("[1::2::3]"));
    assert!(!is_valid_server_name("[1:2:3:4::5:6:7:8]"));
    assert!(!is_valid_server_name("[12345::1]"));
    assert!(!is_valid_server_name("[g::1]"));
    assert!(!is_valid_server_name("[::1"));
    assert!(!is_valid_server_name("[::1]x"));
    assert!(!is_valid_server_name("[]"));
    assert!(!is_valid_server_name("::1"));
}

#[test]
fn ports() {
    assert!(is_valid_server_name("example.com:0"));
    assert!(is_valid_server_name("example.com:65535"));
    assert!(!is_valid_server_name("example.com:65536"));
    assert!(!is_valid_server_name("example.com:080"));
    assert!(!is_valid_server_name("example.com:"));
    assert!(!is_valid_server_name("example.com:123456"));
    assert!(!is_valid_server_name("example.com:notaport"));
    assert!(!is_valid_server_name("example.com:1:2"));
}

#[test]
fn port_values() {
    assert_eq!(server_name_port("example.com:443"), Some(443));
    assert_eq!(server_name_port("example.com:65535"), Some(65535));
    assert_eq!(server_name_port("example.com:0"), Some(0));
    assert_eq!(server_name_port("example.com"), None);
    assert_eq!(server_name_port("[::1]:8448"), Some(8448));
    assert_eq!(server_name_port("[::1]"), None);
}

#[test]
fn server_name_values() {
    let name = ServerName::try_from("example.com:443").unwrap();
    assert_eq!(name.as_str(), "example.com:443");
    assert_eq!(name.port(), Some(443));
    assert_eq!(ServerName::try_from("example.com").unwrap().port(), None);
    assert_eq!(ServerName::try_from("[::1]:8448").unwrap().port(), Some(8448));
    assert_eq!(ServerName::try_from("example.com:notaport").unwrap_err(), Error::InvalidServerName);
    assert_eq!(ServerName::try_from("/").unwrap_err(), Error::InvalidServerName);
    assert_ne!(ServerName::try_from("Example.com").unwrap(), ServerName::try_from("example.com").unwrap());
    let copy = name.clone();
    assert_eq!(copy, name);
}
