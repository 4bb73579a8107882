use vps::protocol::{default_socket_path, Listen, ListenError, SOCKET_NAME, VERSION};
use vps::paths::socket_is_unix_path;

#[test]
fn listen_stdio() {
    assert_eq!(Listen::parse("stdio").unwrap(), Listen::Stdio);
    assert_eq!(Listen::parse("-").unwrap(), Listen::Stdio);
}

#[test]
fn listen_unix_path() {
    match Listen::parse("/run/user/1000/vpsd.sock").unwrap() {
        Listen::Unix(p) => assert_eq!(p, "/run/user/1000/vpsd.sock".to_string()),
        other => panic!("{other:?}"),
    }
    match Listen::parse("unix:/tmp/vpsd.sock").unwrap() {
        Listen::Unix(p) => assert_eq!(p, "/tmp/vpsd.sock".to_string()),
        other => panic!("{other:?}"),
    }
}

#[test]
fn listen_rejects_tcp() {
    for spec in [
        "tcp:127.0.0.1:9",
        "tcp://0.0.0.0:2022",
        "0.0.0.0:2022",
        "127.0.0.1:9",
        ":2022",
        "udp:0.0.0.0:60001",
        "[::]:9",
    ] {
        match Listen::parse(spec) {
            Err(ListenError::Network(_)) => {}
            other => panic!("{spec} should reject, got {other:?}"),
        }
    }
}

#[test]
fn daemon_listen_rejects_tcp() {
    let err = Listen::parse("0.0.0.0:2022").unwrap_err();
    let msg = err.message();
    assert!(msg.contains("never listens on TCP"), "{msg}");
}

#[test]
fn default_socket_is_unix_path() {
    let p = default_socket_path(None);
    assert!(socket_is_unix_path(&p) || p.starts_with("/tmp"));
    assert!(p.ends_with("vpsd.sock"));
    let q = default_socket_path(Some("/run/user/1000"));
    assert_eq!(q, "/run/user/1000/vpsd.sock");
    assert!(socket_is_unix_path(&q));
}

#[test]
fn listen_parse_edges() {
    assert_eq!(Listen::parse("   ").unwrap_err(), ListenError::Empty);
    assert_eq!(Listen::parse("").unwrap_err(), ListenError::Empty);
    assert_eq!(Listen::parse("unix:").unwrap_err(), ListenError::Empty);
    assert_eq!(Listen::parse("  STDIO  ").unwrap(), Listen::Stdio);
    assert_eq!(Listen::parse("  ./vpsd.sock ").unwrap(), Listen::Unix("./vpsd.sock".into()));
    assert_eq!(Listen::parse("UNIX:/x").unwrap(), Listen::Unix("UNIX:/x".into()));
    assert_eq!(Listen::parse("relative/path").unwrap(), Listen::Unix("relative/path".into()));
    assert_eq!(
        Listen::parse("HTTP://x").unwrap_err(),
        ListenError::Network("HTTP://x".into())
    );
    assert_eq!(Listen::parse("host:22").unwrap_err(), ListenError::Network("host:22".into()));
    assert_eq!(Listen::parse("a:b/c").unwrap(), Listen::Unix("a:b/c".into()));
}

#[test]
fn listen_is_bind() {
    assert!(Listen::Unix("/x".into()).is_bind());
    assert!(!Listen::Stdio.is_bind());
}

#[test]
fn listen_error_messages() {
    assert_eq!(
        ListenError::Network("0.0.0.0:9".into()).message(),
        "vpsd never listens on TCP or UDP (got 0.0.0.0:9)"
    );
    assert_eq!(ListenError::Empty.message(), "empty listen address");
}

#[test]
fn socket_paths() {
    assert!(socket_is_unix_path("/a"));
    assert!(socket_is_unix_path("."));
    assert!(socket_is_unix_path("./a"));
    assert!(!socket_is_unix_path(".a"));
    assert!(!socket_is_unix_path("a/b"));
    assert!(!socket_is_unix_path(""));
    assert_eq!(SOCKET_NAME, "vpsd.sock");
    assert_eq!(VERSION, 1);
    assert_eq!(default_socket_path(Some("")), "/tmp/vpsd.sock");
    assert_eq!(default_socket_path(Some("/run/")), "/run/vpsd.sock");
}
