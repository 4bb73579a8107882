use vps::client_config::{config_path, AttachSpec, Config};
use vps::daemon_config::DaemonConfig;
use vps::picker::{parse_hex, session_command_label, truncate};
use vps::protocol::SessionInfo;
use vps::settings::{color_fields, set_color, split_commas, split_ws, Form, Msg};

#[test]
fn ssh_argv_is_tt_host_remote() {
    let cfg = Config::default();
    let argv = cfg.ssh_argv();
    assert_eq!(argv.first().map(String::as_str), Some("-tt"));
    assert_eq!(argv.get(1).map(String::as_str), Some("grok"));
    assert!(argv[2].contains("vpsd attach"));
}

#[test]
fn ssh_attach_and_list_argv() {
    let cfg = Config::default();
    assert_eq!(
        cfg.ssh_attach_argv(AttachSpec::Id(12)),
        vec!["-tt", "grok", "/home/tj/.local/bin/vpsd attach --id 12"]
    );
    assert_eq!(cfg.ssh_list_argv(), vec!["grok", "/home/tj/.local/bin/vpsd list"]);
    assert_eq!(
        cfg.term_env(),
        vec![
            ("TERM".to_string(), "xterm-256color".to_string()),
            ("COLORTERM".to_string(), "truecolor".to_string())
        ]
    );
}

#[test]
fn picker_modes() {
    let mut cfg = Config::default();
    assert!(!cfg.want_picker(0));
    assert!(cfg.want_picker(2));
    cfg.picker.mode = "always".into();
    assert!(cfg.want_picker(0));
    cfg.picker.mode = "never".into();
    assert!(!cfg.want_picker(3));
}

#[test]
fn config_paths() {
    assert_eq!(config_path(Some("/x"), Some("/home/u")), "/x/vps/config.toml");
    assert_eq!(config_path(Some(""), Some("/home/u")), "/home/u/.config/vps/config.toml");
    assert_eq!(config_path(None, None), "./config.toml");
    assert_eq!(
        vps::daemon_config::config_path(None, Some("/home/u/")),
        "/home/u/.config/vps/vpsd.toml"
    );
}

#[test]
fn daemon_defaults_and_mode_bits() {
    let mut cfg = DaemonConfig::default();
    assert_eq!(cfg.shell, "/bin/bash");
    assert_eq!(cfg.socket_mode, "0600");
    assert_eq!(cfg.mode_bits(), 0o600);
    assert_eq!(cfg.scrollback_bytes, 2 * 1024 * 1024);
    assert_eq!(cfg.socket_path(Some("/run/user/1")), "/run/user/1/vpsd.sock");
    cfg.socket_mode = "0700".into();
    assert_eq!(cfg.mode_bits(), 0o700);
    cfg.socket_mode = "0".into();
    assert_eq!(cfg.mode_bits(), 0o600);
    cfg.socket_mode = "0+644".into();
    assert_eq!(cfg.mode_bits(), 0o640);
    cfg.socket_mode = "0777".into();
    assert_eq!(cfg.mode_bits(), 0o770);
    cfg.socket_mode = "7".into();
    assert_eq!(cfg.mode_bits(), 0);
    cfg.socket_mode = "0689".into();
    assert_eq!(cfg.mode_bits(), 0o600);
    cfg.listen = " /srv/v.sock".into();
    assert_eq!(cfg.socket_path(None), " /srv/v.sock");
    cfg.listen = "   ".into();
    assert_eq!(cfg.socket_path(None), "/tmp/vpsd.sock");
}

fn session(command: &str, title: &str) -> SessionInfo {
    SessionInfo {
        id: 1,
        pts: "/dev/pts/1".into(),
        pid: 1,
        attached: false,
        cwd: "/home/tj".into(),
        command: command.into(),
        title: title.into(),
    }
}

#[test]
fn grok_title_in_row() {
    let s = session("grok", "FOO");
    assert_eq!(session_command_label(&s), "grok [FOO]");
}

#[test]
fn grok_path_title() {
    let s = session("/home/tj/.local/bin/grok --resume x", "VPS");
    assert_eq!(session_command_label(&s), "grok [VPS]");
}

#[test]
fn empty_command_is_bash() {
    let s = SessionInfo {
        id: 1,
        pts: "/dev/pts/1".into(),
        pid: 1,
        attached: false,
        cwd: String::new(),
        command: String::new(),
        title: String::new(),
    };
    assert_eq!(session_command_label(&s), "bash");
}

#[test]
fn labels_truncate() {
    let long = "x".repeat(60);
    let s = session(&long, "");
    let label = session_command_label(&s);
    assert_eq!(label.chars().count(), 48);
    assert!(label.ends_with('…'));
    assert_eq!(truncate("abc", 3), "abc");
    assert_eq!(truncate("abcd", 3), "ab…");
    assert_eq!(truncate("abcd", 0), "…");
    assert_eq!(session_command_label(&session("   ", "T")), "grok [T]");
}

#[test]
fn hex_colors() {
    assert_eq!(parse_hex("#241018"), Some((0x24, 0x10, 0x18)));
    assert_eq!(parse_hex(" ede6de "), Some((0xed, 0xe6, 0xde)));
    assert_eq!(parse_hex("##A0b0C0"), Some((0xa0, 0xb0, 0xc0)));
    assert_eq!(parse_hex("#12345"), None);
    assert_eq!(parse_hex("#12345g"), None);
    assert_eq!(parse_hex("+abcde"), Some((0x0a, 0xbc, 0xde)));
}

fn form() -> Form {
    let c = Config::default();
    Form {
        host: "grok".into(),
        args: "-tt".into(),
        remote: "r".into(),
        list_args: String::new(),
        list: "l".into(),
        terminal_program: String::new(),
        terminal_args: String::new(),
        picker_mode: "when_sessions".into(),
        width: "1280".into(),
        height: "800".into(),
        app_id: "vps".into(),
        family: String::new(),
        size: "18".into(),
        scale: "1.3".into(),
        extras: String::new(),
        term: "xterm-256color".into(),
        colorterm: "truecolor".into(),
        colors: c.colors,
        status: None,
    }
}

#[test]
fn form_updates_and_validates() {
    let mut f = form();
    assert!(f.validate().is_ok());
    f.update(Msg::Host("  ".into()));
    assert_eq!(f.validate().unwrap_err(), "ssh.host is required");
    f.update(Msg::Host("h".into()));
    f.update(Msg::Picker("sometimes".into()));
    assert_eq!(
        f.validate().unwrap_err(),
        "picker.mode must be when_sessions, always, or never"
    );
    f.update(Msg::Picker("never".into()));
    assert!(f.validate().is_ok());
    f.update(Msg::Color("red", "#000000".into()));
    assert_eq!(f.colors.red, "#000000");
    f.update(Msg::Color("nope", "#111111".into()));
    assert_eq!(f.colors.red, "#000000");
    f.update(Msg::Save);
    assert_eq!(f.host, "h");
}

#[test]
fn colors_and_splits() {
    let mut c = Config::default().colors;
    set_color(&mut c, "dim_white", "#010203".into());
    assert_eq!(c.dim_white, "#010203");
    let fields = color_fields(&c);
    assert_eq!(fields.len(), 27);
    assert_eq!(fields[0], ("foreground", "#ede6de"));
    assert_eq!(fields[26], ("dim_white", "#010203"));
    assert_eq!(split_ws("  -tt  -o x\t"), vec!["-tt", "-o", "x"]);
    assert!(split_ws("   ").is_empty());
    assert_eq!(split_commas(" a, ,b ,"), vec!["a", "b"]);
}
