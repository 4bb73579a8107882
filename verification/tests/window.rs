use vps::client_config::Config;
use vps::daemon_config::DaemonConfig;
use vps::fonts::{family_name, font_patterns, font_query, push_unique, Loaded};
use vps::picker::{choice_row_text, has_tag, pad_right, reply_line, session_row_text};
use vps::procinfo::{children_of, first_non_shell_child, proc_command, ProcEntry};
use vps::protocol::SessionInfo;
use vps::settings::Form;
use vps::terminal::Detected;
use vps::ui::{
    after_choose, after_save, after_spawn, cancel_settings, chooser_is_first, enter_chooser,
    enter_settings, leave_chooser, on_listed, title, Back, Chosen, Listed, Mode, Spawned,
};

fn session(id: u64, attached: bool, cwd: &str, command: &str) -> SessionInfo {
    SessionInfo {
        id,
        pts: format!("/dev/pts/{id}"),
        pid: 100,
        attached,
        cwd: cwd.into(),
        command: command.into(),
        title: String::new(),
    }
}

fn form() -> Form {
    Form {
        host: " grok ".into(),
        args: " -tt  -q ".into(),
        remote: " vpsd attach ".into(),
        list_args: String::new(),
        list: " vpsd list".into(),
        terminal_program: " kitty ".into(),
        terminal_args: "--single-instance".into(),
        picker_mode: "always".into(),
        width: "1280".into(),
        height: "800".into(),
        app_id: " vps ".into(),
        family: String::new(),
        size: "18".into(),
        scale: "1.3".into(),
        extras: " Noto Emoji, ,Symbols ".into(),
        term: " xterm-256color".into(),
        colorterm: "truecolor ".into(),
        colors: Config::default().colors,
        status: None,
    }
}

fn pick(n: usize, cursor: usize) -> Mode {
    Mode::Pick {
        sessions: (1..=n as u64).map(|i| session(i, false, "", "")).collect(),
        cursor,
        err: None,
    }
}

#[test]
fn row_texts() {
    assert_eq!(pad_right("ab", 4), "ab  ");
    assert_eq!(pad_right("abcde", 3), "abcde");
    let s = session(7, true, "/home/tj", "vim x");
    assert_eq!(session_row_text(&s), "#7   live   /home/tj  vim x");
    let s = session(1234, false, "", "");
    assert_eq!(session_row_text(&s), "#1234 idle     bash");
    let d = Detected { name: "kitty".into(), path: "/usr/bin/kitty".into() };
    assert_eq!(choice_row_text(&d), "  kitty        /usr/bin/kitty");
}

#[test]
fn list_reply_line() {
    assert!(has_tag("{\"t\":\"list\"}"));
    assert!(!has_tag("t"));
    let out = "motd line\r\n{\"t\":\"sessions\",\"sessions\":[]}\r\nbye\n";
    assert_eq!(reply_line(out), "{\"t\":\"sessions\",\"sessions\":[]}");
    assert_eq!(reply_line("  nothing here \n"), "nothing here");
}

#[test]
fn font_lookup_patterns() {
    assert_eq!(font_query("  "), "monospace");
    assert_eq!(font_query(" Berkeley Mono "), "Berkeley Mono");
    let extras = vec![" Noto Emoji ".to_string(), "  ".to_string()];
    let p = font_patterns("mono", &extras);
    assert_eq!(
        p,
        vec![
            "mono",
            "mono:style=Bold",
            "mono:style=Oblique",
            "mono:style=Italic",
            "mono:style=Bold Oblique",
            "mono:style=Bold Italic",
            "Noto Emoji"
        ]
    );
    assert_eq!(family_name("monospace", Some("DejaVu Sans Mono, DejaVu")), "DejaVu Sans Mono");
    assert_eq!(family_name("monospace", Some(" ,x")), "monospace");
    assert_eq!(family_name("monospace", None), "monospace");
    let mut paths = vec!["/a.ttf".to_string()];
    push_unique(&mut paths, "/a.ttf".into());
    push_unique(&mut paths, "/b.ttf".into());
    assert_eq!(paths, vec!["/a.ttf", "/b.ttf"]);
    let loaded = Loaded { family: "x".into(), faces: vec![vec![1, 2]] };
    assert_eq!(loaded.faces.len(), 1);
}

#[test]
fn proc_children_and_command() {
    let procs = vec![
        ProcEntry { pid: 10, ppid: Some(1), cmdline: "bash -l".into() },
        ProcEntry { pid: 11, ppid: Some(10), cmdline: "/bin/sh -c x".into() },
        ProcEntry { pid: 12, ppid: Some(10), cmdline: String::new() },
        ProcEntry { pid: 13, ppid: Some(10), cmdline: "/home/tj/.local/bin/grok --resume".into() },
        ProcEntry { pid: 14, ppid: None, cmdline: "vim".into() },
    ];
    assert_eq!(children_of(10, &procs), vec![11, 12, 13]);
    assert_eq!(first_non_shell_child(10, &procs), Some(13));
    assert_eq!(proc_command(10, "bash -l", &procs), "/home/tj/.local/bin/grok --resume");
    assert_eq!(first_non_shell_child(13, &procs), None);
    assert_eq!(proc_command(13, "grok", &procs), "grok");
}

#[test]
fn form_tables() {
    let f = form();
    let ssh = f.ssh_settings();
    assert_eq!(ssh.host, "grok");
    assert_eq!(ssh.args, vec!["-tt", "-q"]);
    assert_eq!(ssh.remote, "vpsd attach");
    assert!(ssh.list_args.is_empty());
    assert_eq!(ssh.list, "vpsd list");
    let t = f.terminal_settings();
    assert_eq!(t.program, "kitty");
    assert_eq!(t.args, vec!["--single-instance"]);
    let term = f.term_settings();
    assert_eq!((term.term.as_str(), term.colorterm.as_str()), ("xterm-256color", "truecolor"));
    assert_eq!(f.extras_list(), vec!["Noto Emoji", "Symbols"]);
    assert_eq!(f.app_id_setting(), "vps");
}

#[test]
fn daemon_socket_choice() {
    let cfg = DaemonConfig::default();
    assert_eq!(cfg.daemon_socket(None, Some("/run/user/1")).unwrap(), "/run/user/1/vpsd.sock");
    assert_eq!(cfg.daemon_socket(Some("unix:/tmp/x.sock"), None).unwrap(), "/tmp/x.sock");
    assert_eq!(
        cfg.daemon_socket(Some("stdio"), None).unwrap_err(),
        "daemon cannot listen on stdio; use `vpsd attach`"
    );
    assert_eq!(
        cfg.daemon_socket(Some("0.0.0.0:2022"), None).unwrap_err(),
        "vpsd never listens on TCP or UDP (got 0.0.0.0:2022)"
    );
    assert_eq!(cfg.daemon_socket(Some("unix:"), None).unwrap_err(), "empty listen address");
}

#[test]
fn settings_return_where_they_came_from() {
    let m = enter_settings(pick(2, 1), form());
    let Mode::Settings { back: Back::Pick { sessions, cursor }, .. } = &m else {
        panic!("expected settings over the picker");
    };
    assert_eq!((sessions.len(), *cursor), (2, 1));
    // Settings opened again from settings keeps where the first returns to.
    let m = enter_settings(m, form());
    match cancel_settings(m) {
        Some(Mode::Pick { sessions, cursor, err }) => {
            assert_eq!((sessions.len(), cursor), (2, 1));
            assert!(err.is_none());
        }
        _ => panic!("expected the picker back"),
    }
    assert!(cancel_settings(enter_settings(Mode::Loading, form())).is_none());
    assert!(cancel_settings(pick(0, 0)).is_none());
}

#[test]
fn chooser_from_picker_and_back() {
    let m = pick(3, 2);
    assert!(!chooser_is_first(&m));
    assert!(chooser_is_first(&Mode::Loading));
    let found = vec![Detected { name: "foot".into(), path: "/usr/bin/foot".into() }];
    let c = enter_chooser(m, false, found, Some("gone".into()));
    let Mode::ChooseTerm { found, cursor, err, first, back } = &c else {
        panic!("expected the chooser");
    };
    assert_eq!((found.len(), *cursor, err.as_deref(), *first), (1, 0, Some("gone"), false));
    assert_eq!(back.as_ref().map(|b| (b.0.len(), b.1)), Some((3, 2)));
    let s = enter_settings(c, form());
    match cancel_settings(s) {
        Some(Mode::ChooseTerm { found, back, err, .. }) => {
            assert_eq!(found.len(), 1);
            assert!(err.is_none());
            assert!(back.is_some());
        }
        _ => panic!("expected the chooser back"),
    }
}

#[test]
fn listing_outcomes() {
    let cfg = Config::default();
    match on_listed(&cfg, Ok(vec![session(1, false, "", "")])) {
        Listed::Show(Mode::Pick { sessions, cursor, err }) => {
            assert_eq!((sessions.len(), cursor), (1, 0));
            assert!(err.is_none());
        }
        _ => panic!("expected the picker"),
    }
    assert!(matches!(on_listed(&cfg, Ok(Vec::new())), Listed::StartNew));
    match on_listed(&cfg, Err("ssh list: boom".into())) {
        Listed::Show(Mode::Pick { sessions, err, .. }) => {
            assert!(sessions.is_empty());
            assert_eq!(err.as_deref(), Some("ssh list: boom"));
        }
        _ => panic!("expected an empty picker"),
    }
}

#[test]
fn spawn_outcomes() {
    assert!(matches!(after_spawn(pick(1, 0), Ok(()), false), Spawned::Close));
    assert!(matches!(
        after_spawn(pick(1, 0), Err("x".into()), true),
        Spawned::Chooser { first: false }
    ));
    assert!(matches!(
        after_spawn(Mode::Loading, Err("x".into()), true),
        Spawned::Chooser { first: true }
    ));
    match after_spawn(pick(2, 1), Err("kitty: not found".into()), false) {
        Spawned::Show(Mode::Pick { sessions, cursor, err }) => {
            assert_eq!((sessions.len(), cursor), (2, 1));
            assert_eq!(err.as_deref(), Some("kitty: not found"));
        }
        _ => panic!("expected the picker with the error"),
    }
    match after_spawn(Mode::Loading, Err("e".into()), false) {
        Spawned::Show(Mode::Pick { sessions, err, .. }) => {
            assert!(sessions.is_empty());
            assert_eq!(err.as_deref(), Some("e"));
        }
        _ => panic!("expected an empty picker"),
    }
}

#[test]
fn choosing_a_terminal() {
    let chooser = |first: bool, back: Option<(Vec<SessionInfo>, usize)>| Mode::ChooseTerm {
        found: Vec::new(),
        cursor: 0,
        err: None,
        first,
        back,
    };
    assert!(matches!(after_choose(chooser(true, None), Ok("/c.toml".into())), Chosen::List));
    let back = Some((vec![session(4, true, "", "")], 0));
    match after_choose(chooser(false, back), Ok("/c.toml".into())) {
        Chosen::Show(Mode::Pick { sessions, err, .. }) => {
            assert_eq!(sessions[0].id, 4);
            assert_eq!(err.as_deref(), Some("terminal saved (/c.toml)"));
        }
        _ => panic!("expected the picker"),
    }
    match after_choose(chooser(false, None), Ok("/c.toml".into())) {
        Chosen::Show(Mode::Pick { sessions, .. }) => assert!(sessions.is_empty()),
        _ => panic!("expected an empty picker"),
    }
    match after_choose(chooser(false, None), Err("read-only".into())) {
        Chosen::Show(Mode::ChooseTerm { err, .. }) => {
            assert_eq!(err.as_deref(), Some("read-only"))
        }
        _ => panic!("expected the chooser with the error"),
    }
    match leave_chooser(chooser(false, Some((vec![session(2, false, "", "")], 0)))) {
        Mode::Pick { sessions, err, .. } => {
            assert_eq!(sessions[0].id, 2);
            assert!(err.is_none());
        }
        _ => panic!("expected the picker"),
    }
    assert!(matches!(leave_chooser(chooser(true, None)), Mode::ChooseTerm { .. }));
}

#[test]
fn save_status_and_titles() {
    let mut f = form();
    after_save(&mut f, Ok("/home/u/.config/vps/config.toml".into()));
    assert_eq!(f.status.as_deref(), Some("saved /home/u/.config/vps/config.toml"));
    after_save(&mut f, Err("disk full".into()));
    assert_eq!(f.status.as_deref(), Some("disk full"));
    assert_eq!(f.remote, " vpsd attach ");
    assert_eq!(f.args, " -tt  -q ");
    assert_eq!(f.width, "1280");
    assert_eq!(title("grok", &Mode::Loading), "vps · grok");
    assert_eq!(title("grok", &enter_settings(Mode::Loading, form())), "vps · grok · settings");
    let c = enter_chooser(Mode::Loading, true, Vec::new(), None);
    assert_eq!(title("h", &c), "vps · h · terminal");
}
