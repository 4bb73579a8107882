use vps::client_config::{AttachSpec, Config};
use vps::terminal::{
    attach_argv, detect_candidates, detect_pick, missing_terminal_message, needs_chooser,
    program_candidates, resolve_from, Detected,
};

fn cfg_with(program: &str) -> Config {
    let mut cfg = Config::default();
    cfg.terminal.program = program.into();
    cfg
}

/// Resolves the configured program as if exactly `existing` were executable files.
fn resolve_with(cfg: &Config, path_var: &str, existing: &[&str]) -> Result<String, String> {
    let program = vps::terminal::chosen_program(cfg);
    let cands = program_candidates(program, path_var);
    let runnable: Vec<bool> = cands.iter().map(|c| existing.contains(&c.as_str())).collect();
    resolve_from(program, &cands, &runnable)
}

#[test]
fn empty_program_needs_chooser() {
    let cfg = Config::default();
    let resolved = resolve_with(&cfg, "/usr/bin:/bin", &[]);
    assert!(needs_chooser(&cfg, &resolved));
    assert!(missing_terminal_message(&cfg, &resolved).is_none());
}

#[test]
fn runnable_path_skips_chooser() {
    let cfg = cfg_with("/tmp/vps-term/myterm");
    let resolved = resolve_with(&cfg, "/usr/bin", &["/tmp/vps-term/myterm"]);
    assert_eq!(resolved, Ok("/tmp/vps-term/myterm".to_string()));
    assert!(!needs_chooser(&cfg, &resolved));
    assert!(missing_terminal_message(&cfg, &resolved).is_none());
}

#[test]
fn deleted_program_needs_chooser() {
    let cfg = cfg_with("/tmp/vps-term/gone");
    let before = resolve_with(&cfg, "/usr/bin", &["/tmp/vps-term/gone"]);
    assert!(!needs_chooser(&cfg, &before));
    let after = resolve_with(&cfg, "/usr/bin", &[]);
    assert!(needs_chooser(&cfg, &after));
    let msg = missing_terminal_message(&cfg, &after).expect("reason");
    assert!(msg.contains("pick another terminal"), "{msg}");
    assert!(msg.contains("gone") || msg.contains("not an executable"), "{msg}");
}

/// A file that exists but is not executable does not count as runnable.
#[test]
fn non_executable_needs_chooser() {
    let cfg = cfg_with("/tmp/vps-term/noperm");
    let resolved = resolve_with(&cfg, "/usr/bin", &[]);
    assert!(needs_chooser(&cfg, &resolved));
}

/// A symlink to nothing is not runnable either.
#[test]
fn broken_symlink_needs_chooser() {
    let cfg = cfg_with("/tmp/vps-term-link/term");
    let resolved = resolve_with(&cfg, "/usr/bin", &[]);
    assert!(needs_chooser(&cfg, &resolved));
    let msg = missing_terminal_message(&cfg, &resolved).expect("reason");
    assert_eq!(msg, "/tmp/vps-term-link/term is not an executable — pick another terminal");
}

#[test]
fn basename_not_on_path_needs_chooser() {
    let cfg = cfg_with("vps-no-such-terminal-xyz");
    let resolved = resolve_with(&cfg, "/usr/bin:/bin", &[]);
    assert!(needs_chooser(&cfg, &resolved));
    let msg = missing_terminal_message(&cfg, &resolved).expect("reason");
    assert!(msg.contains("not found on PATH"), "{msg}");
}

#[test]
fn bare_name_is_searched_on_path() {
    let cands = program_candidates("foot", "/a:/b/:");
    assert_eq!(cands, vec!["/a/foot".to_string(), "/b/foot".to_string(), "foot".to_string()]);
    let cfg = cfg_with("foot");
    let resolved = resolve_with(&cfg, "/a:/b", &["/b/foot"]);
    assert_eq!(resolved, Ok("/b/foot".to_string()));
    assert_eq!(program_candidates("./x", "/a"), vec!["./x".to_string()]);
}

#[test]
fn empty_program_argv_errors() {
    let err = attach_argv(&Config::default(), AttachSpec::New).unwrap_err();
    assert!(err.contains("no terminal"), "{err}");
}

#[test]
fn kitty_argv_class_detach_ssh_id() {
    let argv = attach_argv(&cfg_with("/usr/bin/kitty"), AttachSpec::Id(1)).unwrap();
    assert_eq!(argv[0], "/usr/bin/kitty");
    assert!(argv.windows(2).any(|w| w == ["--class", "vps"]));
    assert!(argv.iter().any(|a| a == "--detach"));
    assert!(argv.iter().any(|a| a == "ssh"));
    assert!(argv.iter().any(|a| a.contains("vpsd attach --id 1")));
    assert!(argv
        .iter()
        .any(|a| a == "background=#241018" || a.contains("background=#241018")));
    assert!(!argv.iter().any(|a| a.contains("font_family=")));
    assert!(
        !argv.iter().any(|a| a.contains("close_on_child_death")),
        "close_on_child_death=yes closes the window if ssh dies at startup"
    );
}

#[test]
fn kitty_without_family_has_no_font_family() {
    let mut cfg = cfg_with("/usr/bin/kitty");
    cfg.font.family = "  ".into();
    let argv = attach_argv(&cfg, AttachSpec::Id(1)).unwrap();
    assert!(!argv.iter().any(|a| a.contains("font_family=")));
    assert!(argv.iter().any(|a| a == "initial_window_width=1280"));
    assert!(argv.iter().any(|a| a == "initial_window_height=800"));
    assert!(argv.iter().any(|a| a == "font_size=18"));
    assert_eq!(argv.last().unwrap(), "/home/tj/.local/bin/vpsd attach --id 1");
}

#[test]
fn kitty_font_family_when_set() {
    let mut cfg = cfg_with("/usr/bin/kitty");
    cfg.font.family = "Berkeley Mono".into();
    let argv = attach_argv(&cfg, AttachSpec::New).unwrap();
    assert!(argv.iter().any(|a| a == "font_family=Berkeley Mono"));
    assert!(argv.iter().any(|a| a.contains("vpsd attach --new")));
}

#[test]
fn foot_argv_app_id_and_trailing_ssh() {
    let argv = attach_argv(&cfg_with("/usr/bin/foot"), AttachSpec::Id(3)).unwrap();
    assert_eq!(argv[0], "/usr/bin/foot");
    assert!(argv.iter().any(|a| a == "--app-id=vps"));
    assert!(argv.iter().any(|a| a.contains("colors.background=241018")));
    let ssh = argv.iter().position(|a| a == "ssh").expect("ssh");
    assert!(argv[ssh + 1..].iter().any(|a| a.contains("--id 3")));
    assert!(argv.iter().any(|a| a == "--window-size-pixels=1280x800"));
    assert!(!argv.iter().any(|a| a.starts_with("--font=")));
}

#[test]
fn alacritty_uses_e_last() {
    let mut cfg = cfg_with("/usr/bin/alacritty");
    cfg.terminal.args = vec!["--option".into(), "x=1".into()];
    let argv = attach_argv(&cfg, AttachSpec::New).unwrap();
    let e = argv.iter().position(|a| a == "-e").expect("-e");
    assert_eq!(argv[e + 1], "ssh");
    assert!(argv[..e].iter().any(|a| a == "--option"));
    assert!(argv.windows(2).any(|w| w == ["--class", "vps"]));
}

#[test]
fn ghostty_class_and_e() {
    let argv = attach_argv(&cfg_with("/usr/bin/ghostty"), AttachSpec::New).unwrap();
    assert!(argv.iter().any(|a| a == "--class=vps"));
    assert!(argv.iter().any(|a| a == "--background=#241018"));
    let e = argv.iter().position(|a| a == "-e").expect("-e");
    assert_eq!(argv[e + 1], "ssh");
    assert!(argv.iter().any(|a| a == "--font-size=18"));
    assert!(!argv.iter().any(|a| a.starts_with("--font-family=")));
}

#[test]
fn wezterm_start_class_then_prog() {
    let argv = attach_argv(&cfg_with("/usr/bin/wezterm"), AttachSpec::Id(9)).unwrap();
    assert_eq!(argv[1], "start");
    assert!(argv.windows(2).any(|w| w == ["--class", "vps"]));
    let dash = argv.iter().position(|a| a == "--").expect("--");
    assert_eq!(argv[dash + 1], "ssh");
    assert!(argv[dash + 1..].iter().any(|a| a.contains("--id 9")));
}

#[test]
fn unknown_is_program_args_ssh() {
    let mut cfg = cfg_with("/opt/myterm");
    cfg.terminal.args = vec!["-e".into()];
    let argv = attach_argv(&cfg, AttachSpec::New).unwrap();
    assert_eq!(
        argv,
        vec![
            "/opt/myterm".to_string(),
            "-e".to_string(),
            "ssh".to_string(),
            "-tt".to_string(),
            "grok".to_string(),
            "/home/tj/.local/bin/vpsd attach --new".to_string(),
        ]
    );
}

#[test]
fn trailing_slash_program_uses_its_name() {
    let argv = attach_argv(&cfg_with("  /usr/bin/wezterm-gui  "), AttachSpec::New).unwrap();
    assert_eq!(argv[0], "/usr/bin/wezterm-gui");
    assert_eq!(argv[1], "start");
}

#[test]
fn detect_finds_known_executable() {
    let dir = "/tmp/vps-term-1";
    let cands = detect_candidates(dir);
    let runnable: Vec<Vec<bool>> = cands
        .iter()
        .map(|c| c.iter().map(|p| p == "/tmp/vps-term-1/foot").collect())
        .collect();
    let found = detect_pick(&cands, &runnable);
    assert_eq!(
        found,
        vec![Detected {
            name: "foot".into(),
            path: "/tmp/vps-term-1/foot".into(),
        }]
    );
}

#[test]
fn detect_skips_unknown_names() {
    let dir = "/tmp/vps-term-unk";
    let cands = detect_candidates(dir);
    let runnable: Vec<Vec<bool>> = cands
        .iter()
        .map(|c| c.iter().map(|p| p == "/tmp/vps-term-unk/xterm").collect())
        .collect();
    assert!(detect_pick(&cands, &runnable).is_empty());
}
