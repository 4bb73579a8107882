use vps::paths::{basename, config_dir, path_join};
use vps::procinfo::{cmdline_text, is_shell_command, parse_pid, parse_ppid};

#[test]
fn cmdline_joins_arguments() {
    assert_eq!(cmdline_text(b"grok\0--resume\0x\0"), "grok --resume x");
    assert_eq!(cmdline_text(b""), "");
    assert_eq!(cmdline_text(b"\0\0a\0\0b"), "a b");
    assert_eq!(cmdline_text(b"\xff\0z"), "\u{fffd} z");
}

#[test]
fn shells_are_recognised() {
    assert!(is_shell_command("/bin/bash -l"));
    assert!(is_shell_command("zsh"));
    assert!(is_shell_command("  /usr/bin/fish"));
    assert!(!is_shell_command("grok --resume x"));
    assert!(!is_shell_command("/usr/bin/bashful"));
    assert!(!is_shell_command(""));
}

#[test]
fn ppid_from_status() {
    let status = "Name:\tbash\nState:\tS\nPPid:\t1234\nTracerPid:\t0\n";
    assert_eq!(parse_ppid(status), Some(1234));
    assert_eq!(parse_ppid("Name:\tx\n"), None);
    assert_eq!(parse_ppid("PPid:\tnope\nPPid:\t5\n"), None);
    assert_eq!(parse_pid("4242"), Some(4242));
    assert_eq!(parse_pid("self"), None);
    assert_eq!(parse_pid("4294967296"), None);
}

#[test]
fn path_text() {
    assert_eq!(path_join("/a", "b"), "/a/b");
    assert_eq!(path_join("/a/", "b"), "/a/b");
    assert_eq!(path_join("", "b"), "b");
    assert_eq!(path_join("/a", "/b"), "/b");
    assert_eq!(basename("/usr/bin/kitty"), "kitty");
    assert_eq!(basename("kitty"), "kitty");
    assert_eq!(basename("/usr/bin/foot/"), "foot");
    assert_eq!(basename("/usr/bin/foot/."), "foot");
    assert_eq!(basename("/usr/.."), "/usr/..");
    assert_eq!(basename("/"), "/");
    assert_eq!(basename(""), "");
    assert_eq!(config_dir(Some("/cfg"), None), "/cfg/vps");
    assert_eq!(config_dir(None, Some("/home/u")), "/home/u/.config/vps");
}
