use vps::hub::{looks_like_tui, Hub};

#[test]
fn tui_detects_alt_screen_and_logo_csi() {
    assert!(looks_like_tui(b"\x1b[?1049h\x1b[2Jgrok"));
    assert!(looks_like_tui(b"\x1b[?25l"));
    assert!(!looks_like_tui(b"ls -asl\nfile\n[tj@host ~]$ "));
}

#[test]
fn attach_steals_already_attached() {
    let mut hub = Hub::new("/bin/bash".into(), 4096);
    let id = hub.create("/dev/pts/7".into(), 4242, 80, 24);
    assert!(hub.attach(id, 80, 24).is_ok(), "steal stale attached");
    assert!(hub.drop_session(id));
}

#[test]
fn tui_edges() {
    assert!(!looks_like_tui(b""));
    assert!(looks_like_tui(b"\x1b[?1047h"));
    // one ESC in eight bytes is not dense; one in seven is
    assert!(!looks_like_tui(b"\x1bxxxxxxx"));
    assert!(looks_like_tui(b"\x1bxxxxxx"));
}

#[test]
fn ids_start_at_one_and_increase() {
    let mut hub = Hub::new("/bin/sh".into(), 0);
    let a = hub.create("/dev/pts/1".into(), 4242, 80, 24);
    let b = hub.create("/dev/pts/2".into(), 4242, 80, 24);
    assert_eq!(a, 1);
    assert_eq!(b, 2);
    assert!(hub.drop_session(a));
    let c = hub.create("/dev/pts/3".into(), 4242, 80, 24);
    assert_eq!(c, 3);
    let ids: Vec<u64> = hub.list().iter().map(|s| s.id).collect();
    assert_eq!(ids, vec![2, 3]);
    assert_eq!(hub.shell(), "/bin/sh");
}

#[test]
fn detach_keeps_scrollback_and_attach_replays() {
    let mut hub = Hub::new("/bin/bash".into(), 4096);
    let id = hub.create("/dev/pts/4".into(), 4242, 80, 24);
    hub.push_output(id, b"MARK1\n");
    hub.detach(id);
    let listed = hub.list();
    assert_eq!(listed.len(), 1);
    assert!(!listed[0].attached);
    assert_eq!(listed[0].pts, "/dev/pts/4");
    assert_eq!(listed[0].pid, 4242);
    assert!(hub.attach(id, 80, 24).is_ok());
    assert!(hub.list()[0].attached);
    assert_eq!(hub.replay_on_attach(id), b"MARK1\n".to_vec());
    assert_eq!(hub.pts_name(id), Some("/dev/pts/4"));
}

#[test]
fn unknown_session() {
    let mut hub = Hub::new("/bin/bash".into(), 4096);
    assert_eq!(hub.attach(42, 80, 24).unwrap_err(), "no session 42");
    assert!(hub.replay_on_attach(42).is_empty());
    assert!(!hub.is_tui(42));
    assert!(!hub.drop_session(42));
    assert_eq!(hub.pts_name(42), None);
    hub.push_output(42, b"x");
    assert!(hub.list().is_empty());
}

#[test]
fn tui_session_replays_nothing() {
    let mut hub = Hub::new("/bin/bash".into(), 4096);
    let id = hub.create("/dev/pts/5".into(), 4242, 80, 24);
    hub.push_output(id, b"\x1b[?1049hgrok");
    assert!(hub.is_tui(id));
    assert!(hub.replay_on_attach(id).is_empty());
    hub.push_output(id, b"plain text");
    assert!(hub.is_tui(id), "tui is sticky");
}

#[test]
fn shell_scrollback_trims_to_a_line() {
    let mut hub = Hub::new("/bin/bash".into(), 4096);
    let id = hub.create("/dev/pts/6".into(), 4242, 80, 24);
    let mut line = vec![b'a'; 99];
    line.push(b'\n');
    for _ in 0..50 {
        hub.push_output(id, &line);
    }
    let kept = hub.replay_on_attach(id);
    assert!(kept.len() <= 4096);
    assert_eq!(kept.len(), 4000);
    assert_eq!(kept[0], b'a');
    assert_eq!(kept[99], b'\n');
}

#[test]
fn tui_scrollback_cap() {
    let mut hub = Hub::new("/bin/bash".into(), 1 << 20);
    let id = hub.create("/dev/pts/8".into(), 4242, 80, 24);
    hub.push_output(id, b"\x1b[?25l");
    let chunk = vec![b'z'; 10_000];
    for _ in 0..10 {
        hub.push_output(id, &chunk);
    }
    assert!(hub.is_tui(id));
    hub.detach(id);
    assert!(hub.replay_on_attach(id).is_empty());
}

#[test]
fn reap_forgets_dead_sessions() {
    let mut hub = Hub::new("/bin/bash".into(), 4096);
    let a = hub.create("/dev/pts/1".into(), 4242, 80, 24);
    let b = hub.create("/dev/pts/2".into(), 4242, 80, 24);
    let c = hub.create("/dev/pts/3".into(), 4242, 80, 24);
    hub.reap(&[a, c, 99]);
    let ids: Vec<u64> = hub.list().iter().map(|s| s.id).collect();
    assert_eq!(ids, vec![b]);
}

#[test]
fn dump_contains_written_text() {
    let mut s = vps::screen::Screen::new(40, 8);
    s.feed(b"hello-vps\r\n");
    let bytes = s.dump_ansi();
    let dump = String::from_utf8_lossy(&bytes);
    assert!(dump.contains("hello-vps"), "{dump:?}");
}

#[test]
fn dump_layout() {
    let mut s = vps::screen::Screen::new(3, 2);
    s.feed(b"ab");
    let bytes = s.dump_ansi();
    assert_eq!(bytes, b"\x1b[2J\x1b[H\x1b[0m\x1b[1;1Hab \x1b[2;1H   \x1b[1;3H".to_vec());
    let mut t = vps::screen::Screen::new(0, 0);
    t.feed(b"\x1b[?1049h");
    t.resize(2, 1);
    assert!(t.dump_ansi().starts_with(b"\x1b[?1049h"));
    // After a resize the dump has the new number of lines, of the new width.
    let mut u = vps::screen::Screen::new(4, 3);
    u.resize(2, 1);
    assert_eq!(u.dump_ansi(), b"\x1b[2J\x1b[H\x1b[0m\x1b[1;1H  \x1b[1;1H".to_vec());
}

/// A screen asked for one column gets two, enough for a double-width
/// character, so feeding one does not fail.
#[test]
fn one_column_screen_holds_wide_characters() {
    let mut s = vps::screen::Screen::new(1, 1);
    s.feed("\u{4e00}".as_bytes());
    s.resize(1, 1);
    s.feed("\u{4e00}x".as_bytes());
    let dump = s.dump_ansi();
    assert!(dump.starts_with(b"\x1b[2J\x1b[H\x1b[0m\x1b[1;1H"));
}

