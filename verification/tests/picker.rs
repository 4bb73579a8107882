use vps::picker::{choose_key, pick_key, ChooseAction, Key, PickAction};
use vps::protocol::SessionInfo;

fn sessions(ids: &[u64]) -> Vec<SessionInfo> {
    ids.iter()
        .map(|id| SessionInfo {
            id: *id,
            pts: format!("/dev/pts/{id}"),
            pid: 100,
            attached: false,
            cwd: String::new(),
            command: String::new(),
            title: String::new(),
        })
        .collect()
}

#[test]
fn pick_keys() {
    let s = sessions(&[4, 7]);
    assert_eq!(pick_key(&s, 0, &Key::Up), PickAction::Move(3));
    assert_eq!(pick_key(&s, 3, &Key::Down), PickAction::Move(0));
    assert_eq!(pick_key(&s, 1, &Key::Char("j".into())), PickAction::Move(2));
    assert_eq!(pick_key(&s, 1, &Key::Char("k".into())), PickAction::Move(0));
    assert_eq!(pick_key(&s, 1, &Key::Enter), PickAction::Attach(7));
    assert_eq!(pick_key(&s, 2, &Key::Enter), PickAction::New);
    assert_eq!(pick_key(&s, 3, &Key::Enter), PickAction::Settings);
    assert_eq!(pick_key(&s, 0, &Key::Char("n".into())), PickAction::New);
    assert_eq!(pick_key(&s, 0, &Key::Char("s".into())), PickAction::Settings);
    assert_eq!(pick_key(&s, 0, &Key::Char("t".into())), PickAction::Chooser);
    assert_eq!(pick_key(&s, 0, &Key::Char("x".into())), PickAction::Ignore);
    assert_eq!(pick_key(&s, 0, &Key::Escape), PickAction::Close);
    assert_eq!(pick_key(&s, 0, &Key::Other), PickAction::Ignore);
}

#[test]
fn choose_keys() {
    assert_eq!(choose_key(2, 0, true, true, &Key::Escape), ChooseAction::Close);
    assert_eq!(choose_key(2, 0, false, true, &Key::Escape), ChooseAction::Back);
    assert_eq!(choose_key(2, 0, false, false, &Key::Escape), ChooseAction::Close);
    assert_eq!(choose_key(2, 0, false, false, &Key::Up), ChooseAction::Move(2));
    assert_eq!(choose_key(2, 2, false, false, &Key::Down), ChooseAction::Move(0));
    assert_eq!(choose_key(2, 1, false, false, &Key::Enter), ChooseAction::Apply(1));
    assert_eq!(choose_key(2, 2, false, false, &Key::Enter), ChooseAction::Settings);
    assert_eq!(choose_key(0, 0, false, false, &Key::Char("s".into())), ChooseAction::Settings);
    assert_eq!(choose_key(0, 0, false, false, &Key::Char("n".into())), ChooseAction::Ignore);
}

#[test]
fn moving_down_then_up_returns() {
    let s = sessions(&[1, 2, 3]);
    for c in 0..5usize {
        let PickAction::Move(d) = pick_key(&s, c, &Key::Down) else { panic!() };
        assert_eq!(pick_key(&s, d, &Key::Up), PickAction::Move(c));
    }
}
