//! The picker window's screens and how it moves between them.
//!
//! The window shows one of four screens: a loading note, the terminal
//! chooser, the session picker, or the settings form. Each function here is
//! one move between screens, given what the outside work (listing sessions,
//! spawning a terminal, saving the file) came back with.
use vstd::prelude::*;
use crate::client_config::Config;
use crate::protocol::SessionInfo;
use crate::settings::Form;
use crate::terminal::Detected;
use crate::text::{cat, push_str};

verus! {

/// Where the settings form returns to on cancel.
pub enum Back {
    /// Nowhere: cancel closes the window.
    Quit,
    /// The session picker, as it was.
    Pick { sessions: Vec<SessionInfo>, cursor: usize },
    /// The terminal chooser, as it was.
    Choose {
        found: Vec<Detected>,
        cursor: usize,
        first: bool,
        pick: Option<(Vec<SessionInfo>, usize)>,
    },
}

/// The screen the window shows.
pub enum Mode {
    /// Waiting for the session list.
    Loading,
    /// Choosing a terminal emulator. `first` is set on a first run (nothing
    /// to go back to); `back` is the picker it was opened from.
    ChooseTerm {
        found: Vec<Detected>,
        cursor: usize,
        err: Option<String>,
        first: bool,
        back: Option<(Vec<SessionInfo>, usize)>,
    },
    /// Choosing a session.
    Pick { sessions: Vec<SessionInfo>, cursor: usize, err: Option<String> },
    /// Editing the settings.
    Settings { form: Form, back: Back },
}

/// What the settings form opened from `mode` returns to.
pub open spec fn back_of(mode: Mode) -> Back {
    match mode {
        Mode::Pick { sessions, cursor, .. } => Back::Pick { sessions, cursor },
        Mode::ChooseTerm { found, cursor, first, back, .. } => Back::Choose {
            found,
            cursor,
            first,
            pick: back,
        },
        Mode::Settings { back, .. } => back,
        Mode::Loading => Back::Quit,
    }
}

/// Opens the settings form (`form` is filled from the current settings).
/// It returns to the screen it was opened from; opened from the form itself
/// it keeps where that one returns to.
pub fn enter_settings(mode: Mode, form: Form) -> (m: Mode)
    ensures
        m == (Mode::Settings { form, back: back_of(mode) }),
{
    let back = match mode {
        Mode::Pick { sessions, cursor, .. } => Back::Pick { sessions, cursor },
        Mode::ChooseTerm { found, cursor, first, back, .. } => Back::Choose {
            found,
            cursor,
            first,
            pick: back,
        },
        Mode::Settings { back, .. } => back,
        Mode::Loading => Back::Quit,
    };
    Mode::Settings { form, back }
}

/// The screen a cancelled form returns to; `None` closes the window.
pub open spec fn cancel_spec(mode: Mode) -> Option<Mode> {
    match mode {
        Mode::Settings { back: Back::Pick { sessions, cursor }, .. } => Some(
            Mode::Pick { sessions, cursor, err: None },
        ),
        Mode::Settings { back: Back::Choose { found, cursor, first, pick }, .. } => Some(
            Mode::ChooseTerm { found, cursor, err: None, first, back: pick },
        ),
        _ => None,
    }
}

/// Cancel in the settings form (or Escape there).
pub fn cancel_settings(mode: Mode) -> (r: Option<Mode>)
    ensures
        r == cancel_spec(mode),
{
    match mode {
        Mode::Settings { back: Back::Pick { sessions, cursor }, .. } => Some(
            Mode::Pick { sessions, cursor, err: None },
        ),
        Mode::Settings { back: Back::Choose { found, cursor, first, pick }, .. } => Some(
            Mode::ChooseTerm { found, cursor, err: None, first, back: pick },
        ),
        _ => None,
    }
}

/// The picker a chooser opened from `mode` goes back to.
pub open spec fn chooser_back_of(mode: Mode) -> Option<(Vec<SessionInfo>, usize)> {
    match mode {
        Mode::Pick { sessions, cursor, .. } => Some((sessions, cursor)),
        Mode::ChooseTerm { back, .. } => back,
        _ => None,
    }
}

/// Whether a chooser opened from `mode` is a first run: it is unless it
/// comes from the picker.
pub fn chooser_is_first(mode: &Mode) -> (b: bool)
    ensures
        b == !(*mode is Pick),
{
    match mode {
        Mode::Pick { .. } => false,
        _ => true,
    }
}

/// Opens the terminal chooser on the terminals `found`, with the highlight
/// on the first, showing `err` (why the configured one will not do).
pub fn enter_chooser(mode: Mode, first: bool, found: Vec<Detected>, err: Option<String>) -> (m:
    Mode)
    ensures
        m == (Mode::ChooseTerm { found, cursor: 0, err, first, back: chooser_back_of(mode) }),
{
    let back = match mode {
        Mode::Pick { sessions, cursor, .. } => Some((sessions, cursor)),
        Mode::ChooseTerm { back, .. } => back,
        _ => None,
    };
    Mode::ChooseTerm { found, cursor: 0, err, first, back }
}

/// A picker with no sessions, showing `msg`.
pub open spec fn is_empty_pick(m: Mode, msg: Seq<char>) -> bool {
    &&& m matches Mode::Pick { sessions, cursor, err }
    &&& sessions@.len() == 0
    &&& cursor == 0
    &&& err is Some
    &&& err->0@ == msg
}

/// What the window does with the session list.
pub enum Listed {
    /// Show this screen.
    Show(Mode),
    /// Open a terminal on a new session straight away.
    StartNew,
}

/// The session list came back: the picker shows it when the settings want
/// a picker for that many sessions, else a new session starts; a failed
/// listing shows an empty picker with the error.
pub fn on_listed(cfg: &Config, r: Result<Vec<SessionInfo>, String>) -> (l: Listed)
    ensures
        match r {
            Ok(s) => if cfg.want_picker_spec(s@.len()) {
                l == Listed::Show(Mode::Pick { sessions: s, cursor: 0, err: None })
            } else {
                l is StartNew
            },
            Err(e) => l matches Listed::Show(m) && is_empty_pick(m, e@),
        },
{
    match r {
        Ok(sessions) => {
            if cfg.want_picker(sessions.len()) {
                Listed::Show(Mode::Pick { sessions, cursor: 0, err: None })
            } else {
                Listed::StartNew
            }
        },
        Err(e) => Listed::Show(Mode::Pick { sessions: Vec::new(), cursor: 0, err: Some(e) }),
    }
}

/// What the window does after trying to open a terminal.
pub enum Spawned {
    /// It opened: close the picker window.
    Close,
    /// Show the terminal chooser (first run unless from the picker).
    Chooser { first: bool },
    /// Show this screen.
    Show(Mode),
}

/// Opening a terminal came back with `r`; `needs_chooser` is whether the
/// configured terminal is still unusable. A failure shows the chooser when
/// the terminal is the problem, else the error in the picker (an empty one
/// when the window was not on the picker).
pub fn after_spawn(mode: Mode, r: Result<(), String>, needs_chooser: bool) -> (s: Spawned)
    ensures
        match r {
            Ok(_) => s is Close,
            Err(e) => if needs_chooser {
                s == Spawned::Chooser { first: !(mode is Pick) }
            } else {
                match mode {
                    Mode::Pick { sessions, cursor, .. } => s == Spawned::Show(
                        Mode::Pick { sessions, cursor, err: Some(e) },
                    ),
                    _ => s matches Spawned::Show(m) && is_empty_pick(m, e@),
                }
            },
        },
{
    match r {
        Ok(()) => Spawned::Close,
        Err(e) => {
            if needs_chooser {
                let first = chooser_is_first(&mode);
                Spawned::Chooser { first }
            } else {
                match mode {
                    Mode::Pick { sessions, cursor, .. } => Spawned::Show(
                        Mode::Pick { sessions, cursor, err: Some(e) },
                    ),
                    _ => Spawned::Show(Mode::Pick { sessions: Vec::new(), cursor: 0, err: Some(e) }),
                }
            }
        },
    }
}

/// What the window does after saving a chosen terminal.
pub enum Chosen {
    /// First run: list the sessions now (the window shows `Loading`).
    List,
    /// Show this screen.
    Show(Mode),
}

pub open spec fn saved_note(path: Seq<char>) -> Seq<char> {
    "terminal saved ("@ + path + ")"@
}

/// The picker a saved terminal returns to: the one it came from (an empty
/// one if none), noting `note`.
pub open spec fn is_back_pick(c: Chosen, back: Option<(Vec<SessionInfo>, usize)>, note: Seq<char>) -> bool {
    &&& c matches Chosen::Show(Mode::Pick { sessions, cursor, err })
    &&& err is Some
    &&& err->0@ == note
    &&& match back {
        Some((s, k)) => sessions == s && cursor == k,
        None => sessions@.len() == 0 && cursor == 0,
    }
}

/// The chosen terminal was saved to the file at `r`'s path, or saving
/// failed with `r`'s error. On a first run the sessions are listed next;
/// otherwise the picker the chooser came from shows again (an empty one if
/// none) with a note of where it was saved. A failure stays in the
/// chooser, with the error shown.
pub open spec fn after_choose_spec(mode: Mode, r: Result<String, String>, c: Chosen) -> bool {
    match mode {
        Mode::ChooseTerm { found, cursor, first, back, .. } => match r {
            Ok(path) => if first {
                c is List
            } else {
                is_back_pick(c, back, saved_note(path@))
            },
            Err(e) => c == Chosen::Show(
                Mode::ChooseTerm { found, cursor, err: Some(e), first, back },
            ),
        },
        _ => c == Chosen::Show(mode),
    }
}

/// The chooser (`mode`) saved its choice, with result `r`.
pub fn after_choose(mode: Mode, r: Result<String, String>) -> (c: Chosen)
    ensures
        after_choose_spec(mode, r, c),
{
    match mode {
        Mode::ChooseTerm { found, cursor, first, back, .. } => match r {
            Ok(path) => {
                if first {
                    Chosen::List
                } else {
                    let mut note = cat("terminal saved (", path.as_str());
                    push_str(&mut note, ")");
                    match back {
                        Some((sessions, cursor)) => Chosen::Show(
                            Mode::Pick { sessions, cursor, err: Some(note) },
                        ),
                        None => Chosen::Show(
                            Mode::Pick { sessions: Vec::new(), cursor: 0, err: Some(note) },
                        ),
                    }
                }
            },
            Err(e) => Chosen::Show(Mode::ChooseTerm { found, cursor, err: Some(e), first, back }),
        },
        other => Chosen::Show(other),
    }
}

/// Escape in a chooser opened from the picker: the picker shows again as it
/// was. Any other screen stays.
pub open spec fn leave_chooser_spec(mode: Mode) -> Mode {
    match mode {
        Mode::ChooseTerm { back: Some((sessions, cursor)), .. } => Mode::Pick {
            sessions,
            cursor,
            err: None,
        },
        _ => mode,
    }
}

pub fn leave_chooser(mode: Mode) -> (m: Mode)
    ensures
        m == leave_chooser_spec(mode),
{
    match mode {
        Mode::ChooseTerm { back: Some((sessions, cursor)), .. } => Mode::Pick {
            sessions,
            cursor,
            err: None,
        },
        other => other,
    }
}

/// The form's status line after saving: where it was saved, or why not.
/// Every other field of the form stays as it was.
pub fn after_save(form: &mut Form, r: Result<String, String>)
    ensures
        match r {
            Ok(path) => final(form).status is Some && final(form).status->0@ == "saved "@ + path@,
            Err(e) => final(form).status == Some(e),
        },
        (Form { status: final(form).status, ..*old(form) }) == *final(form),
{
    match r {
        Ok(path) => {
            form.status = Some(cat("saved ", path.as_str()));
        },
        Err(e) => {
            form.status = Some(e);
        },
    }
}

/// The window title: `vps · host`, with the screen's name for the chooser
/// and the form.
pub open spec fn title_spec(host: Seq<char>, mode: Mode) -> Seq<char> {
    "vps · "@ + host + match mode {
        Mode::ChooseTerm { .. } => " · terminal"@,
        Mode::Settings { .. } => " · settings"@,
        _ => Seq::<char>::empty(),
    }
}

pub fn title(host: &str, mode: &Mode) -> (r: String)
    ensures
        r@ == title_spec(host@, *mode),
{
    let mut t = cat("vps · ", host);
    match mode {
        Mode::ChooseTerm { .. } => push_str(&mut t, " · terminal"),
        Mode::Settings { .. } => push_str(&mut t, " · settings"),
        _ => {},
    }
    assert(t@ =~= title_spec(host@, *mode));
    t
}

/// Settings opened from a screen and then cancelled return to that screen,
/// with its message cleared; opened from the loading screen, cancel closes
/// the window; opened from the form itself, cancel goes where that form
/// would have gone.
pub proof fn lemma_settings_cancel_returns(mode: Mode, form: Form)
    ensures
        cancel_spec(Mode::Settings { form, back: back_of(mode) }) == match mode {
            Mode::Pick { sessions, cursor, .. } => Some(Mode::Pick { sessions, cursor, err: None }),
            Mode::ChooseTerm { found, cursor, first, back, .. } => Some(
                Mode::ChooseTerm { found, cursor, err: None, first, back },
            ),
            Mode::Settings { .. } => cancel_spec(mode),
            Mode::Loading => None,
        },
{
}

/// A chooser opened from the picker goes back, on Escape, to the same
/// picker: the same sessions with the highlight where it was.
pub proof fn lemma_chooser_returns_to_picker(
    sessions: Vec<SessionInfo>,
    cursor: usize,
    err: Option<String>,
    first: bool,
    found: Vec<Detected>,
    why: Option<String>,
)
    ensures
        leave_chooser_spec(
            Mode::ChooseTerm {
                found,
                cursor: 0,
                err: why,
                first,
                back: chooser_back_of(Mode::Pick { sessions, cursor, err }),
            },
        ) == (Mode::Pick { sessions, cursor, err: None }),
{
}

} // verus!
