//! The session picker and terminal chooser: row labels, palette colors, and
//! what each key does.
use vstd::prelude::*;
use crate::paths::seg_start;
use crate::protocol::SessionInfo;
use crate::settings::{split_ws, words};
use crate::text::{
    cat, parse_u32, parse_u32_radix, push_str, strip_leading, strip_leading_char, to_string, trim,
    trim_str,
};

verus! {

/// At most `max` characters: longer text is cut to `max - 1` characters and
/// an ellipsis.
pub open spec fn truncate_spec(s: Seq<char>, max: nat) -> Seq<char> {
    if s.len() <= max {
        s
    } else {
        s.take(if max >= 1 {
            max - 1
        } else {
            0
        }) + "…"@
    }
}

/// `s` cut to `max` characters with a trailing ellipsis.
pub fn truncate(s: &str, max: usize) -> (r: String)
    ensures
        r@ == truncate_spec(s@, max as nat),
{
    let n = s.unicode_len();
    if n <= max {
        return to_string(s);
    }
    let keep = if max >= 1 {
        max - 1
    } else {
        0
    };
    let head = s.substring_char(0, keep);
    cat(head, "…")
}

/// The program's base name: its first word after the last `/`; `grok`
/// when the command has no word.
pub open spec fn command_base(command: Seq<char>) -> Seq<char> {
    let ws = words(command);
    if ws.len() > 0 {
        ws[0].skip(seg_start(ws[0]) as int)
    } else {
        "grok"@
    }
}

/// The command shown in a picker row: `bash` for none, `base [title]` for a
/// titled session, else the command line, truncated.
pub open spec fn command_label_spec(command: Seq<char>, title: Seq<char>) -> Seq<char> {
    if command.len() == 0 {
        "bash"@
    } else if title.len() > 0 {
        truncate_spec(command_base(command) + " ["@ + title + "]"@, 56)
    } else {
        truncate_spec(command, 48)
    }
}

fn after_last_slash(w: &str) -> (r: &str)
    ensures
        r@ == w@.skip(seg_start(w@) as int),
{
    let n = w.unicode_len();
    let mut k = n;
    assert(w@.subrange(0, n as int) =~= w@);
    while k > 0 && w.get_char(k - 1) != '/'
        invariant
            k <= n,
            n == w@.len(),
            seg_start(w@) == seg_start(w@.subrange(0, k as int)),
        decreases k,
    {
        proof {
            assert(w@.subrange(0, k as int).drop_last() =~= w@.subrange(0, k - 1));
        }
        k = k - 1;
    }
    assert(w@.subrange(k as int, n as int) =~= w@.skip(k as int));
    w.substring_char(k, n)
}

/// The command label of a picker row.
pub fn session_command_label(s: &SessionInfo) -> (r: String)
    ensures
        r@ == command_label_spec(s.command@, s.title@),
{
    if s.command.unicode_len() == 0 {
        return to_string("bash");
    }
    if s.title.unicode_len() > 0 {
        let ws = split_ws(s.command.as_str());
        let mut label = if ws.len() > 0 {
            to_string(after_last_slash(ws[0].as_str()))
        } else {
            to_string("grok")
        };
        push_str(&mut label, " [");
        push_str(&mut label, s.title.as_str());
        push_str(&mut label, "]");
        return truncate(label.as_str(), 56);
    }
    truncate(s.command.as_str(), 48)
}

/// `s` padded with spaces on the right to at least `width` characters
/// (`format!("{:<width$}")`).
pub open spec fn pad_spec(s: Seq<char>, width: nat) -> Seq<char> {
    if s.len() >= width {
        s
    } else {
        s + Seq::new((width - s.len()) as nat, |i: int| ' ')
    }
}

pub fn pad_right(s: &str, width: usize) -> (r: String)
    ensures
        r@ == pad_spec(s@, width as nat),
{
    let mut r = to_string(s);
    let n = s.unicode_len();
    let mut k = n;
    while k < width
        invariant
            n == s@.len(),
            k >= n,
            k <= width || k == n,
            r@ == s@ + Seq::new((k - n) as nat, |i: int| ' '),
        decreases width - k,
    {
        crate::text::push_char(&mut r, ' ');
        proof {
            assert(r@ =~= s@ + Seq::new((k + 1 - n) as nat, |i: int| ' '));
        }
        k = k + 1;
    }
    proof {
        if n >= width {
            assert(r@ =~= s@);
        } else {
            assert(k == width);
        }
    }
    r
}

/// A picker row: `#id`, `live` or `idle`, the working directory (cut to
/// 40 characters) and the command label.
pub open spec fn session_row_spec(id: u64, attached: bool, cwd: Seq<char>, command: Seq<char>, title: Seq<char>) -> Seq<char> {
    "#"@ + pad_spec(crate::text::decimal(id as nat), 3) + " "@ + pad_spec(
        if attached {
            "live"@
        } else {
            "idle"@
        },
        5,
    ) + "  "@ + (if cwd.len() == 0 {
        Seq::<char>::empty()
    } else {
        truncate_spec(cwd, 40)
    }) + "  "@ + command_label_spec(command, title)
}

/// The text of a session's row in the picker.
pub fn session_row_text(s: &SessionInfo) -> (r: String)
    ensures
        r@ == session_row_spec(s.id, s.attached, s.cwd@, s.command@, s.title@),
{
    let id = crate::text::u64_to_decimal(s.id);
    let mut line = cat("#", pad_right(id.as_str(), 3).as_str());
    push_str(&mut line, " ");
    let state = if s.attached {
        "live"
    } else {
        "idle"
    };
    push_str(&mut line, pad_right(state, 5).as_str());
    push_str(&mut line, "  ");
    if s.cwd.unicode_len() > 0 {
        push_str(&mut line, truncate(s.cwd.as_str(), 40).as_str());
    } else {
        assert(line@ + Seq::<char>::empty() =~= line@);
    }
    push_str(&mut line, "  ");
    push_str(&mut line, session_command_label(s).as_str());
    line
}

/// A chooser row: the terminal's name in a 12-character column, then its
/// path.
pub open spec fn choice_row_spec(name: Seq<char>, path: Seq<char>) -> Seq<char> {
    "  "@ + pad_spec(name, 12) + " "@ + path
}

pub fn choice_row_text(d: &crate::terminal::Detected) -> (r: String)
    ensures
        r@ == choice_row_spec(d.name@, d.path@),
{
    let mut line = cat("  ", pad_right(d.name.as_str(), 12).as_str());
    push_str(&mut line, " ");
    push_str(&mut line, d.path.as_str());
    line
}

/// The lines of a text as `str::lines` gives them: split at `\n`, with a
/// `\r` before it dropped (a final empty piece is no line, but it never
/// holds the tag either).
pub open spec fn line_of(piece: Seq<char>) -> Seq<char> {
    if piece.len() > 0 && piece.last() == '\r' {
        piece.drop_last()
    } else {
        piece
    }
}

/// `"t"` (the tag every control message carries) occurs at `i`.
pub open spec fn tag_at(s: Seq<char>, i: int) -> bool {
    0 <= i && i + 3 <= s.len() && s[i] == '"' && s[i + 1] == 't' && s[i + 2] == '"'
}

pub open spec fn has_tag_spec(s: Seq<char>) -> bool {
    exists|i: int| tag_at(s, i)
}

pub fn has_tag(s: &str) -> (b: bool)
    ensures
        b == has_tag_spec(s@),
{
    let n = s.unicode_len();
    if n < 3 {
        return false;
    }
    let mut i: usize = 0;
    while i < n - 2
        invariant
            n == s@.len(),
            n >= 3,
            i <= n - 2,
            forall|k: int| 0 <= k < i ==> !tag_at(s@, k),
        decreases n - i,
    {
        if s.get_char(i) == '"' && s.get_char(i + 1) == 't' && s.get_char(i + 2) == '"' {
            assert(tag_at(s@, i as int));
            return true;
        }
        i = i + 1;
    }
    assert forall|k: int| !tag_at(s@, k) by {
        if 0 <= k < i {
        }
    }
    false
}

/// The first line that holds the tag, if any.
pub open spec fn first_tagged(pieces: Seq<Seq<char>>) -> Option<Seq<char>>
    decreases pieces.len(),
{
    if pieces.len() == 0 {
        None
    } else if has_tag_spec(line_of(pieces[0])) {
        Some(line_of(pieces[0]))
    } else {
        first_tagged(pieces.drop_first())
    }
}

/// The line of `vpsd list` output that holds the reply: the first line
/// with a `"t"` tag, else the whole output trimmed.
pub open spec fn reply_line_spec(stdout: Seq<char>) -> Seq<char> {
    match first_tagged(crate::text::split_char(stdout, '\n')) {
        Some(l) => l,
        None => trim(stdout),
    }
}

pub fn reply_line(stdout: &str) -> (r: String)
    ensures
        r@ == reply_line_spec(stdout@),
{
    let pieces = crate::text::split_on(stdout, '\n');
    let ghost pv = crate::text::strs(pieces@);
    let n = pieces.len();
    let mut i: usize = 0;
    assert(pv.skip(0) =~= pv);
    while i < n
        invariant
            i <= n,
            n == pieces@.len(),
            pv == crate::text::strs(pieces@),
            pv == crate::text::split_char(stdout@, '\n'),
            first_tagged(pv) == first_tagged(pv.skip(i as int)),
        decreases n - i,
    {
        proof {
            assert(pv.skip(i as int)[0] == pieces@[i as int]@);
            assert(pv.skip(i as int).drop_first() =~= pv.skip(i + 1));
        }
        let p = pieces[i].as_str();
        let m = p.unicode_len();
        let line = if m > 0 && p.get_char(m - 1) == '\r' {
            let l = p.substring_char(0, m - 1);
            assert(l@ =~= p@.drop_last());
            l
        } else {
            p
        };
        if has_tag(line) {
            return to_string(line);
        }
        i = i + 1;
    }
    assert(pv.skip(n as int) =~= Seq::<Seq<char>>::empty());
    to_string(trim_str(stdout))
}

// ---------------------------------------------------------------------------
// Palette colors
// ---------------------------------------------------------------------------
/// `#RRGGBB` (or `RRGGBB`, surrounding whitespace ignored) as red, green
/// and blue; `None` when it is not six bytes of hex.
pub open spec fn parse_hex_spec(s: Seq<char>) -> Option<(u8, u8, u8)> {
    let t = strip_leading(trim(s), '#');
    if vstd::utf8::encode_utf8(t).len() != 6 {
        None
    } else {
        match parse_u32_radix(t, 16) {
            None => None,
            Some(n) => Some((((n >> 16) & 0xff) as u8, ((n >> 8) & 0xff) as u8, (n & 0xff) as u8)),
        }
    }
}

/// A character takes one to four bytes in UTF-8.
proof fn lemma_utf8_len_bounds(s: Seq<char>)
    ensures
        s.len() <= vstd::utf8::encode_utf8(s).len() <= 4 * s.len(),
    decreases s.len(),
{
    if s.len() > 0 {
        lemma_utf8_len_bounds(s.drop_first());
    }
}

/// A palette entry as red, green and blue bytes. `None` stands for "not a
/// color"; the window then uses white.
pub fn parse_hex(s: &str) -> (r: Option<(u8, u8, u8)>)
    ensures
        r == parse_hex_spec(s@),
{
    let t = strip_leading_char(trim_str(s), '#');
    proof {
        lemma_utf8_len_bounds(t@);
    }
    if t.unicode_len() > 6 {
        return None;
    }
    if t.len() != 6 {
        return None;
    }
    match parse_u32(t, 16) {
        None => None,
        Some(n) => {
            assert((n >> 16) & 0xff < 256) by (bit_vector);
            assert((n >> 8) & 0xff < 256) by (bit_vector);
            assert(n & 0xff < 256) by (bit_vector);
            let r = ((n >> 16) & 0xff) as u8;
            let g = ((n >> 8) & 0xff) as u8;
            let b = (n & 0xff) as u8;
            Some((r, g, b))
        },
    }
}

// ---------------------------------------------------------------------------
// Keys
// ---------------------------------------------------------------------------
/// A key press, as far as the picker and the chooser care.
pub enum Key {
    Escape,
    Up,
    Down,
    Enter,
    /// A character key; the text it types.
    Char(String),
    Other,
}

/// The row above, wrapping from the top to the bottom of `n` rows.
pub open spec fn up_spec(cursor: nat, n: nat) -> nat {
    if cursor >= 1 {
        (cursor - 1) as nat
    } else if n >= 1 {
        (n - 1) as nat
    } else {
        0
    }
}

/// The row below, wrapping from the bottom to the top of `n` rows.
pub open spec fn down_spec(cursor: nat, n: nat) -> nat {
    (cursor + 1) % (if n >= 1 {
        n
    } else {
        1
    })
}

pub fn cursor_up(cursor: usize, n: usize) -> (r: usize)
    ensures
        r == up_spec(cursor as nat, n as nat),
{
    if cursor >= 1 {
        cursor - 1
    } else if n >= 1 {
        n - 1
    } else {
        0
    }
}

pub fn cursor_down(cursor: usize, n: usize) -> (r: usize)
    requires
        cursor < usize::MAX,
    ensures
        r == down_spec(cursor as nat, n as nat),
{
    let m = if n >= 1 {
        n
    } else {
        1
    };
    (cursor + 1) % m
}

/// What a key does in the session picker.
#[derive(Debug, Clone, Copy, PartialEq, Eq)]
pub enum PickAction {
    /// Close the window.
    Close,
    /// Move the highlight to this row.
    Move(usize),
    /// Open a terminal on a new session.
    New,
    /// Open a terminal on this session.
    Attach(u64),
    /// Open the settings form.
    Settings,
    /// Open the terminal chooser.
    Chooser,
    /// Nothing.
    Ignore,
}

pub open spec fn is_char(key: Key, c: Seq<char>) -> bool {
    key matches Key::Char(s) && s@ == c
}

/// The picker lists the sessions, then `+ new session`, then `settings`.
pub open spec fn pick_key_spec(ids: Seq<u64>, cursor: nat, key: Key) -> PickAction {
    let n = ids.len() + 2;
    if key is Escape {
        PickAction::Close
    } else if key is Up || is_char(key, "k"@) {
        PickAction::Move(up_spec(cursor, n) as usize)
    } else if key is Down || is_char(key, "j"@) {
        PickAction::Move(down_spec(cursor, n) as usize)
    } else if is_char(key, "n"@) {
        PickAction::New
    } else if is_char(key, "s"@) {
        PickAction::Settings
    } else if is_char(key, "t"@) {
        PickAction::Chooser
    } else if key is Enter {
        if cursor == ids.len() {
            PickAction::New
        } else if cursor > ids.len() {
            PickAction::Settings
        } else {
            PickAction::Attach(ids[cursor as int])
        }
    } else {
        PickAction::Ignore
    }
}

pub open spec fn session_ids(sessions: Seq<SessionInfo>) -> Seq<u64> {
    sessions.map_values(|s: SessionInfo| s.id)
}

fn key_is(key: &Key, c: &str) -> (b: bool)
    ensures
        b == is_char(*key, c@),
{
    match key {
        Key::Char(s) => crate::text::str_eq(s.as_str(), c),
        _ => false,
    }
}

/// What a key does in the session picker with the highlight on `cursor`.
pub fn pick_key(sessions: &Vec<SessionInfo>, cursor: usize, key: &Key) -> (r: PickAction)
    requires
        cursor < usize::MAX,
        sessions@.len() + 2 <= usize::MAX,
    ensures
        r == pick_key_spec(session_ids(sessions@), cursor as nat, *key),
{
    let len = sessions.len();
    let n = len + 2;
    match key {
        Key::Escape => PickAction::Close,
        Key::Up => PickAction::Move(cursor_up(cursor, n)),
        Key::Down => PickAction::Move(cursor_down(cursor, n)),
        Key::Enter => {
            if cursor == len {
                PickAction::New
            } else if cursor > len {
                PickAction::Settings
            } else {
                PickAction::Attach(sessions[cursor].id)
            }
        },
        Key::Char(_) => {
            if key_is(key, "k") {
                PickAction::Move(cursor_up(cursor, n))
            } else if key_is(key, "j") {
                PickAction::Move(cursor_down(cursor, n))
            } else if key_is(key, "n") {
                PickAction::New
            } else if key_is(key, "s") {
                PickAction::Settings
            } else if key_is(key, "t") {
                PickAction::Chooser
            } else {
                PickAction::Ignore
            }
        },
        Key::Other => PickAction::Ignore,
    }
}

/// What a key does in the terminal chooser.
#[derive(Debug, Clone, Copy, PartialEq, Eq)]
pub enum ChooseAction {
    /// Close the window.
    Close,
    /// Go back to the picker it came from.
    Back,
    /// Move the highlight to this row.
    Move(usize),
    /// Open the settings form.
    Settings,
    /// Save the terminal found at this index.
    Apply(usize),
    /// Nothing.
    Ignore,
}

/// The chooser lists the terminals found, then `type a path in settings`.
/// Escape on first run closes; otherwise it returns to the picker if it came
/// from one.
pub open spec fn choose_key_spec(found: nat, cursor: nat, first: bool, has_back: bool, key: Key) -> ChooseAction {
    let n = found + 1;
    if key is Escape {
        if first {
            ChooseAction::Close
        } else if has_back {
            ChooseAction::Back
        } else {
            ChooseAction::Close
        }
    } else if key is Up || is_char(key, "k"@) {
        ChooseAction::Move(up_spec(cursor, n) as usize)
    } else if key is Down || is_char(key, "j"@) {
        ChooseAction::Move(down_spec(cursor, n) as usize)
    } else if is_char(key, "s"@) {
        ChooseAction::Settings
    } else if key is Enter {
        if cursor < found {
            ChooseAction::Apply(cursor as usize)
        } else {
            ChooseAction::Settings
        }
    } else {
        ChooseAction::Ignore
    }
}

/// What a key does in the terminal chooser showing `found` terminals with
/// the highlight on `cursor`.
pub fn choose_key(found: usize, cursor: usize, first: bool, has_back: bool, key: &Key) -> (r:
    ChooseAction)
    requires
        cursor < usize::MAX,
        found < usize::MAX,
    ensures
        r == choose_key_spec(found as nat, cursor as nat, first, has_back, *key),
{
    let n = found + 1;
    match key {
        Key::Escape => {
            if first {
                ChooseAction::Close
            } else if has_back {
                ChooseAction::Back
            } else {
                ChooseAction::Close
            }
        },
        Key::Up => ChooseAction::Move(cursor_up(cursor, n)),
        Key::Down => ChooseAction::Move(cursor_down(cursor, n)),
        Key::Enter => {
            if cursor < found {
                ChooseAction::Apply(cursor)
            } else {
                ChooseAction::Settings
            }
        },
        Key::Char(_) => {
            if key_is(key, "k") {
                ChooseAction::Move(cursor_up(cursor, n))
            } else if key_is(key, "j") {
                ChooseAction::Move(cursor_down(cursor, n))
            } else if key_is(key, "s") {
                ChooseAction::Settings
            } else {
                ChooseAction::Ignore
            }
        },
        Key::Other => ChooseAction::Ignore,
    }
}

/// Moving keeps the highlight on one of the `n` rows.
pub proof fn lemma_cursor_in_range(cursor: nat, n: nat)
    requires
        cursor < n,
    ensures
        up_spec(cursor, n) < n,
        down_spec(cursor, n) < n,
{
}

/// Down then up, or up then down, returns to the same row.
pub proof fn lemma_cursor_round_trip(cursor: nat, n: nat)
    requires
        cursor < n,
    ensures
        up_spec(down_spec(cursor, n), n) == cursor,
        down_spec(up_spec(cursor, n), n) == cursor,
{
    if cursor + 1 == n {
        assert((cursor + 1) % n == 0) by (nonlinear_arith)
            requires
                cursor + 1 == n,
                n >= 1,
        ;
    } else {
        assert((cursor + 1) % n == cursor + 1) by (nonlinear_arith)
            requires
                cursor + 1 < n,
        ;
    }
    if cursor == 0 {
        assert(n % n == 0) by (nonlinear_arith)
            requires
                n >= 1,
        ;
    } else {
        assert(cursor % n == cursor) by (nonlinear_arith)
            requires
                cursor < n,
        ;
    }
}

/// Enter on a session row reconnects exactly that session; the two rows
/// after the sessions start a new one and open the settings.
pub proof fn lemma_enter_targets_row(ids: Seq<u64>, cursor: nat)
    ensures
        cursor < ids.len() ==> pick_key_spec(ids, cursor, Key::Enter) == PickAction::Attach(
            ids[cursor as int],
        ),
        cursor == ids.len() ==> pick_key_spec(ids, cursor, Key::Enter) == PickAction::New,
        cursor == ids.len() + 1 ==> pick_key_spec(ids, cursor, Key::Enter)
            == PickAction::Settings,
{
}

/// In the picker the arrow keys and `j`/`k` move the highlight over the
/// rows (the sessions, `+ new session`, `settings`) with wrap-around, and it
/// never leaves them.
pub proof fn lemma_pick_moves(ids: Seq<u64>, cursor: nat, key: Key)
    requires
        cursor < ids.len() + 2,
        ids.len() + 2 <= usize::MAX,
    ensures
        key is Up || is_char(key, "k"@) ==> pick_key_spec(ids, cursor, key) == PickAction::Move(
            (if cursor == 0 {
                ids.len() + 1int
            } else {
                cursor - 1
            }) as usize,
        ),
        key is Down || is_char(key, "j"@) ==> pick_key_spec(ids, cursor, key) == PickAction::Move(
            ((cursor + 1) % (ids.len() + 2)) as usize,
        ),
        pick_key_spec(ids, cursor, key) matches PickAction::Move(c) ==> c < ids.len() + 2,
{
    reveal_strlit("k");
    reveal_strlit("j");
    lemma_cursor_in_range(cursor, ids.len() + 2);
    assert("j"@ != "k"@) by {
        assert("j"@[0] != "k"@[0]);
    }
}

/// In the chooser the arrow keys and `j`/`k` move the highlight over the
/// terminals found and `type a path in settings`, with wrap-around; Escape
/// closes on a first run and otherwise goes back to the picker it came
/// from; Enter on the last row opens the settings, on a terminal saves it.
pub proof fn lemma_choose_keys(found: nat, cursor: nat, first: bool, has_back: bool, key: Key)
    requires
        cursor <= found,
        found + 1 <= usize::MAX,
    ensures
        key is Up || is_char(key, "k"@) ==> choose_key_spec(found, cursor, first, has_back, key)
            == ChooseAction::Move(
            (if cursor == 0 {
                found as int
            } else {
                cursor - 1
            }) as usize,
        ),
        key is Down || is_char(key, "j"@) ==> choose_key_spec(found, cursor, first, has_back, key)
            == ChooseAction::Move(((cursor + 1) % (found + 1)) as usize),
        choose_key_spec(found, cursor, first, has_back, key) matches ChooseAction::Move(c) ==> c
            < found + 1,
        key is Escape && first ==> choose_key_spec(found, cursor, first, has_back, key)
            == ChooseAction::Close,
        key is Escape && !first && has_back ==> choose_key_spec(found, cursor, first, has_back, key)
            == ChooseAction::Back,
        key is Enter && cursor == found ==> choose_key_spec(found, cursor, first, has_back, key)
            == ChooseAction::Settings,
        key is Enter && cursor < found ==> choose_key_spec(found, cursor, first, has_back, key)
            == ChooseAction::Apply(cursor as usize),
{
    reveal_strlit("k");
    reveal_strlit("j");
    lemma_cursor_in_range(cursor, found + 1);
    assert("j"@ != "k"@) by {
        assert("j"@[0] != "k"@[0]);
    }
}

} // verus!
