//! In-memory PTY table of the daemon. Sessions outlive a client splice.
//!
//! The hub keeps, per session, what a reattaching client is shown: the
//! captured output (bounded), whether the program is a full-screen TUI, and
//! whether a client is attached. The processes and file descriptors behind
//! each session belong to the daemon process around it.
use vstd::prelude::*;
use std::collections::{HashMap, VecDeque};
use crate::screen::{at_least_one, at_least_two, size_after, Screen, ScreenInput, MIN_COLUMNS};
use crate::text::{push_str, to_string, u64_to_decimal, decimal};

verus! {

/// Captured output of a TUI session is capped at this many bytes.
pub const TUI_SCROLLBACK: usize = 65536;

/// The smallest scrollback limit a hub accepts.
pub const MIN_SCROLLBACK: usize = 4096;

/// What the hub knows of one session.
pub struct SlotView {
    pub id: u64,
    pub pts: Seq<char>,
    /// The session's login shell.
    pub pid: u32,
    pub attached: bool,
    pub scrollback: Seq<u8>,
    pub tui: bool,
    /// The size the session's screen was made with, and everything its
    /// emulator has been given since (output and resizes, in order).
    pub screen_start: (usize, usize),
    pub screen_inputs: Seq<ScreenInput>,
}

pub struct Slot {
    pub id: u64,
    pub pts_name: String,
    /// The session's login shell.
    pub pid: u32,
    pub attached: bool,
    pub scrollback: VecDeque<u8>,
    /// Sticky: once we see alt-screen / dense CSI (Grok logo, vim, …).
    pub tui: bool,
    /// The live grid, fed with every byte of output.
    pub screen: Screen,
}

impl Slot {
    pub open spec fn view(&self) -> SlotView {
        SlotView {
            id: self.id,
            pts: self.pts_name@,
            pid: self.pid,
            attached: self.attached,
            scrollback: self.scrollback@,
            tui: self.tui,
            screen_start: self.screen.start(),
            screen_inputs: self.screen.inputs(),
        }
    }
}

/// The size of a session's screen now.
pub open spec fn screen_size(v: SlotView) -> (usize, usize) {
    size_after(v.screen_start, v.screen_inputs)
}

/// A session as `create` registers it: attached, no output yet, and a
/// `cols` × `rows` screen (at least two columns and one line).
pub open spec fn new_view(id: u64, pts: Seq<char>, pid: u32, cols: u16, rows: u16) -> SlotView {
    SlotView {
        id,
        pts,
        pid,
        attached: true,
        scrollback: Seq::empty(),
        tui: false,
        screen_start: (at_least_two(cols), at_least_one(rows)),
        screen_inputs: Seq::empty(),
    }
}

/// A session after a client attached at `cols` × `rows`: attached, and
/// its screen resized to that.
pub open spec fn attached_view(v: SlotView, cols: u16, rows: u16) -> SlotView {
    SlotView {
        attached: true,
        screen_inputs: v.screen_inputs.push(
            ScreenInput::Resize(at_least_two(cols), at_least_one(rows)),
        ),
        ..v
    }
}

/// A session after its client went away: detached, all else kept.
pub open spec fn detached_view(v: SlotView) -> SlotView {
    SlotView { attached: false, ..v }
}

/// One row of `Hub::list`.
pub struct SlotInfo {
    pub id: u64,
    pub pts: String,
    pub pid: u32,
    pub attached: bool,
}

pub struct Hub {
    next_id: u64,
    slots: HashMap<u64, Slot>,
    shell: String,
    scrollback_limit: usize,
}

// ---------------------------------------------------------------------------
// TUI detection
// ---------------------------------------------------------------------------
/// `ESC [ ? 1 0 4 9 h`: switch to the alternate screen.
pub open spec fn alt_screen_1049() -> Seq<u8> {
    seq![27u8, 91u8, 63u8, 49u8, 48u8, 52u8, 57u8, 104u8]
}

/// `ESC [ ? 1 0 4 7 h`: switch to the alternate screen (older form).
pub open spec fn alt_screen_1047() -> Seq<u8> {
    seq![27u8, 91u8, 63u8, 49u8, 48u8, 52u8, 55u8, 104u8]
}

/// `ESC [ ? 2 5 l`: hide the cursor.
pub open spec fn hide_cursor() -> Seq<u8> {
    seq![27u8, 91u8, 63u8, 50u8, 53u8, 108u8]
}

/// `pat` occurs in `b` at position `i`.
pub open spec fn window_at(b: Seq<u8>, pat: Seq<u8>, i: int) -> bool {
    0 <= i && i + pat.len() <= b.len() && b.subrange(i, i + pat.len()) == pat
}

pub open spec fn has_window(b: Seq<u8>, pat: Seq<u8>) -> bool {
    exists|i: int| #[trigger] window_at(b, pat, i)
}

/// Number of ESC bytes in `b`.
pub open spec fn esc_count(b: Seq<u8>) -> nat
    decreases b.len(),
{
    if b.len() == 0 {
        0
    } else {
        esc_count(b.drop_last()) + if b.last() == 27u8 {
            1nat
        } else {
            0nat
        }
    }
}

/// `n * 8`, saturating at `usize::MAX`.
pub open spec fn sat_mul8(n: nat) -> nat {
    if n * 8 <= usize::MAX {
        n * 8
    } else {
        usize::MAX as nat
    }
}

/// Output that switches to the alternate screen, hides the cursor, or is
/// dense with escape sequences (more than one ESC per eight bytes).
pub open spec fn looks_like_tui_spec(b: Seq<u8>) -> bool {
    ||| has_window(b, alt_screen_1049())
    ||| has_window(b, alt_screen_1047())
    ||| has_window(b, hide_cursor())
    ||| (b.len() > 0 && sat_mul8(esc_count(b)) > b.len())
}

fn contains_window(b: &[u8], pat: &[u8]) -> (r: bool)
    ensures
        r == has_window(b@, pat@),
{
    let n = b.len();
    let m = pat.len();
    if m > n {
        proof {
            assert forall|i: int| !#[trigger] window_at(b@, pat@, i) by {}
        }
        return false;
    }
    let mut i: usize = 0;
    while i <= n - m
        invariant
            m <= n,
            i <= n - m + 1,
            n == b@.len(),
            m == pat@.len(),
            forall|k: int| 0 <= k < i ==> !#[trigger] window_at(b@, pat@, k),
        decreases n - i,
    {
        let mut j: usize = 0;
        let mut same = true;
        while j < m
            invariant
                j <= m,
                i + m <= n,
                n == b@.len(),
                m == pat@.len(),
                same == (forall|k: int| 0 <= k < j ==> b@[i + k] == pat@[k]),
            decreases m - j,
        {
            if b[i + j] != pat[j] {
                same = false;
            }
            j = j + 1;
        }
        if same {
            proof {
                assert(b@.subrange(i as int, i + m) =~= pat@);
                assert(window_at(b@, pat@, i as int));
            }
            return true;
        }
        proof {
            assert(!window_at(b@, pat@, i as int)) by {
                if b@.subrange(i as int, i + m) == pat@ {
                    assert forall|k: int| 0 <= k < m implies b@[i + k] == pat@[k] by {
                        assert(b@.subrange(i as int, i + m)[k] == b@[i + k]);
                    }
                }
            }
        }
        i = i + 1;
    }
    proof {
        assert forall|k: int| !#[trigger] window_at(b@, pat@, k) by {
            if 0 <= k && k + m <= n {
                assert(k < i);
            }
        }
    }
    false
}

fn count_esc(b: &[u8]) -> (c: usize)
    ensures
        c == esc_count(b@),
{
    let n = b.len();
    let mut c: usize = 0;
    let mut i: usize = 0;
    while i < n
        invariant
            i <= n,
            n == b@.len(),
            c == esc_count(b@.subrange(0, i as int)),
            c <= i,
        decreases n - i,
    {
        proof {
            assert(b@.subrange(0, i + 1).drop_last() =~= b@.subrange(0, i as int));
        }
        if b[i] == 27u8 {
            c = c + 1;
        }
        i = i + 1;
    }
    assert(b@.subrange(0, n as int) =~= b@);
    c
}

/// Whether output shows a full-screen program (alternate screen, hidden
/// cursor, or escape-dense drawing such as a logo).
pub fn looks_like_tui(bytes: &[u8]) -> (r: bool)
    ensures
        r == looks_like_tui_spec(bytes@),
{
    let alt1: Vec<u8> = vec![27u8, 91u8, 63u8, 49u8, 48u8, 52u8, 57u8, 104u8];
    let alt2: Vec<u8> = vec![27u8, 91u8, 63u8, 49u8, 48u8, 52u8, 55u8, 104u8];
    let hide: Vec<u8> = vec![27u8, 91u8, 63u8, 50u8, 53u8, 108u8];
    assert(alt1@ =~= alt_screen_1049());
    assert(alt2@ =~= alt_screen_1047());
    assert(hide@ =~= hide_cursor());
    if contains_window(bytes, alt1.as_slice()) || contains_window(bytes, alt2.as_slice()) {
        return true;
    }
    if contains_window(bytes, hide.as_slice()) {
        return true;
    }
    if bytes.len() == 0 {
        return false;
    }
    let esc = count_esc(bytes);
    match esc.checked_mul(8) {
        Some(p) => p > bytes.len(),
        None => usize::MAX > bytes.len(),
    }
}

// ---------------------------------------------------------------------------
// Scrollback
// ---------------------------------------------------------------------------
/// Everything up to and including the first newline dropped; all of it when
/// there is no newline.
pub open spec fn drop_line(t: Seq<u8>) -> Seq<u8>
    decreases t.len(),
{
    if t.len() == 0 {
        t
    } else if t[0] == 10u8 {
        t.drop_first()
    } else {
        drop_line(t.drop_first())
    }
}

/// The scrollback cap: 64 KiB for a TUI, the hub's limit otherwise.
pub open spec fn limit_for(tui: bool, normal: nat) -> nat {
    if tui {
        TUI_SCROLLBACK as nat
    } else {
        normal
    }
}

/// What is kept of `s` under `limit`: the newest `limit` bytes; for a shell
/// session, further cut to start at a line.
pub open spec fn retain(s: Seq<u8>, limit: nat, tui: bool) -> Seq<u8> {
    if s.len() > limit {
        let t = s.skip(s.len() - limit);
        if tui {
            t
        } else {
            drop_line(t)
        }
    } else {
        s
    }
}

/// A session after `bytes` of output: its screen was fed them, its TUI
/// flag and scrollback updated.
pub open spec fn pushed(v: SlotView, bytes: Seq<u8>, normal: nat) -> SlotView {
    let tui = v.tui || looks_like_tui_spec(bytes);
    SlotView {
        tui,
        scrollback: retain(v.scrollback + bytes, limit_for(tui, normal), tui),
        screen_inputs: v.screen_inputs.push(ScreenInput::Output(bytes)),
        ..v
    }
}

proof fn lemma_drop_line_suffix(t: Seq<u8>)
    ensures
        drop_line(t).len() <= t.len(),
        drop_line(t) =~= t.skip(t.len() - drop_line(t).len()),
    decreases t.len(),
{
    if t.len() > 0 && t[0] != 10u8 {
        lemma_drop_line_suffix(t.drop_first());
    }
}

fn drop_through_newline(q: &mut VecDeque<u8>)
    ensures
        final(q)@ == drop_line(old(q)@),
{
    loop
        invariant_except_break
            drop_line(old(q)@) == drop_line(q@),
        ensures
            q@ == drop_line(old(q)@),
        decreases q@.len(),
    {
        let ghost before = q@;
        match q.pop_front() {
            Some(b) => {
                proof {
                    assert(before.drop_first() =~= q@);
                }
                if b == 10u8 {
                    break;
                }
            },
            None => {
                break;
            },
        }
    }
}

/// Appends output to a scrollback buffer and trims it to `limit`.
fn push_and_trim(q: &mut VecDeque<u8>, bytes: &[u8], limit: usize, tui: bool)
    ensures
        final(q)@ == retain(old(q)@ + bytes@, limit as nat, tui),
{
    let n = bytes.len();
    let mut i: usize = 0;
    while i < n
        invariant
            i <= n,
            n == bytes@.len(),
            q@ == old(q)@ + bytes@.subrange(0, i as int),
        decreases n - i,
    {
        q.push_back(bytes[i]);
        proof {
            assert(old(q)@ + bytes@.subrange(0, i + 1) =~= (old(q)@ + bytes@.subrange(
                0,
                i as int,
            )).push(bytes@[i as int]));
        }
        i = i + 1;
    }
    assert(bytes@.subrange(0, n as int) =~= bytes@);
    let ghost s = q@;
    let total = q.len();
    let trimmed = total > limit;
    while q.len() > limit
        invariant
            s == old(q)@ + bytes@,
            total == s.len(),
            q@ =~= s.subrange(total - q@.len(), total as int),
            q@.len() <= total,
            total > limit ==> q@.len() >= limit,
            total <= limit ==> q@.len() == total,
        decreases q@.len(),
    {
        let ghost before = q@;
        let _ = q.pop_front();
        proof {
            assert(q@ =~= s.subrange(total - q@.len(), total as int));
        }
    }
    if trimmed {
        assert(q@ =~= s.skip(total - limit));
        if !tui {
            drop_through_newline(q);
        }
    } else {
        assert(q@ =~= s);
    }
}

// ---------------------------------------------------------------------------
// Sessions keyed by id
// ---------------------------------------------------------------------------
broadcast use vstd::std_specs::hash::group_hash_axioms;

/// A slot that may stand under `id` in a hub with this scrollback limit:
/// it carries its id, its scrollback is within its cap, and its screen has
/// room for a double-width character.
pub open spec fn slot_ok(s: Slot, id: u64, limit: nat) -> bool {
    &&& s.id == id
    &&& s.scrollback@.len() <= limit_for(s.tui, limit)
    &&& s.screen.size().0 >= MIN_COLUMNS
}

impl Hub {
    /// The sessions, by id.
    pub closed spec fn sessions(&self) -> Map<u64, SlotView> {
        self.slots@.map_values(|s: Slot| s.view())
    }

    /// The id the next session gets.
    pub closed spec fn spec_next_id(&self) -> u64 {
        self.next_id
    }

    /// Every id `create` has handed out on this hub: one up to the next id.
    pub open spec fn issued(&self) -> Set<u64> {
        Set::new(|j: u64| 1 <= j < self.spec_next_id())
    }

    /// The scrollback limit of a shell session.
    pub closed spec fn spec_limit(&self) -> nat {
        self.scrollback_limit as nat
    }

    pub closed spec fn spec_shell(&self) -> Seq<char> {
        self.shell@
    }

    /// Ids run from one to below `next_id`, each slot stands under its own
    /// id with its scrollback within its cap and a screen of two columns or
    /// more, and the limit is at least 4 KiB.
    pub closed spec fn wf(&self) -> bool {
        &&& self.next_id >= 1
        &&& self.scrollback_limit >= MIN_SCROLLBACK
        &&& forall|k: u64| #[trigger]
            self.slots@.contains_key(k) ==> 1 <= k < self.next_id && slot_ok(
                self.slots@[k],
                k,
                self.scrollback_limit as nat,
            )
    }

    /// Facts every well-formed hub has.
    pub proof fn lemma_wf(&self)
        requires
            self.wf(),
        ensures
            self.sessions().dom().finite(),
            forall|id: u64| #[trigger] self.sessions().dom().contains(id) ==> 1 <= id < self.spec_next_id(),
            forall|id: u64| #[trigger] self.sessions().dom().contains(id) ==> self.sessions()[id].id == id,
            forall|id: u64|
                #[trigger] self.sessions().dom().contains(id) ==> self.sessions()[id].scrollback.len()
                    <= limit_for(self.sessions()[id].tui, self.spec_limit()),
            forall|id: u64|
                #[trigger] self.sessions().dom().contains(id) ==> screen_size(self.sessions()[id]).0
                    >= MIN_COLUMNS,
            self.spec_limit() >= MIN_SCROLLBACK,
            self.spec_next_id() >= 1,
    {
        assert(self.sessions().dom() =~= self.slots@.dom());
        assert forall|id: u64| #[trigger] self.sessions().dom().contains(id) implies 1 <= id
            < self.spec_next_id() && self.sessions()[id].id == id && self.sessions()[id].scrollback.len()
            <= limit_for(self.sessions()[id].tui, self.spec_limit()) && screen_size(
            self.sessions()[id],
        ).0 >= MIN_COLUMNS by {
            assert(self.slots@.contains_key(id));
            assert(self.sessions()[id] == self.slots@[id].view());
        }
    }

    /// Ids are never reused: every session in the table holds an id that
    /// `create` handed out, and `create` hands out an id above all of those
    /// (its `ensures`); no other operation changes the next id.
    pub proof fn lemma_sessions_were_issued(&self)
        requires
            self.wf(),
        ensures
            self.sessions().dom().subset_of(self.issued()),
    {
        self.lemma_wf();
    }

    /// An empty table. The scrollback limit is raised to at least 4 KiB.
    pub fn new(shell: String, scrollback_limit: usize) -> (h: Hub)
        ensures
            h.wf(),
            h.sessions() == Map::<u64, SlotView>::empty(),
            h.spec_next_id() == 1,
            h.issued() == Set::<u64>::empty(),
            h.spec_limit() == if scrollback_limit >= MIN_SCROLLBACK {
                scrollback_limit as nat
            } else {
                MIN_SCROLLBACK as nat
            },
            h.spec_shell() == shell@,
    {
        let limit = if scrollback_limit >= MIN_SCROLLBACK {
            scrollback_limit
        } else {
            MIN_SCROLLBACK
        };
        let h = Hub { next_id: 1, slots: HashMap::new(), shell, scrollback_limit: limit };
        assert(h.issued() =~= Set::<u64>::empty());
        assert(h.sessions() =~= Map::<u64, SlotView>::empty());
        h
    }

    /// The login shell new sessions run.
    pub fn shell(&self) -> (r: &str)
        ensures
            r@ == self.spec_shell(),
    {
        self.shell.as_str()
    }

    /// Whether another session can be numbered.
    pub fn can_create(&self) -> (b: bool)
        ensures
            b == (self.spec_next_id() < u64::MAX),
    {
        self.next_id < u64::MAX
    }

    /// Takes the slot of `id` out of the table.
    fn take(&mut self, id: u64) -> (r: Option<Slot>)
        requires
            old(self).wf(),
        ensures
            match r {
                Some(s) => old(self).slots@.contains_key(id) && s == old(self).slots@[id],
                None => !old(self).slots@.contains_key(id),
            },
            final(self).slots@ == old(self).slots@.remove(id),
            final(self).next_id == old(self).next_id,
            final(self).scrollback_limit == old(self).scrollback_limit,
            final(self).shell == old(self).shell,
    {
        self.slots.remove(&id)
    }

    /// Puts a slot back under its id, keeping the table well formed.
    fn put(&mut self, id: u64, s: Slot)
        requires
            old(self).next_id >= 1,
            old(self).scrollback_limit >= MIN_SCROLLBACK,
            forall|k: u64| #[trigger]
                old(self).slots@.contains_key(k) ==> 1 <= k < old(self).next_id && slot_ok(
                    old(self).slots@[k],
                    k,
                    old(self).scrollback_limit as nat,
                ),
            1 <= id < old(self).next_id,
            slot_ok(s, id, old(self).scrollback_limit as nat),
        ensures
            final(self).wf(),
            final(self).sessions() == old(self).sessions().insert(id, s.view()),
            final(self).next_id == old(self).next_id,
            final(self).scrollback_limit == old(self).scrollback_limit,
            final(self).shell == old(self).shell,
    {
        let ghost before = self.slots@;
        let _ = self.slots.insert(id, s);
        assert(self.sessions() =~= before.map_values(|s: Slot| s.view()).insert(id, s.view()));
    }

    /// Registers a freshly spawned `cols` × `rows` session, attached, with
    /// empty scrollback, whose login shell is `pid`. Returns its id.
    pub fn create(&mut self, pts_name: String, pid: u32, cols: u16, rows: u16) -> (id: u64)
        requires
            old(self).wf(),
            old(self).spec_next_id() < u64::MAX,
        ensures
            final(self).wf(),
            id == old(self).spec_next_id(),
            !old(self).sessions().dom().contains(id),
            forall|j: u64| old(self).issued().contains(j) ==> j < id,
            final(self).issued() == old(self).issued().insert(id),
            final(self).spec_next_id() == id + 1,
            final(self).sessions() == old(self).sessions().insert(
                id,
                new_view(id, pts_name@, pid, cols, rows),
            ),
            final(self).spec_limit() == old(self).spec_limit(),
            final(self).spec_shell() == old(self).spec_shell(),
    {
        proof {
            self.lemma_wf();
        }
        let id = self.next_id;
        let slot = Slot {
            id,
            pts_name,
            pid,
            attached: true,
            scrollback: VecDeque::new(),
            tui: false,
            screen: Screen::new(cols, rows),
        };
        self.next_id = id + 1;
        self.put(id, slot);
        assert(self.issued() =~= old(self).issued().insert(id));
        id
    }

    /// Marks a session attached, also when a previous client died without
    /// detaching, and resizes its screen to the new client's `cols` ×
    /// `rows`. Fails when there is no such session.
    pub fn attach(&mut self, id: u64, cols: u16, rows: u16) -> (r: Result<(), String>)
        requires
            old(self).wf(),
        ensures
            final(self).wf(),
            r is Ok <==> old(self).sessions().dom().contains(id),
            r is Ok ==> final(self).sessions() == old(self).sessions().insert(
                id,
                attached_view(old(self).sessions()[id], cols, rows),
            ),
            match r {
                Ok(_) => true,
                Err(msg) => msg@ == "no session "@ + decimal(id as nat) && final(self).sessions()
                    == old(self).sessions(),
            },
            final(self).spec_next_id() == old(self).spec_next_id(),
            final(self).spec_limit() == old(self).spec_limit(),
            final(self).spec_shell() == old(self).spec_shell(),
    {
        proof {
            self.lemma_wf();
        }
        match self.take(id) {
            Some(mut slot) => {
                assert(slot.view() == old(self).sessions()[id]);
                slot.attached = true;
                slot.screen.resize(cols, rows);
                self.put(id, slot);
                assert(self.sessions() =~= old(self).sessions().insert(
                    id,
                    attached_view(old(self).sessions()[id], cols, rows),
                ));
                Ok(())
            },
            None => {
                assert(self.slots@ =~= old(self).slots@);
                let mut msg = to_string("no session ");
                let digits = u64_to_decimal(id);
                push_str(&mut msg, digits.as_str());
                Err(msg)
            },
        }
    }

    /// Marks a session detached: its client went away; the session stays.
    pub fn detach(&mut self, id: u64)
        requires
            old(self).wf(),
        ensures
            final(self).wf(),
            old(self).sessions().dom().contains(id) ==> final(self).sessions() == old(
                self,
            ).sessions().insert(id, detached_view(old(self).sessions()[id])),
            !old(self).sessions().dom().contains(id) ==> final(self).sessions() == old(
                self,
            ).sessions(),
            final(self).spec_next_id() == old(self).spec_next_id(),
            final(self).spec_limit() == old(self).spec_limit(),
            final(self).spec_shell() == old(self).spec_shell(),
    {
        match self.take(id) {
            Some(mut slot) => {
                assert(slot.view() == old(self).sessions()[id]);
                slot.attached = false;
                self.put(id, slot);
                assert(self.sessions() =~= old(self).sessions().insert(
                    id,
                    detached_view(old(self).sessions()[id]),
                ));
            },
            None => {
                assert(self.slots@ =~= old(self).slots@);
            },
        }
    }

    /// Forgets a session. Returns whether there was one.
    pub fn drop_session(&mut self, id: u64) -> (found: bool)
        requires
            old(self).wf(),
        ensures
            final(self).wf(),
            found == old(self).sessions().dom().contains(id),
            final(self).sessions() == old(self).sessions().remove(id),
            final(self).spec_next_id() == old(self).spec_next_id(),
            final(self).spec_limit() == old(self).spec_limit(),
            final(self).spec_shell() == old(self).spec_shell(),
    {
        let r = self.take(id);
        assert(self.sessions() =~= old(self).sessions().remove(id));
        r.is_some()
    }

    /// Forgets the sessions whose shells exited (`dead`).
    pub fn reap(&mut self, dead: &[u64])
        requires
            old(self).wf(),
        ensures
            final(self).wf(),
            final(self).sessions() == old(self).sessions().remove_keys(dead@.to_set()),
            final(self).spec_next_id() == old(self).spec_next_id(),
            final(self).spec_limit() == old(self).spec_limit(),
            final(self).spec_shell() == old(self).spec_shell(),
    {
        let n = dead.len();
        let mut k: usize = 0;
        assert(old(self).sessions().remove_keys(dead@.subrange(0, 0).to_set()) =~= old(
            self,
        ).sessions());
        while k < n
            invariant
                k <= n,
                n == dead@.len(),
                self.wf(),
                self.sessions() == old(self).sessions().remove_keys(
                    dead@.subrange(0, k as int).to_set(),
                ),
                self.spec_next_id() == old(self).spec_next_id(),
                self.spec_limit() == old(self).spec_limit(),
                self.spec_shell() == old(self).spec_shell(),
            decreases n - k,
        {
            self.drop_session(dead[k]);
            proof {
                lemma_prefix_set_step(dead@, k as int);
                assert(old(self).sessions().remove_keys(dead@.subrange(0, k + 1).to_set())
                    =~= old(self).sessions().remove_keys(dead@.subrange(0, k as int).to_set()).remove(
                    dead@[k as int],
                ));
            }
            k = k + 1;
        }
        assert(dead@.subrange(0, n as int) =~= dead@);
    }

    /// Records output of a session: feeds its screen and updates its TUI
    /// flag and scrollback. Output of an unknown session is ignored.
    pub fn push_output(&mut self, id: u64, bytes: &[u8])
        requires
            old(self).wf(),
        ensures
            final(self).wf(),
            old(self).sessions().dom().contains(id) ==> final(self).sessions() == old(
                self,
            ).sessions().insert(id, pushed(old(self).sessions()[id], bytes@, old(self).spec_limit())),
            !old(self).sessions().dom().contains(id) ==> final(self).sessions() == old(
                self,
            ).sessions(),
            final(self).spec_next_id() == old(self).spec_next_id(),
            final(self).spec_limit() == old(self).spec_limit(),
            final(self).spec_shell() == old(self).spec_shell(),
    {
        let mut slot = match self.take(id) {
            Some(s) => s,
            None => {
                assert(self.slots@ =~= old(self).slots@);
                return ;
            },
        };
        let ghost before = slot.view();
        assert(before == old(self).sessions()[id]);
        if !slot.tui && looks_like_tui(bytes) {
            slot.tui = true;
        }
        slot.screen.feed(bytes);
        let limit = if slot.tui {
            TUI_SCROLLBACK
        } else {
            self.scrollback_limit
        };
        push_and_trim(&mut slot.scrollback, bytes, limit, slot.tui);
        proof {
            let after = pushed(before, bytes@, self.scrollback_limit as nat);
            assert(slot.view() == after);
            lemma_retain_bounded(before.scrollback + bytes@, limit as nat, slot.tui);
        }
        self.put(id, slot);
        assert(self.sessions() =~= old(self).sessions().insert(
            id,
            pushed(old(self).sessions()[id], bytes@, old(self).spec_limit()),
        ));
    }

    /// Whether the session shows a full-screen program.
    pub fn is_tui(&self, id: u64) -> (b: bool)
        requires
            self.wf(),
        ensures
            b == (self.sessions().dom().contains(id) && self.sessions()[id].tui),
    {
        match self.slots.get(&id) {
            Some(s) => {
                assert(self.sessions()[id] == s.view());
                s.tui
            },
            None => false,
        }
    }

    /// What a reattaching client is sent first: the captured output of a shell
    /// session; nothing for a TUI (a size-change redraw paints its frame) or
    /// an unknown session.
    pub fn replay_on_attach(&self, id: u64) -> (r: Vec<u8>)
        requires
            self.wf(),
        ensures
            r@ == if self.sessions().dom().contains(id) && !self.sessions()[id].tui {
                self.sessions()[id].scrollback
            } else {
                Seq::empty()
            },
    {
        match self.slots.get(&id) {
            Some(slot) => {
                assert(self.sessions()[id] == slot.view());
                if slot.tui {
                    Vec::new()
                } else {
                    let n = slot.scrollback.len();
                    let mut out: Vec<u8> = Vec::new();
                    let mut k: usize = 0;
                    while k < n
                        invariant
                            k <= n,
                            n == slot.scrollback@.len(),
                            out@ == slot.scrollback@.subrange(0, k as int),
                        decreases n - k,
                    {
                        out.push(slot.scrollback[k]);
                        proof {
                            assert(slot.scrollback@.subrange(0, k + 1) =~= slot.scrollback@.subrange(
                                0,
                                k as int,
                            ).push(slot.scrollback@[k as int]));
                        }
                        k = k + 1;
                    }
                    assert(slot.scrollback@.subrange(0, n as int) =~= slot.scrollback@);
                    out
                }
            },
            None => Vec::new(),
        }
    }

    /// The pts path of a session.
    pub fn pts_name(&self, id: u64) -> (r: Option<&str>)
        requires
            self.wf(),
        ensures
            match r {
                Some(p) => self.sessions().dom().contains(id) && p@ == self.sessions()[id].pts,
                None => !self.sessions().dom().contains(id),
            },
    {
        match self.slots.get(&id) {
            Some(s) => {
                assert(self.sessions()[id] == s.view());
                Some(s.pts_name.as_str())
            },
            None => None,
        }
    }

    /// Every session, in increasing id order (the ids handed out are
    /// walked in order).
    pub fn list(&self) -> (r: Vec<SlotInfo>)
        requires
            self.wf(),
        ensures
            r@.len() == self.sessions().dom().len(),
            forall|i: int, j: int| 0 <= i < j < r@.len() ==> r@[i].id < r@[j].id,
            forall|i: int|
                0 <= i < r@.len() ==> #[trigger] self.sessions().dom().contains(r@[i].id)
                    && self.sessions()[r@[i].id].attached == r@[i].attached
                    && self.sessions()[r@[i].id].pts == r@[i].pts@
                    && self.sessions()[r@[i].id].pid == r@[i].pid,
            forall|id: u64| #[trigger]
                self.sessions().dom().contains(id) ==> exists|i: int|
                    0 <= i < r@.len() && r@[i].id == id,
    {
        proof {
            self.lemma_wf();
        }
        let mut out: Vec<SlotInfo> = Vec::new();
        let mut k: u64 = 1;
        while k < self.next_id
            invariant
                1 <= k <= self.next_id,
                self.wf(),
                forall|i: int, j: int| 0 <= i < j < out@.len() ==> out@[i].id < out@[j].id,
                forall|i: int|
                    0 <= i < out@.len() ==> (#[trigger] out@[i]).id < k
                        && self.sessions().dom().contains(out@[i].id)
                        && self.sessions()[out@[i].id].attached == out@[i].attached
                        && self.sessions()[out@[i].id].pts == out@[i].pts@
                        && self.sessions()[out@[i].id].pid == out@[i].pid,
                forall|id: u64|
                    #[trigger] self.sessions().dom().contains(id) && id < k ==> exists|i: int|
                        0 <= i < out@.len() && out@[i].id == id,
            decreases self.next_id - k,
        {
            match self.slots.get(&k) {
                Some(s) => {
                    assert(self.sessions()[k] == s.view());
                    let ghost before = out@;
                    out.push(SlotInfo { id: k, pts: s.pts_name.clone(), pid: s.pid, attached: s.attached });
                    proof {
                        assert forall|id: u64|
                            #[trigger] self.sessions().dom().contains(id) && id < k + 1 implies exists|i: int|
                                0 <= i < out@.len() && out@[i].id == id by {
                            if id == k {
                                assert(out@[before.len() as int].id == id);
                            } else {
                                let i = choose|i: int| 0 <= i < before.len() && before[i].id == id;
                                assert(out@[i].id == id);
                            }
                        }
                    }
                },
                None => {},
            }
            k = k + 1;
        }
        proof {
            let ids = out@.map_values(|s: SlotInfo| s.id);
            assert(ids.no_duplicates()) by {
                assert forall|i: int, j: int| 0 <= i < ids.len() && 0 <= j < ids.len() && i != j implies ids[i]
                    != ids[j] by {
                    if i < j {
                        assert(out@[i].id < out@[j].id);
                    } else {
                        assert(out@[j].id < out@[i].id);
                    }
                }
            }
            ids.unique_seq_to_set();
            assert(ids.to_set() =~= self.sessions().dom()) by {
                assert forall|id: u64| #[trigger] ids.to_set().contains(id) implies self.sessions().dom().contains(id) by {
                    let i = choose|i: int| 0 <= i < ids.len() && ids[i] == id;
                    assert(out@[i].id == id);
                }
                assert forall|id: u64| #[trigger] self.sessions().dom().contains(id) implies ids.to_set().contains(id) by {
                    let i = choose|i: int| 0 <= i < out@.len() && out@[i].id == id;
                    assert(ids[i] == id);
                }
            }
        }
        out
    }
}

proof fn lemma_prefix_set_step(d: Seq<u64>, k: int)
    requires
        0 <= k < d.len(),
    ensures
        d.subrange(0, k + 1).to_set() == d.subrange(0, k).to_set().insert(d[k]),
{
    let a = d.subrange(0, k + 1);
    let b = d.subrange(0, k);
    assert(a =~= b.push(d[k]));
    b.lemma_push_to_set_commute(d[k]);
}

proof fn lemma_retain_bounded(s: Seq<u8>, limit: nat, tui: bool)
    ensures
        retain(s, limit, tui).len() <= limit || retain(s, limit, tui) == s && s.len() <= limit,
        retain(s, limit, tui).len() <= s.len(),
{
    if s.len() > limit {
        lemma_drop_line_suffix(s.skip(s.len() - limit));
    }
}

proof fn lemma_drop_line_starts_line(t: Seq<u8>)
    ensures
        drop_line(t).len() == 0 || (drop_line(t).len() < t.len() && t[t.len() - drop_line(
            t,
        ).len() - 1] == 10u8),
    decreases t.len(),
{
    if t.len() > 0 && t[0] != 10u8 {
        lemma_drop_line_starts_line(t.drop_first());
        let r = drop_line(t.drop_first());
        if r.len() > 0 {
            assert(t.drop_first()[t.drop_first().len() - r.len() - 1] == t[t.len() - r.len() - 1]);
        }
    }
}

/// Captured output never exceeds its cap: 64 KiB for a TUI, the hub's limit
/// for a shell.
pub proof fn lemma_scrollback_capped(v: SlotView, bytes: Seq<u8>, normal: nat)
    requires
        v.scrollback.len() <= limit_for(v.tui, normal),
    ensures
        pushed(v, bytes, normal).scrollback.len() <= limit_for(pushed(v, bytes, normal).tui, normal),
{
    let tui = pushed(v, bytes, normal).tui;
    lemma_retain_bounded(v.scrollback + bytes, limit_for(tui, normal), tui);
}

/// What a session keeps is always the newest part of everything it printed:
/// a suffix of the old scrollback followed by the new output.
pub proof fn lemma_scrollback_is_suffix(v: SlotView, bytes: Seq<u8>, normal: nat)
    ensures
        ({
            let s = v.scrollback + bytes;
            let r = pushed(v, bytes, normal).scrollback;
            r.len() <= s.len() && r == s.skip(s.len() - r.len())
        }),
{
    let s = v.scrollback + bytes;
    let tui = pushed(v, bytes, normal).tui;
    let limit = limit_for(tui, normal);
    if s.len() > limit {
        let t = s.skip(s.len() - limit);
        if !tui {
            lemma_drop_line_suffix(t);
            let r = drop_line(t);
            assert(r =~= s.skip(s.len() - r.len()));
        }
    } else {
        assert(s =~= s.skip(0));
    }
}

/// Output within the cap is replayed in full: a reattaching shell client
/// sees everything the session printed.
pub proof fn lemma_scrollback_keeps_all(v: SlotView, bytes: Seq<u8>, normal: nat)
    requires
        (v.scrollback + bytes).len() <= limit_for(pushed(v, bytes, normal).tui, normal),
    ensures
        pushed(v, bytes, normal).scrollback == v.scrollback + bytes,
{
}

/// When a shell session's scrollback is cut, it is cut at a line boundary:
/// what remains is empty or starts right after a newline.
pub proof fn lemma_shell_scrollback_starts_at_line(v: SlotView, bytes: Seq<u8>, normal: nat)
    requires
        !pushed(v, bytes, normal).tui,
        (v.scrollback + bytes).len() > normal,
    ensures
        ({
            let s = v.scrollback + bytes;
            let r = pushed(v, bytes, normal).scrollback;
            r.len() == 0 || (r.len() < s.len() && s[s.len() - r.len() - 1] == 10u8)
        }),
{
    let s = v.scrollback + bytes;
    let t = s.skip(s.len() - normal);
    lemma_drop_line_starts_line(t);
    lemma_drop_line_suffix(t);
    let r = drop_line(t);
    if r.len() > 0 {
        assert(t[t.len() - r.len() - 1] == s[s.len() - r.len() - 1]);
    }
}

/// Once a session is seen as a TUI it stays one.
pub proof fn lemma_tui_sticky(v: SlotView, bytes: Seq<u8>, normal: nat)
    ensures
        v.tui ==> pushed(v, bytes, normal).tui,
        looks_like_tui_spec(bytes) ==> pushed(v, bytes, normal).tui,
        pushed(v, bytes, normal).id == v.id,
        pushed(v, bytes, normal).pts == v.pts,
        pushed(v, bytes, normal).attached == v.attached,
{
}

/// Detaching and reattaching a session gives back the same session, with
/// its captured output, now attached, its screen resized to the new
/// client's size.
pub proof fn lemma_detach_then_attach(m: Map<u64, SlotView>, id: u64, cols: u16, rows: u16)
    requires
        m.dom().contains(id),
    ensures
        ({
            let d = m.insert(id, detached_view(m[id]));
            let a = d.insert(id, attached_view(d[id], cols, rows));
            &&& a[id].attached
            &&& a[id].scrollback == m[id].scrollback
            &&& a[id].tui == m[id].tui
            &&& a[id].pts == m[id].pts
            &&& a[id].pid == m[id].pid
            &&& screen_size(a[id]) == (at_least_two(cols), at_least_one(rows))
            &&& a.dom() == m.dom()
        }),
{
    let d = m.insert(id, detached_view(m[id]));
    let a = d.insert(id, attached_view(d[id], cols, rows));
    assert(a.dom() =~= m.dom());
}

/// A shell session keeps what it printed across a disconnect: output
/// recorded while attached, then a detach and a reattach, leaves the
/// session attached with that output (within the cap) as what a
/// reattaching client is replayed.
pub proof fn lemma_reattach_replays_output(
    m: Map<u64, SlotView>,
    id: u64,
    bytes: Seq<u8>,
    normal: nat,
    cols: u16,
    rows: u16,
)
    requires
        m.dom().contains(id),
        !m[id].tui,
        !looks_like_tui_spec(bytes),
        (m[id].scrollback + bytes).len() <= normal,
    ensures
        ({
            let p = m.insert(id, pushed(m[id], bytes, normal));
            let d = p.insert(id, detached_view(p[id]));
            let a = d.insert(id, attached_view(d[id], cols, rows));
            &&& a.dom() == m.dom()
            &&& a[id].attached
            &&& !a[id].tui
            &&& a[id].scrollback == m[id].scrollback + bytes
        }),
{
    let p = m.insert(id, pushed(m[id], bytes, normal));
    lemma_scrollback_keeps_all(m[id], bytes, normal);
    lemma_detach_then_attach(p, id, cols, rows);
    assert(p.dom() =~= m.dom());
}

/// A session outlives its client, as the table sees it: on a fresh hub,
/// `create` makes session 1, which prints `bytes` (`push_output`); the
/// client goes away, which ends the splice as "client gone" and so detaches
/// it rather than dropping it (`splice_outcome`); the list then holds just
/// that session, detached; attaching it again succeeds and replays what it
/// printed.
pub proof fn lemma_persist_across_disconnect(
    pts: Seq<char>,
    pid: u32,
    bytes: Seq<u8>,
    normal: nat,
    cols: u16,
    rows: u16,
)
    requires
        !looks_like_tui_spec(bytes),
        bytes.len() <= normal,
    ensures
        ({
            let id: u64 = 1;
            let m1 = Map::<u64, SlotView>::empty().insert(id, new_view(id, pts, pid, cols, rows));
            let m2 = m1.insert(id, pushed(m1[id], bytes, normal));
            let m3 = m2.insert(id, detached_view(m2[id]));
            let m4 = m3.insert(id, attached_view(m3[id], cols, rows));
            &&& m3.dom() == set![id]
            &&& m3.dom().len() == 1
            &&& !m3[id].attached
            &&& m4[id].attached
            &&& !m4[id].tui
            &&& m4[id].scrollback == bytes
        }),
{
    let id: u64 = 1;
    let m1 = Map::<u64, SlotView>::empty().insert(id, new_view(id, pts, pid, cols, rows));
    assert(m1[id].scrollback + bytes =~= bytes);
    lemma_reattach_replays_output(m1, id, bytes, normal, cols, rows);
    let m2 = m1.insert(id, pushed(m1[id], bytes, normal));
    let m3 = m2.insert(id, detached_view(m2[id]));
    assert(m3.dom() =~= set![id]);
    assert(set![id].len() == 1) by {
        assert(set![id] =~= Set::<u64>::empty().insert(id));
    }
}

/// Output that contains `ESC [ ? 2 5 l` (hide the cursor), `ESC [ ? 1 0 4 9 h`
/// or `ESC [ ? 1 0 4 7 h` (switch to the alternate screen) marks a
/// full-screen program, however few escapes it holds otherwise; a session
/// that prints it is a TUI from then on, and a reattaching client is
/// replayed nothing.
pub proof fn lemma_tui_markers(b: Seq<u8>, i: int, v: SlotView, normal: nat)
    requires
        0 <= i,
        i + 6 <= b.len() && b.subrange(i, i + 6) == seq![27u8, 91u8, 63u8, 50u8, 53u8, 108u8]
            || i + 8 <= b.len() && b.subrange(i, i + 8) == seq![
            27u8,
            91u8,
            63u8,
            49u8,
            48u8,
            52u8,
            57u8,
            104u8,
        ] || i + 8 <= b.len() && b.subrange(i, i + 8) == seq![
            27u8,
            91u8,
            63u8,
            49u8,
            48u8,
            52u8,
            55u8,
            104u8,
        ],
    ensures
        looks_like_tui_spec(b),
        pushed(v, b, normal).tui,
{
    if i + 6 <= b.len() && b.subrange(i, i + 6) == seq![27u8, 91u8, 63u8, 50u8, 53u8, 108u8] {
        assert(window_at(b, hide_cursor(), i));
    } else if i + 8 <= b.len() && b.subrange(i, i + 8) == seq![
        27u8,
        91u8,
        63u8,
        49u8,
        48u8,
        52u8,
        57u8,
        104u8,
    ] {
        assert(window_at(b, alt_screen_1049(), i));
    } else {
        assert(window_at(b, alt_screen_1047(), i));
    }
}

} // verus!
