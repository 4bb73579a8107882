//! What the daemon reads out of `/proc` to label a session: the command
//! line, the parent pid, and whether a process is a shell.
use vstd::prelude::*;
use crate::paths::seg_start;
use crate::settings::{split_ws, words};
use crate::text::{
    parse_u32, parse_u32_radix, push_arg, push_str, split_char, split_on, starts_with, str_eq, strs,
    to_string, trim, trim_str,
};

verus! {

/// The text `String::from_utf8_lossy` makes of some bytes.
pub uninterp spec fn utf8_lossy(bytes: Seq<u8>) -> Seq<char>;

/// `String::from_utf8_lossy`: the bytes decoded, with every invalid
/// sequence replaced by U+FFFD. Stated: the result is a function of the
/// bytes alone, and valid UTF-8 is decoded unchanged. Not stated: where
/// replacement characters go for invalid input.
#[verifier::external_body]
pub fn from_utf8_lossy(bytes: &[u8]) -> (s: String)
    ensures
        s@ == utf8_lossy(bytes@),
        vstd::utf8::valid_utf8(bytes@) ==> s@ == vstd::utf8::decode_utf8(bytes@),
{
    String::from_utf8_lossy(bytes).into_owned()
}

/// The NUL-separated pieces of `b`, empty ones included.
pub open spec fn split_nul(b: Seq<u8>) -> Seq<Seq<u8>>
    decreases b.len(),
{
    if b.len() == 0 {
        seq![Seq::<u8>::empty()]
    } else {
        let prev = split_nul(b.drop_last());
        if b.last() == 0u8 {
            prev.push(Seq::<u8>::empty())
        } else {
            prev.update(prev.len() - 1, prev.last().push(b.last()))
        }
    }
}

/// The non-empty pieces, each decoded.
pub open spec fn decoded_args(pieces: Seq<Seq<u8>>) -> Seq<Seq<char>>
    decreases pieces.len(),
{
    if pieces.len() == 0 {
        Seq::empty()
    } else {
        let prev = decoded_args(pieces.drop_last());
        if pieces.last().len() > 0 {
            prev.push(utf8_lossy(pieces.last()))
        } else {
            prev
        }
    }
}

/// Words joined by single spaces.
pub open spec fn join_spaces(ws: Seq<Seq<char>>) -> Seq<char>
    decreases ws.len(),
{
    if ws.len() == 0 {
        Seq::empty()
    } else if ws.len() == 1 {
        ws[0]
    } else {
        join_spaces(ws.drop_last()) + " "@ + ws.last()
    }
}

/// A `/proc/PID/cmdline` as one line: the non-empty NUL-separated
/// arguments, decoded, joined by spaces.
pub open spec fn cmdline_spec(b: Seq<u8>) -> Seq<char> {
    join_spaces(decoded_args(split_nul(b)))
}

proof fn lemma_split_nul_nonempty(b: Seq<u8>)
    ensures
        split_nul(b).len() >= 1,
    decreases b.len(),
{
    if b.len() > 0 {
        lemma_split_nul_nonempty(b.drop_last());
    }
}

fn split_at_nul(b: &[u8]) -> (r: Vec<Vec<u8>>)
    ensures
        r@.map_values(|v: Vec<u8>| v@) == split_nul(b@),
{
    let n = b.len();
    let mut out: Vec<Vec<u8>> = Vec::new();
    let mut cur: Vec<u8> = Vec::new();
    let mut i: usize = 0;
    while i < n
        invariant
            i <= n,
            n == b@.len(),
            out@.map_values(|v: Vec<u8>| v@).push(cur@) == split_nul(b@.subrange(0, i as int)),
        decreases n - i,
    {
        let ghost before = b@.subrange(0, i as int);
        proof {
            assert(b@.subrange(0, i + 1).drop_last() =~= before);
            lemma_split_nul_nonempty(before);
        }
        let x = b[i];
        if x == 0u8 {
            let done = cur;
            let ghost old_out = out@;
            out.push(done);
            cur = Vec::new();
            proof {
                assert(out@.map_values(|v: Vec<u8>| v@) =~= old_out.map_values(|v: Vec<u8>| v@).push(
                    done@,
                ));
                assert(out@.map_values(|v: Vec<u8>| v@).push(cur@) =~= split_nul(before).push(
                    Seq::<u8>::empty(),
                ));
            }
        } else {
            cur.push(x);
            proof {
                let prev = split_nul(before);
                assert(out@.map_values(|v: Vec<u8>| v@).push(cur@) =~= prev.update(
                    prev.len() - 1,
                    prev.last().push(x),
                ));
            }
        }
        i = i + 1;
    }
    assert(b@.subrange(0, n as int) =~= b@);
    let ghost old_out = out@;
    out.push(cur);
    assert(out@.map_values(|v: Vec<u8>| v@) =~= old_out.map_values(|v: Vec<u8>| v@).push(cur@));
    out
}

/// A command line from the bytes of `/proc/PID/cmdline`.
pub fn cmdline_text(bytes: &[u8]) -> (r: String)
    ensures
        r@ == cmdline_spec(bytes@),
{
    let pieces = split_at_nul(bytes);
    let ghost pv = pieces@.map_values(|v: Vec<u8>| v@);
    let n = pieces.len();
    let mut args: Vec<String> = Vec::new();
    let mut i: usize = 0;
    while i < n
        invariant
            i <= n,
            n == pieces@.len(),
            pv == pieces@.map_values(|v: Vec<u8>| v@),
            strs(args@) == decoded_args(pv.subrange(0, i as int)),
        decreases n - i,
    {
        proof {
            assert(pv.subrange(0, i + 1).drop_last() =~= pv.subrange(0, i as int));
        }
        if pieces[i].len() > 0 {
            push_arg(&mut args, from_utf8_lossy(pieces[i].as_slice()));
        }
        i = i + 1;
    }
    assert(pv.subrange(0, n as int) =~= pv);
    join_with_spaces(&args)
}

/// The words joined by single spaces.
pub fn join_with_spaces(ws: &Vec<String>) -> (r: String)
    ensures
        r@ == join_spaces(strs(ws@)),
{
    let n = ws.len();
    let mut r = String::new();
    let mut i: usize = 0;
    while i < n
        invariant
            i <= n,
            n == ws@.len(),
            r@ == join_spaces(strs(ws@.subrange(0, i as int))),
        decreases n - i,
    {
        let ghost prefix = strs(ws@.subrange(0, i + 1));
        proof {
            assert(prefix.drop_last() =~= strs(ws@.subrange(0, i as int)));
        }
        if i > 0 {
            push_str(&mut r, " ");
        } else {
            assert(r@ =~= Seq::<char>::empty());
        }
        push_str(&mut r, ws[i].as_str());
        i = i + 1;
    }
    assert(ws@.subrange(0, n as int) =~= ws@);
    r
}

/// Shells that are skipped when looking for the program a session runs.
pub open spec fn is_shell_name(n: Seq<char>) -> bool {
    n == "bash"@ || n == "sh"@ || n == "zsh"@ || n == "fish"@ || n == "dash"@
}

/// The program's name: the first word of the command line after its last
/// `/` (empty when there is no word).
pub open spec fn program_name(cmd: Seq<char>) -> Seq<char> {
    let ws = words(cmd);
    if ws.len() > 0 {
        ws[0].skip(seg_start(ws[0]) as int)
    } else {
        Seq::empty()
    }
}

/// Whether a command line runs one of the known shells.
pub fn is_shell_command(cmd: &str) -> (b: bool)
    ensures
        b == is_shell_name(program_name(cmd@)),
{
    let ws = split_ws(cmd);
    if ws.len() == 0 {
        proof {
            reveal_strlit("bash");
            reveal_strlit("sh");
            reveal_strlit("zsh");
            reveal_strlit("fish");
            reveal_strlit("dash");
            assert(program_name(cmd@).len() == 0);
        }
        return false;
    }
    let w = ws[0].as_str();
    let n = w.unicode_len();
    let mut k = n;
    assert(w@.subrange(0, n as int) =~= w@);
    while k > 0 && w.get_char(k - 1) != '/'
        invariant
            k <= n,
            n == w@.len(),
            seg_start(w@) == seg_start(w@.subrange(0, k as int)),
        decreases k,
    {
        proof {
            assert(w@.subrange(0, k as int).drop_last() =~= w@.subrange(0, k - 1));
        }
        k = k - 1;
    }
    assert(w@.subrange(k as int, n as int) =~= w@.skip(k as int));
    let base = w.substring_char(k, n);
    str_eq(base, "bash") || str_eq(base, "sh") || str_eq(base, "zsh") || str_eq(base, "fish")
        || str_eq(base, "dash")
}

/// The first piece that starts with `PPid:`, if any.
pub open spec fn ppid_line(lines: Seq<Seq<char>>) -> Option<Seq<char>>
    decreases lines.len(),
{
    if lines.len() == 0 {
        None
    } else if "PPid:"@.is_prefix_of(lines[0]) {
        Some(lines[0])
    } else {
        ppid_line(lines.drop_first())
    }
}

/// The parent pid in a `/proc/PID/status` text: the number on its first
/// `PPid:` line, or `None` when there is none or it does not parse.
pub open spec fn ppid_spec(status: Seq<char>) -> Option<u32> {
    match ppid_line(split_char(status, '\n')) {
        Some(l) => parse_u32_radix(trim(l.skip(5)), 10),
        None => None,
    }
}

/// The parent pid from the text of `/proc/PID/status`.
pub fn parse_ppid(status: &str) -> (r: Option<u32>)
    ensures
        r == ppid_spec(status@),
{
    proof {
        reveal_strlit("PPid:");
    }
    let lines = split_on(status, '\n');
    let ghost lv = strs(lines@);
    let n = lines.len();
    let mut i: usize = 0;
    assert(lv.skip(0) =~= lv);
    while i < n
        invariant
            i <= n,
            n == lines@.len(),
            lv == strs(lines@),
            lv == split_char(status@, '\n'),
            ppid_line(lv) == ppid_line(lv.skip(i as int)),
        decreases n - i,
    {
        let line = lines[i].as_str();
        proof {
            assert(lv.skip(i as int)[0] == line@);
            assert(lv.skip(i as int).drop_first() =~= lv.skip(i + 1));
        }
        if starts_with(line, "PPid:") {
            proof {
                reveal_strlit("PPid:");
            }
            let rest = line.substring_char(5, line.unicode_len());
            proof {
                assert(rest@ =~= line@.skip(5));
            }
            return parse_u32(trim_str(rest), 10);
        }
        i = i + 1;
    }
    proof {
        assert(lv.skip(n as int) =~= Seq::<Seq<char>>::empty());
    }
    None
}

/// A `/proc` entry name as a pid (`str::parse::<u32>`).
pub fn parse_pid(name: &str) -> (r: Option<u32>)
    ensures
        r == parse_u32_radix(name@, 10),
{
    parse_u32(name, 10)
}

/// One process as read from `/proc`.
pub struct ProcEntry {
    pub pid: u32,
    /// Its parent, when its status could be read and parsed.
    pub ppid: Option<u32>,
    /// Its command line (`cmdline_text` of `/proc/PID/cmdline`).
    pub cmdline: String,
}

/// The pids of the children of `pid`, in the order listed.
pub open spec fn children_spec(pid: u32, procs: Seq<ProcEntry>) -> Seq<u32>
    decreases procs.len(),
{
    if procs.len() == 0 {
        Seq::empty()
    } else {
        let prev = children_spec(pid, procs.drop_last());
        if procs.last().ppid == Some(pid) {
            prev.push(procs.last().pid)
        } else {
            prev
        }
    }
}

/// The children of `pid` among `procs` (all processes).
pub fn children_of(pid: u32, procs: &Vec<ProcEntry>) -> (r: Vec<u32>)
    ensures
        r@ == children_spec(pid, procs@),
{
    let mut out: Vec<u32> = Vec::new();
    let mut i: usize = 0;
    while i < procs.len()
        invariant
            i <= procs@.len(),
            out@ == children_spec(pid, procs@.subrange(0, i as int)),
        decreases procs@.len() - i,
    {
        proof {
            assert(procs@.subrange(0, i + 1).drop_last() =~= procs@.subrange(0, i as int));
        }
        if procs[i].ppid == Some(pid) {
            out.push(procs[i].pid);
        }
        i = i + 1;
    }
    assert(procs@.subrange(0, procs@.len() as int) =~= procs@);
    out
}

/// Whether `e` is a child of `pid` that runs a program other than a shell.
pub open spec fn is_program_child(pid: u32, e: ProcEntry) -> bool {
    &&& e.ppid == Some(pid)
    &&& e.cmdline@.len() > 0
    &&& !is_shell_name(program_name(e.cmdline@))
}

/// The first child of `pid` that runs a program other than a shell.
pub open spec fn first_program_child(pid: u32, procs: Seq<ProcEntry>) -> Option<ProcEntry>
    decreases procs.len(),
{
    if procs.len() == 0 {
        None
    } else if is_program_child(pid, procs[0]) {
        Some(procs[0])
    } else {
        first_program_child(pid, procs.drop_first())
    }
}

/// The first child of `pid` whose command line is not empty and does not
/// run a shell: the program a session's shell is running, if any.
pub fn first_non_shell_child(pid: u32, procs: &Vec<ProcEntry>) -> (r: Option<u32>)
    ensures
        r == match first_program_child(pid, procs@) {
            Some(e) => Some(e.pid),
            None => None::<u32>,
        },
{
    let n = procs.len();
    let mut i: usize = 0;
    assert(procs@.skip(0) =~= procs@);
    while i < n
        invariant
            i <= n,
            n == procs@.len(),
            first_program_child(pid, procs@) == first_program_child(pid, procs@.skip(i as int)),
        decreases n - i,
    {
        proof {
            assert(procs@.skip(i as int)[0] == procs@[i as int]);
            assert(procs@.skip(i as int).drop_first() =~= procs@.skip(i + 1));
        }
        let e = &procs[i];
        if e.ppid == Some(pid) && e.cmdline.unicode_len() > 0 && !is_shell_command(
            e.cmdline.as_str(),
        ) {
            return Some(e.pid);
        }
        i = i + 1;
    }
    assert(procs@.skip(n as int) =~= Seq::<ProcEntry>::empty());
    None
}

/// What a session's shell `pid` is running, for the session list: the
/// command line of its first non-shell child, else its own (`own`).
pub open spec fn proc_command_spec(pid: u32, own: Seq<char>, procs: Seq<ProcEntry>) -> Seq<char> {
    match first_program_child(pid, procs) {
        Some(e) => e.cmdline@,
        None => own,
    }
}

/// The command shown for the session whose shell is `pid`; `own` is the
/// shell's own command line and `procs` every process.
pub fn proc_command(pid: u32, own: &str, procs: &Vec<ProcEntry>) -> (r: String)
    ensures
        r@ == proc_command_spec(pid, own@, procs@),
{
    let n = procs.len();
    let mut i: usize = 0;
    assert(procs@.skip(0) =~= procs@);
    while i < n
        invariant
            i <= n,
            n == procs@.len(),
            first_program_child(pid, procs@) == first_program_child(pid, procs@.skip(i as int)),
        decreases n - i,
    {
        proof {
            assert(procs@.skip(i as int)[0] == procs@[i as int]);
            assert(procs@.skip(i as int).drop_first() =~= procs@.skip(i + 1));
        }
        let e = &procs[i];
        if e.ppid == Some(pid) && e.cmdline.unicode_len() > 0 && !is_shell_command(
            e.cmdline.as_str(),
        ) {
            return e.cmdline.clone();
        }
        i = i + 1;
    }
    assert(procs@.skip(n as int) =~= Seq::<ProcEntry>::empty());
    to_string(own)
}

} // verus!
