//! Decisions of the attach path: which request an attaching client makes,
//! how a control line is read, and how a splice between a client and a PTY
//! ends.
use vstd::prelude::*;
use crate::client_config::AttachSpec;
use crate::protocol::Message;
use crate::text::to_string;

verus! {

/// Longest control line accepted, in bytes.
pub const MAX_LINE: usize = 4096;

/// What `vpsd attach` does once its arguments are checked.
pub enum AttachPlan {
    /// Send this request to the running daemon and splice to its PTY.
    Daemon(Message),
    /// No daemon: run a login shell on a PTY of our own, of this size.
    Oneshot { cols: u16, rows: u16 },
}

pub open spec fn attach_size(cols: Option<u16>, rows: Option<u16>, tty: Option<(u16, u16)>) -> (
    u16,
    u16,
) {
    match (cols, rows) {
        (Some(c), Some(r)) => (c, r),
        _ => match tty {
            Some(sz) => sz,
            None => (80, 24),
        },
    }
}

/// `vpsd attach`: it needs a tty and at most one of `--new` / `--id`; the
/// size is `--cols`/`--rows` when both are given, else the tty's, else
/// 80×24; with a daemon socket it asks the daemon (attach by id, else
/// open), without one it can only start a one-shot session.
pub open spec fn plan_attach_spec(
    stdin_is_tty: bool,
    cols: Option<u16>,
    rows: Option<u16>,
    tty: Option<(u16, u16)>,
    id: Option<u64>,
    new: bool,
    socket_exists: bool,
) -> Result<(Option<Message>, u16, u16), Seq<char>> {
    let (c, r) = attach_size(cols, rows, tty);
    if !stdin_is_tty {
        Err("attach requires a tty (ssh -tt grok vpsd attach)"@)
    } else if new && id is Some {
        Err("--new and --id cannot both be set"@)
    } else if socket_exists {
        Ok(
            (
                Some(
                    match id {
                        Some(i) => Message::Attach { id: i, cols: c, rows: r },
                        None => Message::Open { cols: c, rows: r },
                    },
                ),
                c,
                r,
            ),
        )
    } else if id is Some {
        Err("daemon is not running; cannot attach by id"@)
    } else {
        Ok((None, c, r))
    }
}

pub open spec fn plan_view(r: Result<AttachPlan, String>) -> Result<
    (Option<Message>, u16, u16),
    Seq<char>,
> {
    match r {
        Ok(AttachPlan::Daemon(m)) => Ok(
            (
                Some(m),
                match m {
                    Message::Attach { cols, .. } => cols,
                    Message::Open { cols, .. } => cols,
                    _ => 0,
                },
                match m {
                    Message::Attach { rows, .. } => rows,
                    Message::Open { rows, .. } => rows,
                    _ => 0,
                },
            ),
        ),
        Ok(AttachPlan::Oneshot { cols, rows }) => Ok((None, cols, rows)),
        Err(e) => Err(e@),
    }
}

/// What `vpsd attach` does. `tty` is the size of the controlling tty, if
/// it has one.
pub fn plan_attach(
    stdin_is_tty: bool,
    cols: Option<u16>,
    rows: Option<u16>,
    tty: Option<(u16, u16)>,
    id: Option<u64>,
    new: bool,
    socket_exists: bool,
) -> (r: Result<AttachPlan, String>)
    ensures
        plan_view(r) == plan_attach_spec(stdin_is_tty, cols, rows, tty, id, new, socket_exists),
{
    if !stdin_is_tty {
        return Err(to_string("attach requires a tty (ssh -tt grok vpsd attach)"));
    }
    if new && id.is_some() {
        return Err(to_string("--new and --id cannot both be set"));
    }
    let (c, r) = match (cols, rows) {
        (Some(c), Some(r)) => (c, r),
        _ => match tty {
            Some(sz) => sz,
            None => (80u16, 24u16),
        },
    };
    if socket_exists {
        let req = match id {
            Some(i) => Message::Attach { id: i, cols: c, rows: r },
            None => Message::Open { cols: c, rows: r },
        };
        return Ok(AttachPlan::Daemon(req));
    }
    if id.is_some() {
        return Err(to_string("daemon is not running; cannot attach by id"));
    }
    Ok(AttachPlan::Oneshot { cols: c, rows: r })
}

pub open spec fn attach_spec_spec(id: Option<u64>, new: bool) -> Result<AttachSpec, Seq<char>> {
    if new && id is Some {
        Err("--new and --id cannot both be set"@)
    } else {
        match id {
            Some(i) => Ok(AttachSpec::Id(i)),
            None => Ok(AttachSpec::New),
        }
    }
}

/// `vps attach --id N | --new`: which PTY to open a terminal on.
pub fn attach_spec(id: Option<u64>, new: bool) -> (r: Result<AttachSpec, String>)
    ensures
        match r {
            Ok(s) => attach_spec_spec(id, new) == Ok::<AttachSpec, Seq<char>>(s),
            Err(e) => attach_spec_spec(id, new) == Err::<AttachSpec, Seq<char>>(e@),
        },
{
    if new && id.is_some() {
        return Err(to_string("--new and --id cannot both be set"));
    }
    match id {
        Some(i) => Ok(AttachSpec::Id(i)),
        None => Ok(AttachSpec::New),
    }
}

/// Reading a control line, one byte at a time.
#[derive(Debug, Clone, Copy, PartialEq, Eq, Structural)]
pub enum LineStep {
    /// The newline came; the line is complete (without it).
    Done,
    /// Keep reading.
    More,
    /// The line grew past the limit.
    TooLong,
}

/// Takes one byte of a control line: a newline ends it; any other byte is
/// appended, and the line may not grow past `MAX_LINE` bytes.
pub fn line_push(line: &mut Vec<u8>, b: u8) -> (r: LineStep)
    ensures
        b == 10u8 ==> r == LineStep::Done && final(line)@ == old(line)@,
        b != 10u8 ==> final(line)@ == old(line)@.push(b) && (r == if old(line)@.len() + 1
            > MAX_LINE {
            LineStep::TooLong
        } else {
            LineStep::More
        }),
{
    if b == 10u8 {
        return LineStep::Done;
    }
    line.push(b);
    if line.len() > MAX_LINE {
        LineStep::TooLong
    } else {
        LineStep::More
    }
}

/// How a splice between a client and a PTY ended.
#[derive(Debug, Clone, Copy, PartialEq, Eq, Structural)]
pub enum SpliceEnd {
    /// The client side closed.
    ClientGone,
    /// The PTY closed: its program exited.
    MasterGone,
}

/// The kinds of I/O failure the splice tells apart.
#[derive(Debug, Clone, Copy, PartialEq, Eq, Structural)]
pub enum IoKind {
    BrokenPipe,
    ConnectionReset,
    ConnectionAborted,
    UnexpectedEof,
    Interrupted,
    WouldBlock,
    Other,
}

/// The peer went away (as opposed to a real I/O error).
pub open spec fn is_disconnect_spec(k: IoKind) -> bool {
    k == IoKind::BrokenPipe || k == IoKind::ConnectionReset || k == IoKind::ConnectionAborted || k
        == IoKind::UnexpectedEof
}

pub fn is_disconnect(k: IoKind) -> (b: bool)
    ensures
        b == is_disconnect_spec(k),
{
    match k {
        IoKind::BrokenPipe | IoKind::ConnectionReset | IoKind::ConnectionAborted
        | IoKind::UnexpectedEof => true,
        _ => false,
    }
}

/// What a `read` on one side of the splice returned.
#[derive(Debug, Clone, Copy, PartialEq, Eq, Structural)]
pub enum ReadResult {
    /// Some bytes.
    Data,
    /// End of file.
    Eof,
    /// An error of this kind.
    Failed(IoKind),
}

/// What the splice loop does next.
#[derive(Debug, Clone, Copy, PartialEq, Eq, Structural)]
pub enum SpliceStep {
    /// Write the bytes read to the other side.
    Forward,
    /// Nothing to do; wait again.
    Continue,
    /// Stop.
    End(SpliceEnd),
    /// Stop with this error.
    Fail(IoKind),
}

/// After reading the client: end of file means the client is gone; a
/// would-block read is retried; other errors stop the splice.
pub fn after_client_read(r: ReadResult) -> (s: SpliceStep)
    ensures
        s == match r {
            ReadResult::Data => SpliceStep::Forward,
            ReadResult::Eof => SpliceStep::End(SpliceEnd::ClientGone),
            ReadResult::Failed(IoKind::WouldBlock) => SpliceStep::Continue,
            ReadResult::Failed(k) => SpliceStep::Fail(k),
        },
{
    match r {
        ReadResult::Data => SpliceStep::Forward,
        ReadResult::Eof => SpliceStep::End(SpliceEnd::ClientGone),
        ReadResult::Failed(IoKind::WouldBlock) => SpliceStep::Continue,
        ReadResult::Failed(k) => SpliceStep::Fail(k),
    }
}

/// After reading the PTY: end of file means the program exited.
pub fn after_master_read(r: ReadResult) -> (s: SpliceStep)
    ensures
        s == match r {
            ReadResult::Data => SpliceStep::Forward,
            ReadResult::Eof => SpliceStep::End(SpliceEnd::MasterGone),
            ReadResult::Failed(IoKind::WouldBlock) => SpliceStep::Continue,
            ReadResult::Failed(k) => SpliceStep::Fail(k),
        },
{
    match r {
        ReadResult::Data => SpliceStep::Forward,
        ReadResult::Eof => SpliceStep::End(SpliceEnd::MasterGone),
        ReadResult::Failed(IoKind::WouldBlock) => SpliceStep::Continue,
        ReadResult::Failed(k) => SpliceStep::Fail(k),
    }
}

/// After forwarding: a write to a vanished peer ends the splice as
/// "client gone"; other write errors stop it.
pub fn after_write(failed: Option<IoKind>) -> (s: SpliceStep)
    ensures
        s == match failed {
            None => SpliceStep::Continue,
            Some(k) => if is_disconnect_spec(k) {
                SpliceStep::End(SpliceEnd::ClientGone)
            } else {
                SpliceStep::Fail(k)
            },
        },
{
    match failed {
        None => SpliceStep::Continue,
        Some(k) => if is_disconnect(k) {
            SpliceStep::End(SpliceEnd::ClientGone)
        } else {
            SpliceStep::Fail(k)
        },
    }
}

/// A failed `select`: an interrupted wait is retried.
pub fn after_wait_error(k: IoKind) -> (s: SpliceStep)
    ensures
        s == if k == IoKind::Interrupted {
            SpliceStep::Continue
        } else {
            SpliceStep::Fail(k)
        },
{
    if k == IoKind::Interrupted {
        SpliceStep::Continue
    } else {
        SpliceStep::Fail(k)
    }
}

/// What the daemon does when a client's splice ends: the session is dropped
/// when its program exited, and only detached otherwise (the PTY stays); a
/// disconnect is not an error.
pub struct SpliceOutcome {
    pub drop_session: bool,
    pub error: Option<IoKind>,
}

pub fn splice_outcome(r: Result<SpliceEnd, IoKind>) -> (o: SpliceOutcome)
    ensures
        o.drop_session == (r == Ok::<SpliceEnd, IoKind>(SpliceEnd::MasterGone)),
        o.error == match r {
            Ok(_) => None,
            Err(k) => if is_disconnect_spec(k) {
                None
            } else {
                Some(k)
            },
        },
{
    match r {
        Ok(SpliceEnd::MasterGone) => SpliceOutcome { drop_session: true, error: None },
        Ok(SpliceEnd::ClientGone) => SpliceOutcome { drop_session: false, error: None },
        Err(k) => SpliceOutcome {
            drop_session: false,
            error: if is_disconnect(k) {
                None
            } else {
                Some(k)
            },
        },
    }
}

/// A request a daemon client may open with.
#[derive(Debug, Clone, Copy, PartialEq, Eq, Structural)]
pub enum Request {
    List,
    Open { cols: u16, rows: u16 },
    Attach { id: u64, cols: u16, rows: u16 },
}

/// The request a first control line makes; `None` for any other message,
/// which the daemon answers with an error.
pub fn request_of(m: &Message) -> (r: Option<Request>)
    ensures
        r == match *m {
            Message::List => Some(Request::List),
            Message::Open { cols, rows } => Some(Request::Open { cols, rows }),
            Message::Attach { id, cols, rows } => Some(Request::Attach { id, cols, rows }),
            _ => None,
        },
{
    match m {
        Message::List => Some(Request::List),
        Message::Open { cols, rows } => Some(Request::Open { cols: *cols, rows: *rows }),
        Message::Attach { id, cols, rows } => Some(
            Request::Attach { id: *id, cols: *cols, rows: *rows },
        ),
        _ => None,
    }
}

/// `--cols` and `--rows` given together fix the size of every plan that
/// succeeds: the request to the daemon and the one-shot session alike use
/// exactly that size, whatever the tty's.
pub proof fn lemma_given_size_is_used(
    stdin_is_tty: bool,
    c: u16,
    r: u16,
    tty: Option<(u16, u16)>,
    id: Option<u64>,
    new: bool,
    socket_exists: bool,
)
    ensures
        match plan_attach_spec(stdin_is_tty, Some(c), Some(r), tty, id, new, socket_exists) {
            Ok((req, cols, rows)) => cols == c && rows == r && match req {
                Some(Message::Open { cols, rows }) => cols == c && rows == r,
                Some(Message::Attach { cols, rows, .. }) => cols == c && rows == r,
                Some(_) => false,
                None => true,
            },
            Err(_) => true,
        },
{
}

} // verus!
