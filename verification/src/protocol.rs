//! Control-plane messages and the listen-address policy of vpsd.
//!
//! PTY bytes after attach are raw. Control is JSON, one object per line.
//! The daemon never binds TCP or UDP: `Listen::parse` refuses anything that
//! looks like a network address.
use vstd::prelude::*;
use crate::paths::{join, path_join};
use crate::text::{
    contains_char, eq_ignore_ascii_case, lower_seq, push_str, starts_with,
    starts_with_ignore_ascii_case, to_string, trim, trim_str,
};

verus! {

pub const VERSION: u32 = 1;

pub const SOCKET_NAME: &'static str = "vpsd.sock";

/// One PTY the daemon owns, as `vpsd list` reports it.
#[derive(Debug, Clone, PartialEq, Eq)]
pub struct SessionInfo {
    pub id: u64,
    pub pts: String,
    pub pid: u32,
    pub attached: bool,
    pub cwd: String,
    pub command: String,
    pub title: String,
}

/// A control message. Serialized as one JSON object per line, tagged by `t`.
#[derive(Debug, Clone, PartialEq, Eq)]
pub enum Message {
    Hello { v: u32, id: u64 },
    Open { cols: u16, rows: u16 },
    Attach { id: u64, cols: u16, rows: u16 },
    Resize { cols: u16, rows: u16 },
    List,
    Sessions { sessions: Vec<SessionInfo> },
    Close,
    Exit { code: i32 },
    Error { msg: String },
}

/// Where the daemon listens.
#[derive(Debug, Clone, PartialEq, Eq)]
pub enum Listen {
    /// Attach stream (SSH stdio / a tty). Not a bind.
    Stdio,
    /// Filesystem socket. Mode 0600. Never a network address.
    Unix(String),
}

#[derive(Debug, Clone, PartialEq, Eq)]
pub enum ListenError {
    Network(String),
    Empty,
}

/// What parsing a listen spec yields, over character sequences.
pub enum ListenOutcome {
    Stdio,
    Unix(Seq<char>),
    Network(Seq<char>),
    Empty,
}

pub open spec fn listen_outcome(r: Result<Listen, ListenError>) -> ListenOutcome {
    match r {
        Ok(Listen::Stdio) => ListenOutcome::Stdio,
        Ok(Listen::Unix(p)) => ListenOutcome::Unix(p@),
        Err(ListenError::Network(s)) => ListenOutcome::Network(s@),
        Err(ListenError::Empty) => ListenOutcome::Empty,
    }
}

/// A spec that names a network endpoint: a scheme or bracket that only
/// network addresses use, or `host:port` / `:port` with no `/` in it.
/// `unix:` specs and paths starting with `/` or `.` are never network.
pub open spec fn looks_like_network_spec(spec: Seq<char>) -> bool {
    let s = trim(spec);
    let l = lower_seq(s);
    if "tcp:"@.is_prefix_of(l) || "tcp://"@.is_prefix_of(l) || "udp:"@.is_prefix_of(l)
        || "udp://"@.is_prefix_of(l) || "http://"@.is_prefix_of(l) || "https://"@.is_prefix_of(l)
        || "["@.is_prefix_of(l) {
        true
    } else if "unix:"@.is_prefix_of(l) || (s.len() > 0 && s[0] == '/') || (s.len() > 0 && s[0]
        == '.') {
        false
    } else {
        s.contains(':') && !s.contains('/')
    }
}

/// `stdio` or `-` (any case) is the attach stream; `unix:PATH` or a bare path
/// is a socket; an empty spec or an empty path is refused, and so is
/// anything that looks like a network address. Surrounding whitespace is
/// ignored.
pub open spec fn parse_spec(spec: Seq<char>) -> ListenOutcome {
    let t = trim(spec);
    if t.len() == 0 {
        ListenOutcome::Empty
    } else if lower_seq(t) == "stdio"@ || lower_seq(t) == "-"@ {
        ListenOutcome::Stdio
    } else if looks_like_network_spec(t) {
        ListenOutcome::Network(t)
    } else {
        let path = if "unix:"@.is_prefix_of(t) {
            t.skip(5)
        } else {
            t
        };
        if path.len() == 0 {
            ListenOutcome::Empty
        } else {
            ListenOutcome::Unix(path)
        }
    }
}

/// `$XDG_RUNTIME_DIR` when set and non-empty, else `/tmp`.
pub open spec fn runtime_dir_spec(xdg_runtime_dir: Option<Seq<char>>) -> Seq<char> {
    match xdg_runtime_dir {
        Some(d) if d.len() > 0 => d,
        _ => "/tmp"@,
    }
}

pub open spec fn default_socket_path_spec(xdg_runtime_dir: Option<Seq<char>>) -> Seq<char> {
    join(runtime_dir_spec(xdg_runtime_dir), "vpsd.sock"@)
}

/// Whether `spec` names a network endpoint.
pub fn looks_like_network(spec: &str) -> (b: bool)
    ensures
        b == looks_like_network_spec(spec@),
{
    let s = trim_str(spec);
    if starts_with_ignore_ascii_case(s, "tcp:") || starts_with_ignore_ascii_case(s, "tcp://")
        || starts_with_ignore_ascii_case(s, "udp:") || starts_with_ignore_ascii_case(s, "udp://")
        || starts_with_ignore_ascii_case(s, "http://") || starts_with_ignore_ascii_case(
        s,
        "https://",
    ) || starts_with_ignore_ascii_case(s, "[") {
        return true;
    }
    if starts_with_ignore_ascii_case(s, "unix:") || starts_with(s, "/") || starts_with(s, ".") {
        proof {
            reveal_strlit("/");
            reveal_strlit(".");
            if "/"@.is_prefix_of(s@) {
                assert(s@.subrange(0, 1)[0] == s@[0]);
            }
            if "."@.is_prefix_of(s@) {
                assert(s@.subrange(0, 1)[0] == s@[0]);
            }
        }
        return false;
    }
    proof {
        reveal_strlit("/");
        reveal_strlit(".");
        if s@.len() > 0 && s@[0] == '/' {
            assert("/"@.is_prefix_of(s@));
        }
        if s@.len() > 0 && s@[0] == '.' {
            assert("."@.is_prefix_of(s@));
        }
    }
    contains_char(s, ':') && !contains_char(s, '/')
}

impl Listen {
    /// Parse a listen spec: `stdio`, `-`, `unix:/path`, or a path.
    /// Anything that looks like a network bind is an error.
    pub fn parse(spec: &str) -> (r: Result<Listen, ListenError>)
        ensures
            listen_outcome(r) == parse_spec(spec@),
    {
        let t = trim_str(spec);
        if t.unicode_len() == 0 {
            return Err(ListenError::Empty);
        }
        if eq_ignore_ascii_case(t, "stdio") || eq_ignore_ascii_case(t, "-") {
            return Ok(Listen::Stdio);
        }
        if looks_like_network(t) {
            return Err(ListenError::Network(to_string(t)));
        }
        let n = t.unicode_len();
        let path = if starts_with(t, "unix:") {
            proof {
                reveal_strlit("unix:");
            }
            t.substring_char(5, n)
        } else {
            t
        };
        proof {
            if "unix:"@.is_prefix_of(t@) {
                reveal_strlit("unix:");
                assert(t@.subrange(5, n as int) =~= t@.skip(5));
            }
        }
        if path.unicode_len() == 0 {
            return Err(ListenError::Empty);
        }
        Ok(Listen::Unix(to_string(path)))
    }

    pub open spec fn spec_is_bind(&self) -> bool {
        self is Unix
    }

    /// A socket is a bind; the attach stream is not.
    pub fn is_bind(&self) -> (b: bool)
        ensures
            b == self.spec_is_bind(),
    {
        match self {
            Listen::Unix(_) => true,
            Listen::Stdio => false,
        }
    }
}

impl ListenError {
    pub open spec fn message_spec(&self) -> Seq<char> {
        match self {
            ListenError::Network(got) => "vpsd never listens on TCP or UDP (got "@ + got@ + ")"@,
            ListenError::Empty => "empty listen address"@,
        }
    }

    /// The error text shown to the user.
    pub fn message(&self) -> (r: String)
        ensures
            r@ == self.message_spec(),
    {
        match self {
            ListenError::Network(got) => {
                let mut r = to_string("vpsd never listens on TCP or UDP (got ");
                push_str(&mut r, got.as_str());
                push_str(&mut r, ")");
                r
            },
            ListenError::Empty => to_string("empty listen address"),
        }
    }
}

/// `$XDG_RUNTIME_DIR` when non-empty, else `/tmp`.
pub fn runtime_dir(xdg_runtime_dir: Option<&str>) -> (r: String)
    ensures
        r@ == runtime_dir_spec(crate::paths::opt_view(xdg_runtime_dir)),
{
    match xdg_runtime_dir {
        Some(d) if d.unicode_len() > 0 => to_string(d),
        _ => to_string("/tmp"),
    }
}

/// The daemon socket: `vpsd.sock` in the runtime directory, given the value
/// of `$XDG_RUNTIME_DIR` (`None` when unset).
pub fn default_socket_path(xdg_runtime_dir: Option<&str>) -> (r: String)
    ensures
        r@ == default_socket_path_spec(crate::paths::opt_view(xdg_runtime_dir)),
{
    let dir = runtime_dir(xdg_runtime_dir);
    path_join(dir.as_str(), SOCKET_NAME)
}

/// The daemon never binds a network address: a spec that parses to a
/// socket does not look like one, and one that looks like one never parses
/// to a socket.
pub proof fn lemma_never_binds_network(spec: Seq<char>)
    ensures
        parse_spec(spec) is Unix ==> !looks_like_network_spec(trim(spec)),
        looks_like_network_spec(trim(spec)) ==> !(parse_spec(spec) is Unix),
{
}

/// A spec whose trimmed text starts, in any case, with `tcp:`, `udp:`,
/// `http://`, `https://` or `[` names a network endpoint: it is refused as
/// a network address and never taken as a socket path.
pub proof fn lemma_schemes_refused(spec: Seq<char>)
    ensures
        ({
            let l = lower_seq(trim(spec));
            "tcp:"@.is_prefix_of(l) || "udp:"@.is_prefix_of(l) || "http://"@.is_prefix_of(l)
                || "https://"@.is_prefix_of(l) || "["@.is_prefix_of(l)
        }) ==> parse_spec(spec) == ListenOutcome::Network(trim(spec)),
{
    reveal_strlit("tcp:");
    reveal_strlit("udp:");
    reveal_strlit("http://");
    reveal_strlit("https://");
    reveal_strlit("[");
    reveal_strlit("stdio");
    reveal_strlit("-");
    let t = trim(spec);
    let l = lower_seq(t);
    crate::text::lemma_trim_idempotent(spec);
    if "tcp:"@.is_prefix_of(l) || "udp:"@.is_prefix_of(l) || "http://"@.is_prefix_of(l)
        || "https://"@.is_prefix_of(l) || "["@.is_prefix_of(l) {
        let p = if "tcp:"@.is_prefix_of(l) {
            "tcp:"@
        } else if "udp:"@.is_prefix_of(l) {
            "udp:"@
        } else if "http://"@.is_prefix_of(l) {
            "http://"@
        } else if "https://"@.is_prefix_of(l) {
            "https://"@
        } else {
            "["@
        };
        assert(p.is_prefix_of(l));
        assert(l.subrange(0, p.len() as int) == p);
        assert(l[0] == l.subrange(0, p.len() as int)[0]);
        assert(l[0] == 't' || l[0] == 'u' || l[0] == 'h' || l[0] == '[');
        assert(t.len() >= 1);
        assert(l != "stdio"@) by {
            if l == "stdio"@ {
                assert(l[0] == 's');
            }
        }
        assert(l != "-"@) by {
            if l == "-"@ {
                assert(l[0] == '-');
            }
        }
        assert(looks_like_network_spec(t));
    }
}

} // verus!
