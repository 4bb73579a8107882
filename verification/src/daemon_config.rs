//! Daemon settings (`~/.config/vps/vpsd.toml`) and what is derived from them.
use vstd::prelude::*;
use crate::paths::{config_dir, config_dir_spec, join, opt_view, path_join};
use crate::protocol::{
    default_socket_path, default_socket_path_spec, looks_like_network_spec, parse_spec, Listen,
    ListenOutcome,
};
use crate::text::{
    parse_u32, parse_u32_radix, strip_leading, strip_leading_char, to_string, trim, trim_str,
};

verus! {

#[derive(Debug, Clone)]
pub struct DaemonConfig {
    /// Unix socket path. Empty → `$XDG_RUNTIME_DIR/vpsd.sock`.
    pub listen: String,
    /// Login shell spawned on each new PTY.
    pub shell: String,
    /// Socket file mode as an octal string (`"0600"`). Never world-accessible.
    pub socket_mode: String,
    /// PTY output kept for reattach, in bytes. Oldest data is dropped.
    pub scrollback_bytes: usize,
}

/// Socket mode used when `socket_mode` does not parse.
pub const DEFAULT_MODE: u32 = 0o600;

/// The permission bits of "others", which the socket never gets.
pub const WORLD_BITS: u32 = 0o007;

/// Leading zeros dropped, the rest read as octal (0o600 when that fails),
/// then the bits for others cleared: the socket is never world-accessible.
pub open spec fn mode_bits_spec(mode: Seq<char>) -> u32 {
    let v = match parse_u32_radix(strip_leading(mode, '0'), 8) {
        Some(v) => v,
        None => DEFAULT_MODE,
    };
    v & !WORLD_BITS
}

impl DaemonConfig {
    pub open spec fn default_spec() -> (Seq<char>, Seq<char>, Seq<char>, usize) {
        (Seq::empty(), "/bin/bash"@, "0600"@, 2097152usize)
    }

    /// Listen on the runtime-dir socket; `/bin/bash`; mode `0600`; 2 MiB of
    /// scrollback.
    pub fn default_config() -> (c: DaemonConfig)
        ensures
            (c.listen@, c.shell@, c.socket_mode@, c.scrollback_bytes) == Self::default_spec(),
    {
        DaemonConfig {
            listen: String::new(),
            shell: to_string("/bin/bash"),
            socket_mode: to_string("0600"),
            scrollback_bytes: 2 * 1024 * 1024,
        }
    }

    pub open spec fn socket_path_spec(&self, xdg_runtime_dir: Option<Seq<char>>) -> Seq<char> {
        if trim(self.listen@).len() == 0 {
            default_socket_path_spec(xdg_runtime_dir)
        } else {
            self.listen@
        }
    }

    /// The socket to bind or connect to: `listen`, or the default socket
    /// when `listen` is blank.
    pub fn socket_path(&self, xdg_runtime_dir: Option<&str>) -> (r: String)
        ensures
            r@ == self.socket_path_spec(opt_view(xdg_runtime_dir)),
    {
        if trim_str(self.listen.as_str()).unicode_len() == 0 {
            default_socket_path(xdg_runtime_dir)
        } else {
            self.listen.clone()
        }
    }

    /// The socket file mode bits: the configured mode without the bits for
    /// others.
    pub fn mode_bits(&self) -> (r: u32)
        ensures
            r == mode_bits_spec(self.socket_mode@),
            r & WORLD_BITS == 0,
    {
        let v = match parse_u32(strip_leading_char(self.socket_mode.as_str(), '0'), 8) {
            Some(v) => v,
            None => DEFAULT_MODE,
        };
        let r = v & !WORLD_BITS;
        proof {
            lemma_never_world_accessible(v);
        }
        r
    }
}

impl Default for DaemonConfig {
    fn default() -> (c: DaemonConfig)
        ensures
            (c.listen@, c.shell@, c.socket_mode@, c.scrollback_bytes) == Self::default_spec(),
    {
        Self::default_config()
    }
}

pub open spec fn config_path_spec(xdg: Option<Seq<char>>, home: Option<Seq<char>>) -> Seq<char> {
    join(config_dir_spec(xdg, home), "vpsd.toml"@)
}

/// The daemon config file, given `$XDG_CONFIG_HOME` and `$HOME`.
pub fn config_path(xdg_config_home: Option<&str>, home: Option<&str>) -> (r: String)
    ensures
        r@ == config_path_spec(opt_view(xdg_config_home), opt_view(home)),
{
    let dir = config_dir(xdg_config_home, home);
    path_join(dir.as_str(), "vpsd.toml")
}

/// `vpsd daemon` binds the unix socket that `--listen` names, else the
/// configured one; the attach stream, a network address and an empty spec
/// are refused with these messages.
pub open spec fn daemon_socket_spec(spec: Seq<char>) -> Result<Seq<char>, Seq<char>> {
    match parse_spec(spec) {
        ListenOutcome::Unix(p) => Ok(p),
        ListenOutcome::Stdio => Err("daemon cannot listen on stdio; use `vpsd attach`"@),
        ListenOutcome::Network(got) => Err("vpsd never listens on TCP or UDP (got "@ + got + ")"@),
        ListenOutcome::Empty => Err("empty listen address"@),
    }
}

impl DaemonConfig {
    /// The socket `vpsd daemon` binds, given its `--listen` flag and
    /// `$XDG_RUNTIME_DIR`, or why it refuses to start.
    pub fn daemon_socket(&self, listen: Option<&str>, xdg_runtime_dir: Option<&str>) -> (r: Result<
        String,
        String,
    >)
        ensures
            ({
                let spec = match listen {
                    Some(l) => l@,
                    None => self.socket_path_spec(opt_view(xdg_runtime_dir)),
                };
                match r {
                    Ok(p) => daemon_socket_spec(spec) == Ok::<Seq<char>, Seq<char>>(p@),
                    Err(e) => daemon_socket_spec(spec) == Err::<Seq<char>, Seq<char>>(e@),
                }
            }),
    {
        let spec = match listen {
            Some(l) => to_string(l),
            None => self.socket_path(xdg_runtime_dir),
        };
        match Listen::parse(spec.as_str()) {
            Ok(Listen::Unix(p)) => Ok(p),
            Ok(Listen::Stdio) => Err(to_string("daemon cannot listen on stdio; use `vpsd attach`")),
            Err(e) => Err(e.message()),
        }
    }
}

/// What `vpsd daemon` binds is always the socket path of a spec that parses
/// to a unix socket, so never a network address.
pub proof fn lemma_daemon_binds_only_sockets(spec: Seq<char>)
    ensures
        daemon_socket_spec(spec) is Ok ==> parse_spec(spec) == ListenOutcome::Unix(
            daemon_socket_spec(spec)->Ok_0,
        ) && !looks_like_network_spec(trim(spec)),
{
}

/// Whatever mode is configured, the socket gets no permission for others.
pub proof fn lemma_never_world_accessible(v: u32)
    ensures
        (v & !WORLD_BITS) & WORLD_BITS == 0,
        v & WORLD_BITS == 0 ==> v & !WORLD_BITS == v,
{
    assert((v & !0o007u32) & 0o007u32 == 0) by (bit_vector);
    assert(v & 0o007u32 == 0 ==> v & !0o007u32 == v) by (bit_vector);
}

} // verus!
