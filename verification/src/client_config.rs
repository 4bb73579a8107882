//! Client settings (`~/.config/vps/config.toml`) and the ssh command lines
//! derived from them.
//!
//! Sizes that the file holds as floating-point numbers are held here as what
//! the command lines use: window sizes rounded to whole pixels, and the font
//! size as its decimal text together with whether it is positive.
use vstd::prelude::*;
use crate::paths::{config_dir, config_dir_spec, join, opt_view, path_join};
use crate::text::{
    clone_args, decimal, push_arg, push_str, strs, to_string, u64_to_decimal,
};

verus! {

#[derive(Debug, Clone)]
pub struct Ssh {
    /// OpenSSH host alias (`Host` in `~/.ssh/config`).
    pub host: String,
    /// Extra argv inserted after `ssh` and before `host` (e.g. `-tt`).
    pub args: Vec<String>,
    /// Remote attach command as **one** string. OpenSSH runs `$SHELL -c "<this>"`.
    pub remote: String,
    /// Extra argv for the session-list call (no tty is needed there).
    pub list_args: Vec<String>,
    /// Remote command that prints the session list as one JSON line.
    pub list: String,
}

#[derive(Debug, Clone)]
pub struct Window {
    /// Initial width in pixels (the configured width, rounded).
    pub width: u32,
    /// Initial height in pixels (the configured height, rounded).
    pub height: u32,
    /// Wayland app id (niri `app-id`).
    pub app_id: String,
}

#[derive(Debug, Clone)]
pub struct FontCfg {
    /// fontconfig family. Empty → the system monospace.
    pub family: String,
    /// Glyph size in pixels, as the decimal text of the configured number.
    pub size: String,
    /// Whether the configured glyph size is greater than zero.
    pub size_positive: bool,
    /// Extra fontconfig patterns to load.
    pub extras: Vec<String>,
}

#[derive(Debug, Clone)]
pub struct Term {
    pub term: String,
    pub colorterm: String,
}

#[derive(Debug, Clone)]
pub struct TerminalCfg {
    /// The terminal emulator the session opens in. Empty → chooser.
    pub program: String,
    /// Extra argv for it, before the ssh command.
    pub args: Vec<String>,
}

#[derive(Debug, Clone)]
pub struct Picker {
    /// `when_sessions`, `always` or `never`.
    pub mode: String,
}

#[derive(Debug, Clone)]
pub struct Colors {
    pub foreground: String,
    pub background: String,
    pub black: String,
    pub red: String,
    pub green: String,
    pub yellow: String,
    pub blue: String,
    pub magenta: String,
    pub cyan: String,
    pub white: String,
    pub bright_black: String,
    pub bright_red: String,
    pub bright_green: String,
    pub bright_yellow: String,
    pub bright_blue: String,
    pub bright_magenta: String,
    pub bright_cyan: String,
    pub bright_white: String,
    pub bright_foreground: Option<String>,
    pub dim_foreground: String,
    pub dim_black: String,
    pub dim_red: String,
    pub dim_green: String,
    pub dim_yellow: String,
    pub dim_blue: String,
    pub dim_magenta: String,
    pub dim_cyan: String,
    pub dim_white: String,
}

#[derive(Debug, Clone)]
pub struct Config {
    pub ssh: Ssh,
    pub terminal: TerminalCfg,
    pub picker: Picker,
    pub window: Window,
    pub font: FontCfg,
    pub term: Term,
    pub colors: Colors,
}

/// Which PTY a terminal window attaches to.
#[derive(Debug, Clone, Copy, PartialEq, Eq)]
pub enum AttachSpec {
    /// A new PTY.
    New,
    /// An existing PTY, by id.
    Id(u64),
}

/// What the remote attach command gets appended for a spec.
pub open spec fn attach_suffix(spec: AttachSpec) -> Seq<char> {
    match spec {
        AttachSpec::New => " --new"@,
        AttachSpec::Id(id) => " --id "@ + decimal(id as nat),
    }
}

impl Ssh {
    pub open spec fn argv_spec(&self) -> Seq<Seq<char>> {
        strs(self.args@) + seq![self.host@, self.remote@]
    }

    pub open spec fn attach_argv_spec(&self, spec: AttachSpec) -> Seq<Seq<char>> {
        strs(self.args@) + seq![self.host@, self.remote@ + attach_suffix(spec)]
    }

    pub open spec fn list_argv_spec(&self) -> Seq<Seq<char>> {
        strs(self.list_args@) + seq![self.host@, self.list@]
    }

    pub fn default_ssh() -> (s: Ssh)
        ensures
            s.host@ == "grok"@,
            strs(s.args@) == seq!["-tt"@],
            s.remote@ == "/home/tj/.local/bin/vpsd attach"@,
            strs(s.list_args@) == Seq::<Seq<char>>::empty(),
            s.list@ == "/home/tj/.local/bin/vpsd list"@,
    {
        let mut args: Vec<String> = Vec::new();
        push_arg(&mut args, to_string("-tt"));
        let s = Ssh {
            host: to_string("grok"),
            args,
            remote: to_string("/home/tj/.local/bin/vpsd attach"),
            list_args: Vec::new(),
            list: to_string("/home/tj/.local/bin/vpsd list"),
        };
        assert(strs(Seq::<String>::empty()).push("-tt"@) =~= seq!["-tt"@]);
        assert(strs(s.list_args@) =~= Seq::<Seq<char>>::empty());
        s
    }
}

fn append_host_and(a: &mut Vec<String>, host: &String, last: String)
    ensures
        strs(final(a)@) == strs(old(a)@) + seq![host@, last@],
{
    push_arg(a, host.clone());
    push_arg(a, last);
    assert(strs(old(a)@).push(host@).push(last@) =~= strs(old(a)@) + seq![host@, last@]);
}

impl Config {
    /// `ssh` arguments for the attach command as configured: args, host,
    /// remote.
    pub fn ssh_argv(&self) -> (r: Vec<String>)
        ensures
            strs(r@) == self.ssh.argv_spec(),
    {
        let mut a = clone_args(&self.ssh.args);
        append_host_and(&mut a, &self.ssh.host, self.ssh.remote.clone());
        a
    }

    /// `ssh` arguments that attach to `spec`: args, host, and the remote
    /// command with `--new` or `--id N` appended.
    pub fn ssh_attach_argv(&self, spec: AttachSpec) -> (r: Vec<String>)
        ensures
            strs(r@) == self.ssh.attach_argv_spec(spec),
    {
        let mut a = clone_args(&self.ssh.args);
        let mut remote = self.ssh.remote.clone();
        match spec {
            AttachSpec::New => push_str(&mut remote, " --new"),
            AttachSpec::Id(id) => {
                push_str(&mut remote, " --id ");
                let digits = u64_to_decimal(id);
                push_str(&mut remote, digits.as_str());
                assert(remote@ =~= self.ssh.remote@ + attach_suffix(spec));
            },
        }
        append_host_and(&mut a, &self.ssh.host, remote);
        a
    }

    /// `ssh` arguments that print the session list.
    pub fn ssh_list_argv(&self) -> (r: Vec<String>)
        ensures
            strs(r@) == self.ssh.list_argv_spec(),
    {
        let mut a = clone_args(&self.ssh.list_args);
        append_host_and(&mut a, &self.ssh.host, self.ssh.list.clone());
        a
    }

    pub open spec fn want_picker_spec(&self, sessions: nat) -> bool {
        if self.picker.mode@ == "always"@ {
            true
        } else if self.picker.mode@ == "never"@ {
            false
        } else {
            sessions > 0
        }
    }

    /// Whether the picker is shown for this many existing sessions:
    /// `always`, `never`, or (`when_sessions`) when there is at least one.
    pub fn want_picker(&self, sessions: usize) -> (b: bool)
        ensures
            b == self.want_picker_spec(sessions as nat),
    {
        if crate::text::str_eq(self.picker.mode.as_str(), "always") {
            true
        } else if crate::text::str_eq(self.picker.mode.as_str(), "never") {
            false
        } else {
            sessions > 0
        }
    }

    pub open spec fn term_env_spec(&self) -> Seq<(Seq<char>, Seq<char>)> {
        seq![("TERM"@, self.term.term@), ("COLORTERM"@, self.term.colorterm@)]
    }

    /// Environment for the terminal window: `TERM` and `COLORTERM`.
    pub fn term_env(&self) -> (r: Vec<(String, String)>)
        ensures
            r@.map_values(|p: (String, String)| (p.0@, p.1@)) == self.term_env_spec(),
    {
        let mut env: Vec<(String, String)> = Vec::new();
        env.push((to_string("TERM"), self.term.term.clone()));
        env.push((to_string("COLORTERM"), self.term.colorterm.clone()));
        assert(env@.map_values(|p: (String, String)| (p.0@, p.1@)) =~= self.term_env_spec());
        env
    }
}

impl Term {
    pub fn default_term() -> (t: Term)
        ensures
            t.term@ == "xterm-256color"@,
            t.colorterm@ == "truecolor"@,
    {
        Term { term: to_string("xterm-256color"), colorterm: to_string("truecolor") }
    }
}

impl Colors {
    /// The shipped red-ground palette.
    pub open spec fn is_default(&self) -> bool {
        &&& self.foreground@ == "#ede6de"@
        &&& self.background@ == "#241018"@
        &&& self.black@ == "#241018"@
        &&& self.red@ == "#e03818"@
        &&& self.green@ == "#3d9650"@
        &&& self.yellow@ == "#e0bc55"@
        &&& self.blue@ == "#1e8ae8"@
        &&& self.magenta@ == "#d47a82"@
        &&& self.cyan@ == "#16a8b6"@
        &&& self.white@ == "#ede6de"@
        &&& self.bright_black@ == "#4a2830"@
        &&& self.bright_red@ == "#e5563b"@
        &&& self.bright_green@ == "#5aa66a"@
        &&& self.bright_yellow@ == "#e5c66f"@
        &&& self.bright_blue@ == "#409ceb"@
        &&& self.bright_magenta@ == "#da8e95"@
        &&& self.bright_cyan@ == "#39b5c1"@
        &&& self.bright_white@ == "#b8c0c8"@
        &&& self.bright_foreground is None
        &&& self.dim_foreground@ == "#8e7a76"@
        &&& self.dim_black@ == "#14080c"@
        &&& self.dim_red@ == "#8a2010"@
        &&& self.dim_green@ == "#245830"@
        &&& self.dim_yellow@ == "#8a7030"@
        &&& self.dim_blue@ == "#145080"@
        &&& self.dim_magenta@ == "#804850"@
        &&& self.dim_cyan@ == "#0c6870"@
        &&& self.dim_white@ == "#6e6460"@
    }

    pub fn default_colors() -> (c: Colors)
        ensures
            c.is_default(),
    {
        Colors {
            foreground: to_string("#ede6de"),
            background: to_string("#241018"),
            black: to_string("#241018"),
            red: to_string("#e03818"),
            green: to_string("#3d9650"),
            yellow: to_string("#e0bc55"),
            blue: to_string("#1e8ae8"),
            magenta: to_string("#d47a82"),
            cyan: to_string("#16a8b6"),
            white: to_string("#ede6de"),
            bright_black: to_string("#4a2830"),
            bright_red: to_string("#e5563b"),
            bright_green: to_string("#5aa66a"),
            bright_yellow: to_string("#e5c66f"),
            bright_blue: to_string("#409ceb"),
            bright_magenta: to_string("#da8e95"),
            bright_cyan: to_string("#39b5c1"),
            bright_white: to_string("#b8c0c8"),
            bright_foreground: None,
            dim_foreground: to_string("#8e7a76"),
            dim_black: to_string("#14080c"),
            dim_red: to_string("#8a2010"),
            dim_green: to_string("#245830"),
            dim_yellow: to_string("#8a7030"),
            dim_blue: to_string("#145080"),
            dim_magenta: to_string("#804850"),
            dim_cyan: to_string("#0c6870"),
            dim_white: to_string("#6e6460"),
        }
    }
}

impl Config {
    /// The shipped settings: host `grok`, no terminal chosen yet, picker
    /// when sessions exist, a 1280×800 window with app id `vps`, the
    /// system monospace (no family named) at 18 px, `xterm-256color`, and the
    /// red-ground palette.
    pub open spec fn is_default(&self) -> bool {
        &&& self.ssh.host@ == "grok"@
        &&& strs(self.ssh.args@) == seq!["-tt"@]
        &&& self.ssh.remote@ == "/home/tj/.local/bin/vpsd attach"@
        &&& strs(self.ssh.list_args@) == Seq::<Seq<char>>::empty()
        &&& self.ssh.list@ == "/home/tj/.local/bin/vpsd list"@
        &&& self.terminal.program@ == Seq::<char>::empty()
        &&& strs(self.terminal.args@) == Seq::<Seq<char>>::empty()
        &&& self.picker.mode@ == "when_sessions"@
        &&& self.window.width == 1280
        &&& self.window.height == 800
        &&& self.window.app_id@ == "vps"@
        &&& self.font.family@ == Seq::<char>::empty()
        &&& self.font.size@ == "18"@
        &&& self.font.size_positive
        &&& strs(self.font.extras@) == Seq::<Seq<char>>::empty()
        &&& self.term.term@ == "xterm-256color"@
        &&& self.term.colorterm@ == "truecolor"@
        &&& self.colors.is_default()
    }

    pub fn default_config() -> (c: Config)
        ensures
            c.is_default(),
    {
        let c = Config {
            ssh: Ssh::default_ssh(),
            terminal: TerminalCfg { program: String::new(), args: Vec::new() },
            picker: Picker { mode: to_string("when_sessions") },
            window: Window { width: 1280, height: 800, app_id: to_string("vps") },
            font: FontCfg {
                family: String::new(),
                size: to_string("18"),
                size_positive: true,
                extras: Vec::new(),
            },
            term: Term::default_term(),
            colors: Colors::default_colors(),
        };
        assert(strs(c.terminal.args@) =~= Seq::<Seq<char>>::empty());
        assert(strs(c.font.extras@) =~= Seq::<Seq<char>>::empty());
        c
    }
}

impl Default for Config {
    fn default() -> (c: Config)
        ensures
            c.is_default(),
    {
        Config::default_config()
    }
}

pub open spec fn config_path_spec(xdg: Option<Seq<char>>, home: Option<Seq<char>>) -> Seq<char> {
    join(config_dir_spec(xdg, home), "config.toml"@)
}

/// The client config file, given `$XDG_CONFIG_HOME` and `$HOME`.
pub fn config_path(xdg_config_home: Option<&str>, home: Option<&str>) -> (r: String)
    ensures
        r@ == config_path_spec(opt_view(xdg_config_home), opt_view(home)),
{
    let dir = config_dir(xdg_config_home, home);
    path_join(dir.as_str(), "config.toml")
}

/// With the default picker mode the picker shows exactly when a session
/// exists; with none, a new session starts straight away.
pub proof fn lemma_picker_when_sessions(cfg: Config, n: nat)
    requires
        cfg.picker.mode@ == "when_sessions"@,
    ensures
        cfg.want_picker_spec(n) == (n > 0),
{
    reveal_strlit("when_sessions");
    reveal_strlit("always");
    reveal_strlit("never");
    assert("when_sessions"@[0] != "always"@[0]);
    assert("when_sessions"@[0] != "never"@[0]);
}

} // verus!
