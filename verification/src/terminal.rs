//! The command line that opens the user's terminal on `ssh … vpsd attach`,
//! and how a configured terminal program is found.
//!
//! Flags are each emulator's documented class/app-id, size, font and color
//! options. Looking at the filesystem (is a candidate an executable file?)
//! is left to the caller, which hands the answers back.
use vstd::prelude::*;
use crate::client_config::{AttachSpec, Colors, Config};
use crate::paths::{basename, basename_spec, join, path_join};
use crate::text::{
    cat, contains_char, decimal, extend_args, push_arg, push_str, split_char, split_on, str_eq,
    strip_leading, strip_leading_char, strs, to_string, trim, trim_str, u64_to_decimal,
};

verus! {

/// Basenames launched with a documented class/app-id flag.
pub open spec fn known_spec() -> Seq<Seq<char>> {
    seq!["kitty"@, "foot"@, "alacritty"@, "ghostty"@, "wezterm"@]
}

/// A known terminal found on `PATH`.
#[derive(Debug, Clone, PartialEq, Eq)]
pub struct Detected {
    pub name: String,
    pub path: String,
}

/// `-o key=value`.
pub open spec fn opt(k: Seq<char>, v: Seq<char>) -> Seq<Seq<char>> {
    seq!["-o"@, k + "="@ + v]
}

/// `-o colors.key=RRGGBB`.
pub open spec fn foot_opt(k: Seq<char>, v: Seq<char>) -> Seq<Seq<char>> {
    seq!["-o"@, "colors."@ + k + "="@ + hex_plain_spec(v)]
}

pub open spec fn kitty_opts(pairs: Seq<(Seq<char>, Seq<char>)>) -> Seq<Seq<char>>
    decreases pairs.len(),
{
    if pairs.len() == 0 {
        Seq::empty()
    } else {
        kitty_opts(pairs.drop_last()) + opt(pairs.last().0, pairs.last().1)
    }
}

pub open spec fn foot_opts(pairs: Seq<(Seq<char>, Seq<char>)>) -> Seq<Seq<char>>
    decreases pairs.len(),
{
    if pairs.len() == 0 {
        Seq::empty()
    } else {
        foot_opts(pairs.drop_last()) + foot_opt(pairs.last().0, pairs.last().1)
    }
}

/// A color as foot wants it: trimmed, without leading `#`.
pub open spec fn hex_plain_spec(v: Seq<char>) -> Seq<char> {
    strip_leading(trim(v), '#')
}

/// kitty's 16 palette slots plus foreground and background.
pub open spec fn kitty_color_pairs(c: Colors) -> Seq<(Seq<char>, Seq<char>)> {
    seq![
        ("foreground"@, c.foreground@),
        ("background"@, c.background@),
        ("color0"@, c.black@),
        ("color1"@, c.red@),
        ("color2"@, c.green@),
        ("color3"@, c.yellow@),
        ("color4"@, c.blue@),
        ("color5"@, c.magenta@),
        ("color6"@, c.cyan@),
        ("color7"@, c.white@),
        ("color8"@, c.bright_black@),
        ("color9"@, c.bright_red@),
        ("color10"@, c.bright_green@),
        ("color11"@, c.bright_yellow@),
        ("color12"@, c.bright_blue@),
        ("color13"@, c.bright_magenta@),
        ("color14"@, c.bright_cyan@),
        ("color15"@, c.bright_white@),
    ]
}

/// foot's regular and bright palettes plus foreground and background.
pub open spec fn foot_color_pairs(c: Colors) -> Seq<(Seq<char>, Seq<char>)> {
    seq![
        ("foreground"@, c.foreground@),
        ("background"@, c.background@),
        ("regular0"@, c.black@),
        ("regular1"@, c.red@),
        ("regular2"@, c.green@),
        ("regular3"@, c.yellow@),
        ("regular4"@, c.blue@),
        ("regular5"@, c.magenta@),
        ("regular6"@, c.cyan@),
        ("regular7"@, c.white@),
        ("bright0"@, c.bright_black@),
        ("bright1"@, c.bright_red@),
        ("bright2"@, c.bright_green@),
        ("bright3"@, c.bright_yellow@),
        ("bright4"@, c.bright_blue@),
        ("bright5"@, c.bright_magenta@),
        ("bright6"@, c.bright_cyan@),
        ("bright7"@, c.bright_white@),
    ]
}

pub open spec fn family_spec(cfg: Config) -> Seq<char> {
    trim(cfg.font.family@)
}

/// kitty: class, detach, window size, font, palette. `close_on_child_death`
/// is left at its default so a window survives an ssh that dies at startup.
pub open spec fn kitty_flags_spec(cfg: Config) -> Seq<Seq<char>> {
    seq!["--class"@, cfg.window.app_id@, "--detach"@] + opt("remember_window_size"@, "no"@) + opt(
        "initial_window_width"@,
        decimal(cfg.window.width as nat),
    ) + opt("initial_window_height"@, decimal(cfg.window.height as nat)) + opt(
        "font_size"@,
        cfg.font.size@,
    ) + (if family_spec(cfg).len() > 0 {
        opt("font_family"@, family_spec(cfg))
    } else {
        Seq::empty()
    }) + kitty_opts(kitty_color_pairs(cfg.colors)) + opt("confirm_os_window_close"@, "0"@)
}

/// foot: app id, window size in pixels, font, palette.
pub open spec fn foot_flags_spec(cfg: Config) -> Seq<Seq<char>> {
    seq![
        "--app-id="@ + cfg.window.app_id@,
        "--window-size-pixels="@ + decimal(cfg.window.width as nat) + "x"@ + decimal(
            cfg.window.height as nat,
        ),
    ] + (if family_spec(cfg).len() > 0 {
        seq!["--font="@ + family_spec(cfg) + ":size="@ + cfg.font.size@]
    } else {
        Seq::empty()
    }) + foot_opts(foot_color_pairs(cfg.colors))
}

/// ghostty: class, background, foreground, font size when positive, font
/// family when set.
pub open spec fn ghostty_flags_spec(cfg: Config) -> Seq<Seq<char>> {
    seq![
        "--class="@ + cfg.window.app_id@,
        "--background="@ + cfg.colors.background@,
        "--foreground="@ + cfg.colors.foreground@,
    ] + (if cfg.font.size_positive {
        seq!["--font-size="@ + cfg.font.size@]
    } else {
        Seq::empty()
    }) + (if family_spec(cfg).len() > 0 {
        seq!["--font-family="@ + family_spec(cfg)]
    } else {
        Seq::empty()
    })
}

pub open spec fn ssh_cmd_spec(cfg: Config, spec: AttachSpec) -> Seq<Seq<char>> {
    seq!["ssh"@] + cfg.ssh.attach_argv_spec(spec)
}

pub open spec fn no_terminal_msg() -> Seq<char> {
    "no terminal chosen — pick one (t) or open settings"@
}

/// The argv that opens the chosen terminal on the session: the program,
/// its recipe's flags, the configured extra args, then `ssh … attach`.
pub open spec fn attach_argv_spec(cfg: Config, spec: AttachSpec) -> Result<
    Seq<Seq<char>>,
    Seq<char>,
> {
    let program = trim(cfg.terminal.program@);
    if program.len() == 0 {
        Err(no_terminal_msg())
    } else {
        let name = basename_spec(program);
        let ssh = ssh_cmd_spec(cfg, spec);
        let extra = strs(cfg.terminal.args@);
        let head = seq![program];
        Ok(
            if name == "kitty"@ {
                head + kitty_flags_spec(cfg) + extra + ssh
            } else if name == "foot"@ || name == "footclient"@ {
                head + foot_flags_spec(cfg) + extra + ssh
            } else if name == "alacritty"@ {
                head + seq!["--class"@, cfg.window.app_id@] + extra + seq!["-e"@] + ssh
            } else if name == "ghostty"@ {
                head + ghostty_flags_spec(cfg) + extra + seq!["-e"@] + ssh
            } else if name == "wezterm"@ || name == "wezterm-gui"@ {
                head + seq!["start"@, "--class"@, cfg.window.app_id@] + extra + seq!["--"@] + ssh
            } else {
                head + extra + ssh
            },
        )
    }
}

pub open spec fn argv_result(r: Result<Vec<String>, String>) -> Result<Seq<Seq<char>>, Seq<char>> {
    match r {
        Ok(v) => Ok(strs(v@)),
        Err(e) => Err(e@),
    }
}

fn push_lit(a: &mut Vec<String>, s: &str)
    ensures
        strs(final(a)@) == strs(old(a)@).push(s@),
{
    push_arg(a, to_string(s));
}

fn push_kitty_opt(a: &mut Vec<String>, k: &str, v: &str)
    ensures
        strs(final(a)@) == strs(old(a)@) + opt(k@, v@),
{
    push_lit(a, "-o");
    let mut kv = cat(k, "=");
    push_str(&mut kv, v);
    push_arg(a, kv);
    assert(strs(old(a)@).push("-o"@).push(k@ + "="@ + v@) =~= strs(old(a)@) + opt(k@, v@));
}

/// `s.trim().trim_start_matches('#')`.
pub fn hex_plain(s: &str) -> (r: &str)
    ensures
        r@ == hex_plain_spec(s@),
{
    strip_leading_char(trim_str(s), '#')
}

fn push_foot_opt(a: &mut Vec<String>, k: &str, v: &str)
    ensures
        strs(final(a)@) == strs(old(a)@) + foot_opt(k@, v@),
{
    push_lit(a, "-o");
    let mut kv = cat("colors.", k);
    push_str(&mut kv, "=");
    push_str(&mut kv, hex_plain(v));
    push_arg(a, kv);
    assert(strs(old(a)@).push("-o"@).push("colors."@ + k@ + "="@ + hex_plain_spec(v@))
        =~= strs(old(a)@) + foot_opt(k@, v@));
}

pub open spec fn pairs_view(p: Seq<(&str, &str)>) -> Seq<(Seq<char>, Seq<char>)> {
    p.map_values(|x: (&str, &str)| (x.0@, x.1@))
}

fn push_kitty_opts(a: &mut Vec<String>, pairs: &Vec<(&str, &str)>)
    ensures
        strs(final(a)@) == strs(old(a)@) + kitty_opts(pairs_view(pairs@)),
{
    let n = pairs.len();
    let mut i: usize = 0;
    while i < n
        invariant
            i <= n,
            n == pairs@.len(),
            strs(a@) == strs(old(a)@) + kitty_opts(pairs_view(pairs@.subrange(0, i as int))),
        decreases n - i,
    {
        let (k, v) = pairs[i];
        push_kitty_opt(a, k, v);
        proof {
            let pv = pairs_view(pairs@.subrange(0, i + 1));
            assert(pv.drop_last() =~= pairs_view(pairs@.subrange(0, i as int)));
            assert(pv.last() == (k@, v@));
        }
        i = i + 1;
    }
    assert(pairs@.subrange(0, n as int) =~= pairs@);
}

fn push_foot_opts(a: &mut Vec<String>, pairs: &Vec<(&str, &str)>)
    ensures
        strs(final(a)@) == strs(old(a)@) + foot_opts(pairs_view(pairs@)),
{
    let n = pairs.len();
    let mut i: usize = 0;
    while i < n
        invariant
            i <= n,
            n == pairs@.len(),
            strs(a@) == strs(old(a)@) + foot_opts(pairs_view(pairs@.subrange(0, i as int))),
        decreases n - i,
    {
        let (k, v) = pairs[i];
        push_foot_opt(a, k, v);
        proof {
            let pv = pairs_view(pairs@.subrange(0, i + 1));
            assert(pv.drop_last() =~= pairs_view(pairs@.subrange(0, i as int)));
            assert(pv.last() == (k@, v@));
        }
        i = i + 1;
    }
    assert(pairs@.subrange(0, n as int) =~= pairs@);
}

fn kitty_colors(c: &Colors) -> (r: Vec<(&str, &str)>)
    ensures
        pairs_view(r@) == kitty_color_pairs(*c),
{
    let r = vec![
        ("foreground", c.foreground.as_str()),
        ("background", c.background.as_str()),
        ("color0", c.black.as_str()),
        ("color1", c.red.as_str()),
        ("color2", c.green.as_str()),
        ("color3", c.yellow.as_str()),
        ("color4", c.blue.as_str()),
        ("color5", c.magenta.as_str()),
        ("color6", c.cyan.as_str()),
        ("color7", c.white.as_str()),
        ("color8", c.bright_black.as_str()),
        ("color9", c.bright_red.as_str()),
        ("color10", c.bright_green.as_str()),
        ("color11", c.bright_yellow.as_str()),
        ("color12", c.bright_blue.as_str()),
        ("color13", c.bright_magenta.as_str()),
        ("color14", c.bright_cyan.as_str()),
        ("color15", c.bright_white.as_str()),
    ];
    assert(pairs_view(r@) =~= kitty_color_pairs(*c));
    r
}

fn foot_colors(c: &Colors) -> (r: Vec<(&str, &str)>)
    ensures
        pairs_view(r@) == foot_color_pairs(*c),
{
    let r = vec![
        ("foreground", c.foreground.as_str()),
        ("background", c.background.as_str()),
        ("regular0", c.black.as_str()),
        ("regular1", c.red.as_str()),
        ("regular2", c.green.as_str()),
        ("regular3", c.yellow.as_str()),
        ("regular4", c.blue.as_str()),
        ("regular5", c.magenta.as_str()),
        ("regular6", c.cyan.as_str()),
        ("regular7", c.white.as_str()),
        ("bright0", c.bright_black.as_str()),
        ("bright1", c.bright_red.as_str()),
        ("bright2", c.bright_green.as_str()),
        ("bright3", c.bright_yellow.as_str()),
        ("bright4", c.bright_blue.as_str()),
        ("bright5", c.bright_magenta.as_str()),
        ("bright6", c.bright_cyan.as_str()),
        ("bright7", c.bright_white.as_str()),
    ];
    assert(pairs_view(r@) =~= foot_color_pairs(*c));
    r
}

/// kitty's flags for this config.
pub fn kitty_flags(cfg: &Config) -> (r: Vec<String>)
    ensures
        strs(r@) == kitty_flags_spec(*cfg),
{
    let mut a: Vec<String> = Vec::new();
    push_lit(&mut a, "--class");
    push_arg(&mut a, cfg.window.app_id.clone());
    push_lit(&mut a, "--detach");
    let ghost s0 = strs(a@);
    assert(s0 =~= seq!["--class"@, cfg.window.app_id@, "--detach"@]);
    push_kitty_opt(&mut a, "remember_window_size", "no");
    let w = u64_to_decimal(cfg.window.width as u64);
    push_kitty_opt(&mut a, "initial_window_width", w.as_str());
    let h = u64_to_decimal(cfg.window.height as u64);
    push_kitty_opt(&mut a, "initial_window_height", h.as_str());
    push_kitty_opt(&mut a, "font_size", cfg.font.size.as_str());
    let ghost s1 = strs(a@);
    let family = trim_str(cfg.font.family.as_str());
    if family.unicode_len() > 0 {
        push_kitty_opt(&mut a, "font_family", family);
    } else {
        assert(strs(a@) =~= s1 + Seq::<Seq<char>>::empty());
    }
    let ghost s2 = strs(a@);
    let colors = kitty_colors(&cfg.colors);
    push_kitty_opts(&mut a, &colors);
    push_kitty_opt(&mut a, "confirm_os_window_close", "0");
    a
}

/// foot's flags for this config.
pub fn foot_flags(cfg: &Config) -> (r: Vec<String>)
    ensures
        strs(r@) == foot_flags_spec(*cfg),
{
    let mut a: Vec<String> = Vec::new();
    push_arg(&mut a, cat("--app-id=", cfg.window.app_id.as_str()));
    let mut size = to_string("--window-size-pixels=");
    let w = u64_to_decimal(cfg.window.width as u64);
    push_str(&mut size, w.as_str());
    push_str(&mut size, "x");
    let h = u64_to_decimal(cfg.window.height as u64);
    push_str(&mut size, h.as_str());
    push_arg(&mut a, size);
    let ghost s0 = strs(a@);
    assert(s0 =~= seq![
        "--app-id="@ + cfg.window.app_id@,
        "--window-size-pixels="@ + decimal(cfg.window.width as nat) + "x"@ + decimal(
            cfg.window.height as nat,
        ),
    ]);
    let family = trim_str(cfg.font.family.as_str());
    if family.unicode_len() > 0 {
        let mut f = cat("--font=", family);
        push_str(&mut f, ":size=");
        push_str(&mut f, cfg.font.size.as_str());
        push_arg(&mut a, f);
        assert(strs(a@) =~= s0 + seq!["--font="@ + family@ + ":size="@ + cfg.font.size@]);
    } else {
        assert(strs(a@) =~= s0 + Seq::<Seq<char>>::empty());
    }
    let colors = foot_colors(&cfg.colors);
    push_foot_opts(&mut a, &colors);
    a
}

/// ghostty's flags for this config.
pub fn ghostty_flags(cfg: &Config) -> (r: Vec<String>)
    ensures
        strs(r@) == ghostty_flags_spec(*cfg),
{
    let mut a: Vec<String> = Vec::new();
    push_arg(&mut a, cat("--class=", cfg.window.app_id.as_str()));
    push_arg(&mut a, cat("--background=", cfg.colors.background.as_str()));
    push_arg(&mut a, cat("--foreground=", cfg.colors.foreground.as_str()));
    let ghost s0 = strs(a@);
    assert(s0 =~= seq![
        "--class="@ + cfg.window.app_id@,
        "--background="@ + cfg.colors.background@,
        "--foreground="@ + cfg.colors.foreground@,
    ]);
    if cfg.font.size_positive {
        push_arg(&mut a, cat("--font-size=", cfg.font.size.as_str()));
        assert(strs(a@) =~= s0 + seq!["--font-size="@ + cfg.font.size@]);
    } else {
        assert(strs(a@) =~= s0 + Seq::<Seq<char>>::empty());
    }
    let ghost s1 = strs(a@);
    let family = trim_str(cfg.font.family.as_str());
    if family.unicode_len() > 0 {
        push_arg(&mut a, cat("--font-family=", family));
        assert(strs(a@) =~= s1 + seq!["--font-family="@ + family@]);
    } else {
        assert(strs(a@) =~= s1 + Seq::<Seq<char>>::empty());
    }
    a
}

/// `ssh` followed by the attach arguments.
pub fn ssh_cmd(cfg: &Config, spec: AttachSpec) -> (r: Vec<String>)
    ensures
        strs(r@) == ssh_cmd_spec(*cfg, spec),
{
    let mut a: Vec<String> = Vec::new();
    push_lit(&mut a, "ssh");
    let rest = cfg.ssh_attach_argv(spec);
    extend_args(&mut a, &rest);
    assert(strs(Seq::<String>::empty()).push("ssh"@) =~= seq!["ssh"@]);
    a
}

/// The argv that opens the chosen terminal on `ssh … vpsd attach`.
/// Fails when no terminal is chosen.
pub fn attach_argv(cfg: &Config, spec: AttachSpec) -> (r: Result<Vec<String>, String>)
    ensures
        argv_result(r) == attach_argv_spec(*cfg, spec),
{
    let program = trim_str(cfg.terminal.program.as_str());
    if program.unicode_len() == 0 {
        return Err(to_string("no terminal chosen — pick one (t) or open settings"));
    }
    let name = basename(program);
    let ssh = ssh_cmd(cfg, spec);
    let extra = &cfg.terminal.args;
    let mut a: Vec<String> = Vec::new();
    push_arg(&mut a, to_string(program));
    let ghost head = strs(a@);
    assert(head =~= seq![program@]);
    if str_eq(name, "kitty") {
        let f = kitty_flags(cfg);
        extend_args(&mut a, &f);
        extend_args(&mut a, extra);
        extend_args(&mut a, &ssh);
    } else if str_eq(name, "foot") || str_eq(name, "footclient") {
        let f = foot_flags(cfg);
        extend_args(&mut a, &f);
        extend_args(&mut a, extra);
        extend_args(&mut a, &ssh);
    } else if str_eq(name, "alacritty") {
        push_lit(&mut a, "--class");
        push_arg(&mut a, cfg.window.app_id.clone());
        assert(strs(a@) =~= head + seq!["--class"@, cfg.window.app_id@]);
        extend_args(&mut a, extra);
        let ghost before_e = strs(a@);
        push_lit(&mut a, "-e");
        assert(strs(a@) =~= before_e + seq!["-e"@]);
        extend_args(&mut a, &ssh);
    } else if str_eq(name, "ghostty") {
        let f = ghostty_flags(cfg);
        extend_args(&mut a, &f);
        extend_args(&mut a, extra);
        let ghost before_e = strs(a@);
        push_lit(&mut a, "-e");
        assert(strs(a@) =~= before_e + seq!["-e"@]);
        extend_args(&mut a, &ssh);
    } else if str_eq(name, "wezterm") || str_eq(name, "wezterm-gui") {
        push_lit(&mut a, "start");
        push_lit(&mut a, "--class");
        push_arg(&mut a, cfg.window.app_id.clone());
        assert(strs(a@) =~= head + seq!["start"@, "--class"@, cfg.window.app_id@]);
        extend_args(&mut a, extra);
        let ghost before_dash = strs(a@);
        push_lit(&mut a, "--");
        assert(strs(a@) =~= before_dash + seq!["--"@]);
        extend_args(&mut a, &ssh);
    } else {
        extend_args(&mut a, extra);
        extend_args(&mut a, &ssh);
    }
    Ok(a)
}

// ---------------------------------------------------------------------------
// Finding the terminal program
// ---------------------------------------------------------------------------
/// Paths tried for `program`: itself when it holds a `/`, else `program`
/// joined to each entry of the `PATH` value, in order.
pub open spec fn candidates_spec(program: Seq<char>, path_var: Seq<char>) -> Seq<Seq<char>> {
    if program.contains('/') {
        seq![program]
    } else {
        split_char(path_var, ':').map_values(|d: Seq<char>| join(d, program))
    }
}

/// Index of the first `true`, if any.
pub open spec fn first_true(b: Seq<bool>) -> Option<int>
    decreases b.len(),
{
    if b.len() == 0 {
        None
    } else {
        match first_true(b.drop_last()) {
            Some(i) => Some(i),
            None => if b.last() {
                Some(b.len() - 1)
            } else {
                None
            },
        }
    }
}

/// The resolved program given which candidates are executable files: the
/// first one that is, or why none is.
pub open spec fn resolve_spec(program: Seq<char>, candidates: Seq<Seq<char>>, runnable: Seq<bool>) -> Result<
    Seq<char>,
    Seq<char>,
> {
    match first_true(runnable) {
        Some(i) => Ok(candidates[i]),
        None => if program.contains('/') {
            Err(program + " is not an executable"@)
        } else {
            Err(program + " not found on PATH"@)
        },
    }
}

pub open spec fn str_result(r: Result<String, String>) -> Result<Seq<char>, Seq<char>> {
    match r {
        Ok(s) => Ok(s@),
        Err(e) => Err(e@),
    }
}

/// The paths to check for `program`, given the value of `$PATH`.
pub fn program_candidates(program: &str, path_var: &str) -> (r: Vec<String>)
    ensures
        strs(r@) == candidates_spec(program@, path_var@),
{
    let mut out: Vec<String> = Vec::new();
    if contains_char(program, '/') {
        push_arg(&mut out, to_string(program));
        assert(strs(out@) =~= seq![program@]);
        return out;
    }
    let dirs = split_on(path_var, ':');
    let n = dirs.len();
    let mut i: usize = 0;
    while i < n
        invariant
            i <= n,
            n == dirs@.len(),
            strs(dirs@) == split_char(path_var@, ':'),
            strs(out@) == strs(dirs@.subrange(0, i as int)).map_values(
                |d: Seq<char>| join(d, program@),
            ),
        decreases n - i,
    {
        push_arg(&mut out, path_join(dirs[i].as_str(), program));
        assert(strs(dirs@.subrange(0, i + 1)).map_values(|d: Seq<char>| join(d, program@))
            =~= strs(dirs@.subrange(0, i as int)).map_values(|d: Seq<char>| join(d, program@)).push(
            join(dirs@[i as int]@, program@),
        ));
        i = i + 1;
    }
    assert(dirs@.subrange(0, n as int) =~= dirs@);
    out
}

fn first_runnable(runnable: &Vec<bool>) -> (r: Option<usize>)
    ensures
        match r {
            Some(i) => first_true(runnable@) == Some(i as int) && i < runnable@.len(),
            None => first_true(runnable@) is None,
        },
{
    let n = runnable.len();
    let mut i: usize = 0;
    while i < n
        invariant
            i <= n,
            n == runnable@.len(),
            first_true(runnable@.subrange(0, i as int)) is None,
        decreases n - i,
    {
        proof {
            assert(runnable@.subrange(0, i + 1).drop_last() =~= runnable@.subrange(0, i as int));
        }
        if runnable[i] {
            proof {
                lemma_first_true_prefix(runnable@, i as int + 1);
            }
            return Some(i);
        }
        i = i + 1;
    }
    assert(runnable@.subrange(0, n as int) =~= runnable@);
    None
}

/// A `Some` found in a prefix stays the answer for the whole sequence.
proof fn lemma_first_true_prefix(b: Seq<bool>, k: int)
    requires
        0 <= k <= b.len(),
        first_true(b.subrange(0, k)) is Some,
    ensures
        first_true(b) == first_true(b.subrange(0, k)),
    decreases b.len() - k,
{
    if k < b.len() {
        assert(b.subrange(0, k + 1).drop_last() =~= b.subrange(0, k));
        lemma_first_true_prefix(b, k + 1);
    } else {
        assert(b.subrange(0, k) =~= b);
    }
}

/// The program to run: the first candidate that is an executable file.
/// `runnable[i]` tells whether `candidates[i]` is one.
pub fn resolve_from(program: &str, candidates: &Vec<String>, runnable: &Vec<bool>) -> (r: Result<
    String,
    String,
>)
    requires
        runnable@.len() == candidates@.len(),
    ensures
        str_result(r) == resolve_spec(program@, strs(candidates@), runnable@),
{
    match first_runnable(runnable) {
        Some(i) => Ok(candidates[i].clone()),
        None => {
            if contains_char(program, '/') {
                Err(cat(program, " is not an executable"))
            } else {
                Err(cat(program, " not found on PATH"))
            }
        },
    }
}

pub open spec fn is_runnable_spec(program: Seq<char>, resolved: Result<Seq<char>, Seq<char>>) -> bool {
    program.len() > 0 && resolved is Ok
}

/// A terminal can be launched: a name is given and it resolved.
pub fn program_is_runnable(program: &str, resolved: &Result<String, String>) -> (b: bool)
    ensures
        b == is_runnable_spec(program@, str_result(*resolved)),
{
    program.unicode_len() > 0 && resolved.is_ok()
}

/// The configured terminal program, trimmed.
pub fn chosen_program(cfg: &Config) -> (r: &str)
    ensures
        r@ == trim(cfg.terminal.program@),
{
    trim_str(cfg.terminal.program.as_str())
}

/// The chooser is shown unless the configured program resolves.
/// `resolved` is the resolution of `chosen_program(cfg)`.
pub fn needs_chooser(cfg: &Config, resolved: &Result<String, String>) -> (b: bool)
    ensures
        b == !is_runnable_spec(trim(cfg.terminal.program@), str_result(*resolved)),
{
    !program_is_runnable(chosen_program(cfg), resolved)
}

pub open spec fn missing_message_spec(program: Seq<char>, resolved: Result<Seq<char>, Seq<char>>) -> Option<
    Seq<char>,
> {
    if program.len() == 0 {
        None
    } else {
        match resolved {
            Ok(_) => None,
            Err(e) => Some(e + " — pick another terminal"@),
        }
    }
}

/// Why the chooser is showing: `None` on first run (no program) or when the
/// program resolves. `resolved` is the resolution of `chosen_program(cfg)`.
pub fn missing_terminal_message(cfg: &Config, resolved: &Result<String, String>) -> (r: Option<
    String,
>)
    ensures
        match r {
            Some(s) => missing_message_spec(trim(cfg.terminal.program@), str_result(*resolved))
                == Some(s@),
            None => missing_message_spec(trim(cfg.terminal.program@), str_result(*resolved))
                is None,
        },
{
    let program = chosen_program(cfg);
    if program.unicode_len() == 0 {
        return None;
    }
    match resolved {
        Ok(_) => None,
        Err(e) => Some(cat(e.as_str(), " — pick another terminal")),
    }
}

/// For each known terminal name, in order, the paths to check on `$PATH`.
pub fn detect_candidates(path_var: &str) -> (r: Vec<Vec<String>>)
    ensures
        r@.len() == known_spec().len(),
        forall|k: int|
            0 <= k < r@.len() ==> strs(#[trigger] r@[k]@) == candidates_spec(
                known_spec()[k],
                path_var@,
            ),
{
    let names = vec!["kitty", "foot", "alacritty", "ghostty", "wezterm"];
    proof {
        reveal_strlit("kitty");
        reveal_strlit("foot");
        reveal_strlit("alacritty");
        reveal_strlit("ghostty");
        reveal_strlit("wezterm");
    }
    let mut out: Vec<Vec<String>> = Vec::new();
    let mut k: usize = 0;
    while k < 5
        invariant
            k <= 5,
            names@.len() == 5,
            forall|j: int| 0 <= j < 5 ==> (#[trigger] names@[j])@ == known_spec()[j],
            out@.len() == k,
            forall|j: int|
                0 <= j < k ==> strs(#[trigger] out@[j]@) == candidates_spec(
                    known_spec()[j],
                    path_var@,
                ),
        decreases 5 - k,
    {
        out.push(program_candidates(names[k], path_var));
        k = k + 1;
    }
    out
}

pub open spec fn detected_spec(
    cands: Seq<Seq<Seq<char>>>,
    runnable: Seq<Seq<bool>>,
) -> Seq<(Seq<char>, Seq<char>)>
    decreases cands.len(),
{
    if cands.len() == 0 || runnable.len() != cands.len() {
        Seq::empty()
    } else {
        let k = cands.len() - 1;
        let prev = detected_spec(cands.drop_last(), runnable.drop_last());
        match first_true(runnable[k]) {
            Some(i) => prev.push((known_spec()[k], cands[k][i])),
            None => prev,
        }
    }
}

pub open spec fn detected_view(d: Seq<Detected>) -> Seq<(Seq<char>, Seq<char>)> {
    d.map_values(|x: Detected| (x.name@, x.path@))
}

/// Known terminals found: for each name in order, its first executable
/// candidate. `runnable[k][i]` tells whether `cands[k][i]` is an executable
/// file; `cands` is what `detect_candidates` gave.
pub fn detect_pick(cands: &Vec<Vec<String>>, runnable: &Vec<Vec<bool>>) -> (r: Vec<Detected>)
    requires
        cands@.len() == known_spec().len(),
        runnable@.len() == cands@.len(),
        forall|k: int| 0 <= k < cands@.len() ==> (#[trigger] runnable@[k])@.len() == cands@[k]@.len(),
    ensures
        detected_view(r@) == detected_spec(
            cands@.map_values(|v: Vec<String>| strs(v@)),
            runnable@.map_values(|v: Vec<bool>| v@),
        ),
{
    let names = vec!["kitty", "foot", "alacritty", "ghostty", "wezterm"];
    proof {
        reveal_strlit("kitty");
        reveal_strlit("foot");
        reveal_strlit("alacritty");
        reveal_strlit("ghostty");
        reveal_strlit("wezterm");
    }
    let ghost cv = cands@.map_values(|v: Vec<String>| strs(v@));
    let ghost rv = runnable@.map_values(|v: Vec<bool>| v@);
    let mut out: Vec<Detected> = Vec::new();
    let mut k: usize = 0;
    assert(cv.subrange(0, 0) =~= Seq::<Seq<Seq<char>>>::empty());
    while k < 5
        invariant
            k <= 5,
            names@.len() == 5,
            forall|j: int| 0 <= j < 5 ==> (#[trigger] names@[j])@ == known_spec()[j],
            cands@.len() == 5,
            runnable@.len() == 5,
            forall|j: int|
                0 <= j < cands@.len() ==> (#[trigger] runnable@[j])@.len() == cands@[j]@.len(),
            cv == cands@.map_values(|v: Vec<String>| strs(v@)),
            rv == runnable@.map_values(|v: Vec<bool>| v@),
            detected_view(out@) == detected_spec(cv.subrange(0, k as int), rv.subrange(0, k as int)),
        decreases 5 - k,
    {
        proof {
            assert(cv.subrange(0, k + 1).drop_last() =~= cv.subrange(0, k as int));
            assert(rv.subrange(0, k + 1).drop_last() =~= rv.subrange(0, k as int));
        }
        match first_runnable(&runnable[k]) {
            Some(i) => {
                let d = Detected { name: to_string(names[k]), path: cands[k][i].clone() };
                let ghost before = out@;
                out.push(d);
                proof {
                    assert(detected_view(out@) =~= detected_view(before).push((d.name@, d.path@)));
                }
            },
            None => {},
        }
        k = k + 1;
    }
    assert(cv.subrange(0, 5) =~= cv);
    assert(rv.subrange(0, 5) =~= rv);
    out
}

/// With no terminal chosen the chooser shows before any attach, with no
/// complaint (it is a first run), and no terminal argv can be built.
pub proof fn lemma_empty_program_needs_chooser(cfg: Config, resolved: Result<Seq<char>, Seq<char>>, spec: AttachSpec)
    requires
        trim(cfg.terminal.program@).len() == 0,
    ensures
        !is_runnable_spec(trim(cfg.terminal.program@), resolved),
        missing_message_spec(trim(cfg.terminal.program@), resolved) is None,
        attach_argv_spec(cfg, spec) == Err::<Seq<Seq<char>>, Seq<char>>(no_terminal_msg()),
{
}

/// The argument that carries the window's app id for a known emulator.
pub open spec fn app_id_arg(name: Seq<char>, app_id: Seq<char>) -> Seq<char> {
    if name == "foot"@ {
        "--app-id="@ + app_id
    } else if name == "ghostty"@ {
        "--class="@ + app_id
    } else {
        app_id
    }
}

/// Every emulator with a documented class/app-id flag is started with the
/// configured `window.app_id`.
pub proof fn lemma_app_id_in_argv(cfg: Config, spec: AttachSpec)
    requires
        known_spec().contains(basename_spec(trim(cfg.terminal.program@))),
    ensures
        attach_argv_spec(cfg, spec) is Ok,
        attach_argv_spec(cfg, spec)->Ok_0.contains(
            app_id_arg(basename_spec(trim(cfg.terminal.program@)), cfg.window.app_id@),
        ),
{
    reveal_strlit("kitty");
    reveal_strlit("foot");
    reveal_strlit("footclient");
    reveal_strlit("alacritty");
    reveal_strlit("ghostty");
    reveal_strlit("wezterm");
    reveal_strlit("wezterm-gui");
    let program = trim(cfg.terminal.program@);
    let name = basename_spec(program);
    let app_id = cfg.window.app_id@;
    let k = choose|k: int| 0 <= k < known_spec().len() && known_spec()[k] == name;
    assert(name.len() > 0);
    if program.len() == 0 {
        assert(crate::paths::file_name(program) is None);
    }
    assert("ghostty"@ != "wezterm"@) by {
        assert("ghostty"@[0] != "wezterm"@[0]);
    }
    let argv = attach_argv_spec(cfg, spec)->Ok_0;
    let head = seq![program];
    let ssh = ssh_cmd_spec(cfg, spec);
    let extra = strs(cfg.terminal.args@);
    let target = app_id_arg(name, app_id);
    if k == 0 {
        let f = kitty_flags_spec(cfg);
        assert(target == app_id);
        assert(f[1] == app_id);
        assert(argv == head + f + extra + ssh);
        assert(argv[2] == target);
    } else if k == 1 {
        let f = foot_flags_spec(cfg);
        assert(target == "--app-id="@ + app_id);
        assert(f[0] == "--app-id="@ + app_id);
        assert(argv == head + f + extra + ssh);
        assert(argv[1] == target);
    } else if k == 2 {
        assert(target == app_id);
        assert(argv == head + seq!["--class"@, app_id] + extra + seq!["-e"@] + ssh);
        assert(argv[2] == target);
    } else if k == 3 {
        let f = ghostty_flags_spec(cfg);
        assert(target == "--class="@ + app_id);
        assert(f[0] == "--class="@ + app_id);
        assert(argv == head + f + extra + seq!["-e"@] + ssh);
        assert(argv[1] == target);
    } else {
        assert(name == "wezterm"@);
        assert(target == app_id);
        assert(argv == head + seq!["start"@, "--class"@, app_id] + extra + seq!["--"@] + ssh);
        assert(argv[3] == target);
    }
}

/// Whatever the emulator, the argv ends with the whole `ssh … vpsd attach`
/// command for the chosen session, so the terminal runs exactly that.
pub proof fn lemma_argv_ends_with_ssh(cfg: Config, spec: AttachSpec)
    requires
        trim(cfg.terminal.program@).len() > 0,
    ensures
        attach_argv_spec(cfg, spec) is Ok,
        ({
            let argv = attach_argv_spec(cfg, spec)->Ok_0;
            let ssh = ssh_cmd_spec(cfg, spec);
            argv.len() >= ssh.len() + 1 && argv.skip(argv.len() - ssh.len()) == ssh
        }),
{
    let argv = attach_argv_spec(cfg, spec)->Ok_0;
    let ssh = ssh_cmd_spec(cfg, spec);
    assert(exists|pre: Seq<Seq<char>>| pre.len() >= 1 && argv == pre + ssh);
    let pre = choose|pre: Seq<Seq<char>>| pre.len() >= 1 && argv == pre + ssh;
    assert(argv.skip(pre.len() as int) =~= ssh);
}

/// `argv` holds `-o`, then `key=value`, next to each other.
pub open spec fn has_opt(argv: Seq<Seq<char>>, key: Seq<char>, value: Seq<char>) -> bool {
    exists|i: int| 0 <= i && i + 1 < argv.len() && #[trigger] argv[i] == "-o"@ && argv[i + 1] == key
        + "="@ + value
}

proof fn lemma_kitty_opts_at(pairs: Seq<(Seq<char>, Seq<char>)>, k: int)
    requires
        0 <= k < pairs.len(),
    ensures
        kitty_opts(pairs).len() == 2 * pairs.len(),
        kitty_opts(pairs)[2 * k] == "-o"@,
        kitty_opts(pairs)[2 * k + 1] == pairs[k].0 + "="@ + pairs[k].1,
    decreases pairs.len(),
{
    lemma_kitty_opts_len(pairs);
    if k < pairs.len() - 1 {
        lemma_kitty_opts_at(pairs.drop_last(), k);
        lemma_kitty_opts_len(pairs.drop_last());
    } else {
        lemma_kitty_opts_len(pairs.drop_last());
    }
}

proof fn lemma_kitty_opts_len(pairs: Seq<(Seq<char>, Seq<char>)>)
    ensures
        kitty_opts(pairs).len() == 2 * pairs.len(),
    decreases pairs.len(),
{
    if pairs.len() > 0 {
        lemma_kitty_opts_len(pairs.drop_last());
    }
}

/// `s` holds the option `key=value` when it is in `pairs`.
proof fn lemma_has_opt_in(
    pre: Seq<Seq<char>>,
    pairs: Seq<(Seq<char>, Seq<char>)>,
    post: Seq<Seq<char>>,
    k: int,
)
    requires
        0 <= k < pairs.len(),
    ensures
        has_opt(pre + kitty_opts(pairs) + post, pairs[k].0, pairs[k].1),
{
    lemma_kitty_opts_at(pairs, k);
    let s = pre + kitty_opts(pairs) + post;
    let i = pre.len() + 2 * k;
    assert(s[i] == "-o"@);
    assert(s[i + 1] == pairs[k].0 + "="@ + pairs[k].1);
}

/// kitty is started with its sixteen palette slots set from the configured
/// colors in ANSI order (`colorN` is the color of index N: black, red,
/// green, yellow, blue, magenta, cyan, white, then their bright forms),
/// and with the configured foreground and background.
pub proof fn lemma_kitty_palette(cfg: Config, spec: AttachSpec)
    requires
        basename_spec(trim(cfg.terminal.program@)) == "kitty"@,
    ensures
        attach_argv_spec(cfg, spec) is Ok,
        ({
            let a = attach_argv_spec(cfg, spec)->Ok_0;
            let c = cfg.colors;
            &&& has_opt(a, "foreground"@, c.foreground@)
            &&& has_opt(a, "background"@, c.background@)
            &&& has_opt(a, "color0"@, c.black@)
            &&& has_opt(a, "color1"@, c.red@)
            &&& has_opt(a, "color2"@, c.green@)
            &&& has_opt(a, "color3"@, c.yellow@)
            &&& has_opt(a, "color4"@, c.blue@)
            &&& has_opt(a, "color5"@, c.magenta@)
            &&& has_opt(a, "color6"@, c.cyan@)
            &&& has_opt(a, "color7"@, c.white@)
            &&& has_opt(a, "color8"@, c.bright_black@)
            &&& has_opt(a, "color9"@, c.bright_red@)
            &&& has_opt(a, "color10"@, c.bright_green@)
            &&& has_opt(a, "color11"@, c.bright_yellow@)
            &&& has_opt(a, "color12"@, c.bright_blue@)
            &&& has_opt(a, "color13"@, c.bright_magenta@)
            &&& has_opt(a, "color14"@, c.bright_cyan@)
            &&& has_opt(a, "color15"@, c.bright_white@)
        }),
{
    reveal_strlit("kitty");
    let program = trim(cfg.terminal.program@);
    if program.len() == 0 {
        assert(crate::paths::file_name(program) is None);
    }
    let a = attach_argv_spec(cfg, spec)->Ok_0;
    let pairs = kitty_color_pairs(cfg.colors);
    let pre = seq![program] + (seq!["--class"@, cfg.window.app_id@, "--detach"@] + opt(
        "remember_window_size"@,
        "no"@,
    ) + opt("initial_window_width"@, decimal(cfg.window.width as nat)) + opt(
        "initial_window_height"@,
        decimal(cfg.window.height as nat),
    ) + opt("font_size"@, cfg.font.size@) + (if family_spec(cfg).len() > 0 {
        opt("font_family"@, family_spec(cfg))
    } else {
        Seq::empty()
    }));
    let post = opt("confirm_os_window_close"@, "0"@) + strs(cfg.terminal.args@) + ssh_cmd_spec(
        cfg,
        spec,
    );
    assert(a =~= pre + kitty_opts(pairs) + post);
    lemma_has_opt_in(pre, pairs, post, 0);
    lemma_has_opt_in(pre, pairs, post, 1);
    lemma_has_opt_in(pre, pairs, post, 2);
    lemma_has_opt_in(pre, pairs, post, 3);
    lemma_has_opt_in(pre, pairs, post, 4);
    lemma_has_opt_in(pre, pairs, post, 5);
    lemma_has_opt_in(pre, pairs, post, 6);
    lemma_has_opt_in(pre, pairs, post, 7);
    lemma_has_opt_in(pre, pairs, post, 8);
    lemma_has_opt_in(pre, pairs, post, 9);
    lemma_has_opt_in(pre, pairs, post, 10);
    lemma_has_opt_in(pre, pairs, post, 11);
    lemma_has_opt_in(pre, pairs, post, 12);
    lemma_has_opt_in(pre, pairs, post, 13);
    lemma_has_opt_in(pre, pairs, post, 14);
    lemma_has_opt_in(pre, pairs, post, 15);
    lemma_has_opt_in(pre, pairs, post, 16);
    lemma_has_opt_in(pre, pairs, post, 17);
    assert(pairs[0] == ("foreground"@, cfg.colors.foreground@));
    assert(pairs[1] == ("background"@, cfg.colors.background@));
    assert(pairs[2] == ("color0"@, cfg.colors.black@));
    assert(pairs[3] == ("color1"@, cfg.colors.red@));
    assert(pairs[4] == ("color2"@, cfg.colors.green@));
    assert(pairs[5] == ("color3"@, cfg.colors.yellow@));
    assert(pairs[6] == ("color4"@, cfg.colors.blue@));
    assert(pairs[7] == ("color5"@, cfg.colors.magenta@));
    assert(pairs[8] == ("color6"@, cfg.colors.cyan@));
    assert(pairs[9] == ("color7"@, cfg.colors.white@));
    assert(pairs[10] == ("color8"@, cfg.colors.bright_black@));
    assert(pairs[11] == ("color9"@, cfg.colors.bright_red@));
    assert(pairs[12] == ("color10"@, cfg.colors.bright_green@));
    assert(pairs[13] == ("color11"@, cfg.colors.bright_yellow@));
    assert(pairs[14] == ("color12"@, cfg.colors.bright_blue@));
    assert(pairs[15] == ("color13"@, cfg.colors.bright_magenta@));
    assert(pairs[16] == ("color14"@, cfg.colors.bright_cyan@));
    assert(pairs[17] == ("color15"@, cfg.colors.bright_white@));
}

} // verus!
