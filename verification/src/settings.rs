//! The settings form: its fields as text, edits to them, and the checks made
//! before the form is saved.
use vstd::prelude::*;
use crate::client_config::{Colors, Ssh, Term, TerminalCfg};
use crate::text::{
    cat, is_whitespace, is_ws, push_arg, push_char, split_char, split_on, str_eq, strs, to_string,
    trim, trim_str,
};

verus! {

/// The editable settings, each as the text in its input box.
#[derive(Debug, Clone)]
pub struct Form {
    pub host: String,
    pub args: String,
    pub remote: String,
    pub list_args: String,
    pub list: String,
    pub terminal_program: String,
    pub terminal_args: String,
    pub picker_mode: String,
    pub width: String,
    pub height: String,
    pub app_id: String,
    pub family: String,
    pub size: String,
    pub scale: String,
    pub extras: String,
    pub term: String,
    pub colorterm: String,
    pub colors: Colors,
    pub status: Option<String>,
}

/// An edit of one field, or a button.
#[derive(Debug, Clone)]
pub enum Msg {
    Host(String),
    Args(String),
    Remote(String),
    ListArgs(String),
    List(String),
    TerminalProgram(String),
    TerminalArgs(String),
    Picker(String),
    Width(String),
    Height(String),
    AppId(String),
    Family(String),
    Size(String),
    Scale(String),
    Extras(String),
    Term(String),
    Colorterm(String),
    Color(&'static str, String),
    Save,
    Cancel,
}

/// The palette entry called `name`, if there is one.
pub open spec fn color_of(c: Colors, name: Seq<char>) -> Option<Seq<char>> {
    if name == "foreground"@ {
        Some(c.foreground@)
    } else if name == "background"@ {
        Some(c.background@)
    } else if name == "black"@ {
        Some(c.black@)
    } else if name == "red"@ {
        Some(c.red@)
    } else if name == "green"@ {
        Some(c.green@)
    } else if name == "yellow"@ {
        Some(c.yellow@)
    } else if name == "blue"@ {
        Some(c.blue@)
    } else if name == "magenta"@ {
        Some(c.magenta@)
    } else if name == "cyan"@ {
        Some(c.cyan@)
    } else if name == "white"@ {
        Some(c.white@)
    } else if name == "bright_black"@ {
        Some(c.bright_black@)
    } else if name == "bright_red"@ {
        Some(c.bright_red@)
    } else if name == "bright_green"@ {
        Some(c.bright_green@)
    } else if name == "bright_yellow"@ {
        Some(c.bright_yellow@)
    } else if name == "bright_blue"@ {
        Some(c.bright_blue@)
    } else if name == "bright_magenta"@ {
        Some(c.bright_magenta@)
    } else if name == "bright_cyan"@ {
        Some(c.bright_cyan@)
    } else if name == "bright_white"@ {
        Some(c.bright_white@)
    } else if name == "dim_foreground"@ {
        Some(c.dim_foreground@)
    } else if name == "dim_black"@ {
        Some(c.dim_black@)
    } else if name == "dim_red"@ {
        Some(c.dim_red@)
    } else if name == "dim_green"@ {
        Some(c.dim_green@)
    } else if name == "dim_yellow"@ {
        Some(c.dim_yellow@)
    } else if name == "dim_blue"@ {
        Some(c.dim_blue@)
    } else if name == "dim_magenta"@ {
        Some(c.dim_magenta@)
    } else if name == "dim_cyan"@ {
        Some(c.dim_cyan@)
    } else if name == "dim_white"@ {
        Some(c.dim_white@)
    } else {
        None
    }
}

/// Every palette entry but `bright_foreground`, by name, in form order.
pub open spec fn color_pairs(c: Colors) -> Seq<(Seq<char>, Seq<char>)> {
    seq![
        ("foreground"@, c.foreground@),
        ("background"@, c.background@),
        ("black"@, c.black@),
        ("red"@, c.red@),
        ("green"@, c.green@),
        ("yellow"@, c.yellow@),
        ("blue"@, c.blue@),
        ("magenta"@, c.magenta@),
        ("cyan"@, c.cyan@),
        ("white"@, c.white@),
        ("bright_black"@, c.bright_black@),
        ("bright_red"@, c.bright_red@),
        ("bright_green"@, c.bright_green@),
        ("bright_yellow"@, c.bright_yellow@),
        ("bright_blue"@, c.bright_blue@),
        ("bright_magenta"@, c.bright_magenta@),
        ("bright_cyan"@, c.bright_cyan@),
        ("bright_white"@, c.bright_white@),
        ("dim_foreground"@, c.dim_foreground@),
        ("dim_black"@, c.dim_black@),
        ("dim_red"@, c.dim_red@),
        ("dim_green"@, c.dim_green@),
        ("dim_yellow"@, c.dim_yellow@),
        ("dim_blue"@, c.dim_blue@),
        ("dim_magenta"@, c.dim_magenta@),
        ("dim_cyan"@, c.dim_cyan@),
        ("dim_white"@, c.dim_white@),
    ]
}

/// `c2` is `c` with the entry `name` (if known) set to `s`.
pub open spec fn color_set(c: Colors, c2: Colors, name: Seq<char>, s: Seq<char>) -> bool {
    &&& forall|n: Seq<char>| #[trigger]
        color_of(c2, n) == if n == name && color_of(c, n) is Some {
            Some(s)
        } else {
            color_of(c, n)
        }
    &&& c2.bright_foreground == c.bright_foreground
}

proof fn reveal_color_names() {
    reveal_strlit("foreground");
    reveal_strlit("background");
    reveal_strlit("black");
    reveal_strlit("red");
    reveal_strlit("green");
    reveal_strlit("yellow");
    reveal_strlit("blue");
    reveal_strlit("magenta");
    reveal_strlit("cyan");
    reveal_strlit("white");
    reveal_strlit("bright_black");
    reveal_strlit("bright_red");
    reveal_strlit("bright_green");
    reveal_strlit("bright_yellow");
    reveal_strlit("bright_blue");
    reveal_strlit("bright_magenta");
    reveal_strlit("bright_cyan");
    reveal_strlit("bright_white");
    reveal_strlit("dim_foreground");
    reveal_strlit("dim_black");
    reveal_strlit("dim_red");
    reveal_strlit("dim_green");
    reveal_strlit("dim_yellow");
    reveal_strlit("dim_blue");
    reveal_strlit("dim_magenta");
    reveal_strlit("dim_cyan");
    reveal_strlit("dim_white");
}

/// Sets the palette entry called `name`; an unknown name changes nothing.
pub fn set_color(c: &mut Colors, name: &str, s: String)
    ensures
        color_set(*old(c), *final(c), name@, s@),
{
    proof {
        reveal_color_names();
    }
    if str_eq(name, "foreground") {
        c.foreground = s;
    } else if str_eq(name, "background") {
        c.background = s;
    } else if str_eq(name, "black") {
        c.black = s;
    } else if str_eq(name, "red") {
        c.red = s;
    } else if str_eq(name, "green") {
        c.green = s;
    } else if str_eq(name, "yellow") {
        c.yellow = s;
    } else if str_eq(name, "blue") {
        c.blue = s;
    } else if str_eq(name, "magenta") {
        c.magenta = s;
    } else if str_eq(name, "cyan") {
        c.cyan = s;
    } else if str_eq(name, "white") {
        c.white = s;
    } else if str_eq(name, "bright_black") {
        c.bright_black = s;
    } else if str_eq(name, "bright_red") {
        c.bright_red = s;
    } else if str_eq(name, "bright_green") {
        c.bright_green = s;
    } else if str_eq(name, "bright_yellow") {
        c.bright_yellow = s;
    } else if str_eq(name, "bright_blue") {
        c.bright_blue = s;
    } else if str_eq(name, "bright_magenta") {
        c.bright_magenta = s;
    } else if str_eq(name, "bright_cyan") {
        c.bright_cyan = s;
    } else if str_eq(name, "bright_white") {
        c.bright_white = s;
    } else if str_eq(name, "dim_foreground") {
        c.dim_foreground = s;
    } else if str_eq(name, "dim_black") {
        c.dim_black = s;
    } else if str_eq(name, "dim_red") {
        c.dim_red = s;
    } else if str_eq(name, "dim_green") {
        c.dim_green = s;
    } else if str_eq(name, "dim_yellow") {
        c.dim_yellow = s;
    } else if str_eq(name, "dim_blue") {
        c.dim_blue = s;
    } else if str_eq(name, "dim_magenta") {
        c.dim_magenta = s;
    } else if str_eq(name, "dim_cyan") {
        c.dim_cyan = s;
    } else if str_eq(name, "dim_white") {
        c.dim_white = s;
    }
}

/// Each listed name finds its own entry.
#[verifier::spinoff_prover]
#[verifier::rlimit(60)]
proof fn lemma_color_of_pairs(c: Colors)
    ensures
        color_pairs(c).len() == 27,
        forall|i: int|
            0 <= i < 27 ==> color_of(c, #[trigger] color_pairs(c)[i].0) == Some(color_pairs(c)[i].1),
{
    reveal_strlit("foreground");
    reveal_strlit("background");
    reveal_strlit("black");
    reveal_strlit("red");
    reveal_strlit("green");
    reveal_strlit("yellow");
    reveal_strlit("blue");
    reveal_strlit("magenta");
    reveal_strlit("cyan");
    reveal_strlit("white");
    reveal_strlit("bright_black");
    reveal_strlit("bright_red");
    reveal_strlit("bright_green");
    reveal_strlit("bright_yellow");
    reveal_strlit("bright_blue");
    reveal_strlit("bright_magenta");
    reveal_strlit("bright_cyan");
    reveal_strlit("bright_white");
    reveal_strlit("dim_foreground");
    reveal_strlit("dim_black");
    reveal_strlit("dim_red");
    reveal_strlit("dim_green");
    reveal_strlit("dim_yellow");
    reveal_strlit("dim_blue");
    reveal_strlit("dim_magenta");
    reveal_strlit("dim_cyan");
    reveal_strlit("dim_white");
    assert("foreground"@.len() == 10);
    assert("background"@.len() == 10);
    assert("black"@.len() == 5);
    assert("red"@.len() == 3);
    assert("green"@.len() == 5);
    assert("yellow"@.len() == 6);
    assert("blue"@.len() == 4);
    assert("magenta"@.len() == 7);
    assert("cyan"@.len() == 4);
    assert("white"@.len() == 5);
    assert("bright_black"@.len() == 12);
    assert("bright_red"@.len() == 10);
    assert("bright_green"@.len() == 12);
    assert("bright_yellow"@.len() == 13);
    assert("bright_blue"@.len() == 11);
    assert("bright_magenta"@.len() == 14);
    assert("bright_cyan"@.len() == 11);
    assert("bright_white"@.len() == 12);
    assert("dim_foreground"@.len() == 14);
    assert("dim_black"@.len() == 9);
    assert("dim_red"@.len() == 7);
    assert("dim_green"@.len() == 9);
    assert("dim_yellow"@.len() == 10);
    assert("dim_blue"@.len() == 8);
    assert("dim_magenta"@.len() == 11);
    assert("dim_cyan"@.len() == 8);
    assert("dim_white"@.len() == 9);
    assert("background"@[0] != "foreground"@[0]);
    assert("green"@[0] != "black"@[0]);
    assert("cyan"@[0] != "blue"@[0]);
    assert("white"@[0] != "black"@[0]);
    assert("white"@[0] != "green"@[0]);
    assert("bright_red"@[0] != "foreground"@[0]);
    assert("bright_red"@[1] != "background"@[1]);
    assert("bright_green"@[7] != "bright_black"@[7]);
    assert("bright_cyan"@[7] != "bright_blue"@[7]);
    assert("bright_white"@[7] != "bright_black"@[7]);
    assert("bright_white"@[7] != "bright_green"@[7]);
    assert("dim_foreground"@[0] != "bright_magenta"@[0]);
    assert("dim_red"@[0] != "magenta"@[0]);
    assert("dim_green"@[4] != "dim_black"@[4]);
    assert("dim_yellow"@[0] != "foreground"@[0]);
    assert("dim_yellow"@[0] != "background"@[0]);
    assert("dim_yellow"@[0] != "bright_red"@[0]);
    assert("dim_magenta"@[0] != "bright_blue"@[0]);
    assert("dim_magenta"@[0] != "bright_cyan"@[0]);
    assert("dim_cyan"@[4] != "dim_blue"@[4]);
    assert("dim_white"@[4] != "dim_black"@[4]);
    assert("dim_white"@[4] != "dim_green"@[4]);
    assert(color_of(c, "foreground"@) == Some(c.foreground@));
    assert(color_of(c, "background"@) == Some(c.background@));
    assert(color_of(c, "black"@) == Some(c.black@));
    assert(color_of(c, "red"@) == Some(c.red@));
    assert(color_of(c, "green"@) == Some(c.green@));
    assert(color_of(c, "yellow"@) == Some(c.yellow@));
    assert(color_of(c, "blue"@) == Some(c.blue@));
    assert(color_of(c, "magenta"@) == Some(c.magenta@));
    assert(color_of(c, "cyan"@) == Some(c.cyan@));
    assert(color_of(c, "white"@) == Some(c.white@));
    assert(color_of(c, "bright_black"@) == Some(c.bright_black@));
    assert(color_of(c, "bright_red"@) == Some(c.bright_red@));
    assert(color_of(c, "bright_green"@) == Some(c.bright_green@));
    assert(color_of(c, "bright_yellow"@) == Some(c.bright_yellow@));
    assert(color_of(c, "bright_blue"@) == Some(c.bright_blue@));
    assert(color_of(c, "bright_magenta"@) == Some(c.bright_magenta@));
    assert(color_of(c, "bright_cyan"@) == Some(c.bright_cyan@));
    assert(color_of(c, "bright_white"@) == Some(c.bright_white@));
    assert(color_of(c, "dim_foreground"@) == Some(c.dim_foreground@));
    assert(color_of(c, "dim_black"@) == Some(c.dim_black@));
    assert(color_of(c, "dim_red"@) == Some(c.dim_red@));
    assert(color_of(c, "dim_green"@) == Some(c.dim_green@));
    assert(color_of(c, "dim_yellow"@) == Some(c.dim_yellow@));
    assert(color_of(c, "dim_blue"@) == Some(c.dim_blue@));
    assert(color_of(c, "dim_magenta"@) == Some(c.dim_magenta@));
    assert(color_of(c, "dim_cyan"@) == Some(c.dim_cyan@));
    assert(color_of(c, "dim_white"@) == Some(c.dim_white@));
    assert forall|i: int| 0 <= i < 27 implies color_of(c, #[trigger] color_pairs(c)[i].0) == Some(
        color_pairs(c)[i].1,
    ) by {
    }
}

/// Setting a palette entry, as the form lists the entries: the entry with
/// that name now holds the new value, every other entry (and
/// `bright_foreground`) is as it was; an unknown name changes none.
pub proof fn lemma_set_color_fields(c0: Colors, c: Colors, name: Seq<char>, s: Seq<char>)
    requires
        color_set(c0, c, name, s),
    ensures
        color_pairs(c).len() == color_pairs(c0).len(),
        forall|i: int|
            0 <= i < color_pairs(c0).len() ==> #[trigger] color_pairs(c)[i] == (
                color_pairs(c0)[i].0,
                if color_pairs(c0)[i].0 == name {
                    s
                } else {
                    color_pairs(c0)[i].1
                },
            ),
        c.bright_foreground == c0.bright_foreground,
{
    lemma_color_of_pairs(c);
    lemma_color_of_pairs(c0);
    assert forall|i: int| 0 <= i < color_pairs(c0).len() implies #[trigger] color_pairs(c)[i] == (
        color_pairs(c0)[i].0,
        if color_pairs(c0)[i].0 == name {
            s
        } else {
            color_pairs(c0)[i].1
        },
    ) by {
        let n = color_pairs(c0)[i].0;
        assert(color_pairs(c)[i].0 == n);
        assert(color_of(c, color_pairs(c)[i].0) == Some(color_pairs(c)[i].1));
        assert(color_of(c0, n) == Some(color_pairs(c0)[i].1));
        assert(color_of(c, n) == if n == name && color_of(c0, n) is Some {
            Some(s)
        } else {
            color_of(c0, n)
        });
    }
}

/// Setting a palette entry by name writes the field of that name and no
/// other: after `set_color(c, "blue", s)` (or `Msg::Color("blue", s)` in the
/// form) `blue` is `s` and the other 26 entries, and `bright_foreground`,
/// are as they were; an unknown name changes nothing.
pub proof fn lemma_set_color_writes_named_field(c0: Colors, c: Colors, name: Seq<char>, s: Seq<char>)
    requires
        color_set(c0, c, name, s),
    ensures
        name == "foreground"@ ==> c.foreground@ == s,
        name != "foreground"@ ==> c.foreground@ == c0.foreground@,
        name == "background"@ ==> c.background@ == s,
        name != "background"@ ==> c.background@ == c0.background@,
        name == "black"@ ==> c.black@ == s,
        name != "black"@ ==> c.black@ == c0.black@,
        name == "red"@ ==> c.red@ == s,
        name != "red"@ ==> c.red@ == c0.red@,
        name == "green"@ ==> c.green@ == s,
        name != "green"@ ==> c.green@ == c0.green@,
        name == "yellow"@ ==> c.yellow@ == s,
        name != "yellow"@ ==> c.yellow@ == c0.yellow@,
        name == "blue"@ ==> c.blue@ == s,
        name != "blue"@ ==> c.blue@ == c0.blue@,
        name == "magenta"@ ==> c.magenta@ == s,
        name != "magenta"@ ==> c.magenta@ == c0.magenta@,
        name == "cyan"@ ==> c.cyan@ == s,
        name != "cyan"@ ==> c.cyan@ == c0.cyan@,
        name == "white"@ ==> c.white@ == s,
        name != "white"@ ==> c.white@ == c0.white@,
        name == "bright_black"@ ==> c.bright_black@ == s,
        name != "bright_black"@ ==> c.bright_black@ == c0.bright_black@,
        name == "bright_red"@ ==> c.bright_red@ == s,
        name != "bright_red"@ ==> c.bright_red@ == c0.bright_red@,
        name == "bright_green"@ ==> c.bright_green@ == s,
        name != "bright_green"@ ==> c.bright_green@ == c0.bright_green@,
        name == "bright_yellow"@ ==> c.bright_yellow@ == s,
        name != "bright_yellow"@ ==> c.bright_yellow@ == c0.bright_yellow@,
        name == "bright_blue"@ ==> c.bright_blue@ == s,
        name != "bright_blue"@ ==> c.bright_blue@ == c0.bright_blue@,
        name == "bright_magenta"@ ==> c.bright_magenta@ == s,
        name != "bright_magenta"@ ==> c.bright_magenta@ == c0.bright_magenta@,
        name == "bright_cyan"@ ==> c.bright_cyan@ == s,
        name != "bright_cyan"@ ==> c.bright_cyan@ == c0.bright_cyan@,
        name == "bright_white"@ ==> c.bright_white@ == s,
        name != "bright_white"@ ==> c.bright_white@ == c0.bright_white@,
        name == "dim_foreground"@ ==> c.dim_foreground@ == s,
        name != "dim_foreground"@ ==> c.dim_foreground@ == c0.dim_foreground@,
        name == "dim_black"@ ==> c.dim_black@ == s,
        name != "dim_black"@ ==> c.dim_black@ == c0.dim_black@,
        name == "dim_red"@ ==> c.dim_red@ == s,
        name != "dim_red"@ ==> c.dim_red@ == c0.dim_red@,
        name == "dim_green"@ ==> c.dim_green@ == s,
        name != "dim_green"@ ==> c.dim_green@ == c0.dim_green@,
        name == "dim_yellow"@ ==> c.dim_yellow@ == s,
        name != "dim_yellow"@ ==> c.dim_yellow@ == c0.dim_yellow@,
        name == "dim_blue"@ ==> c.dim_blue@ == s,
        name != "dim_blue"@ ==> c.dim_blue@ == c0.dim_blue@,
        name == "dim_magenta"@ ==> c.dim_magenta@ == s,
        name != "dim_magenta"@ ==> c.dim_magenta@ == c0.dim_magenta@,
        name == "dim_cyan"@ ==> c.dim_cyan@ == s,
        name != "dim_cyan"@ ==> c.dim_cyan@ == c0.dim_cyan@,
        name == "dim_white"@ ==> c.dim_white@ == s,
        name != "dim_white"@ ==> c.dim_white@ == c0.dim_white@,
        c.bright_foreground == c0.bright_foreground,
{
    lemma_color_of_pairs(c);
    lemma_color_of_pairs(c0);
    assert(color_pairs(c)[0] == ("foreground"@, c.foreground@));
    assert(color_pairs(c)[0].0 == "foreground"@);
    assert(color_pairs(c0)[0] == ("foreground"@, c0.foreground@));
    assert(color_pairs(c0)[0].0 == "foreground"@);
    assert(color_of(c, "foreground"@) == Some(c.foreground@));
    assert(color_of(c0, "foreground"@) == Some(c0.foreground@));
    assert(color_pairs(c)[1] == ("background"@, c.background@));
    assert(color_pairs(c)[1].0 == "background"@);
    assert(color_pairs(c0)[1] == ("background"@, c0.background@));
    assert(color_pairs(c0)[1].0 == "background"@);
    assert(color_of(c, "background"@) == Some(c.background@));
    assert(color_of(c0, "background"@) == Some(c0.background@));
    assert(color_pairs(c)[2] == ("black"@, c.black@));
    assert(color_pairs(c)[2].0 == "black"@);
    assert(color_pairs(c0)[2] == ("black"@, c0.black@));
    assert(color_pairs(c0)[2].0 == "black"@);
    assert(color_of(c, "black"@) == Some(c.black@));
    assert(color_of(c0, "black"@) == Some(c0.black@));
    assert(color_pairs(c)[3] == ("red"@, c.red@));
    assert(color_pairs(c)[3].0 == "red"@);
    assert(color_pairs(c0)[3] == ("red"@, c0.red@));
    assert(color_pairs(c0)[3].0 == "red"@);
    assert(color_of(c, "red"@) == Some(c.red@));
    assert(color_of(c0, "red"@) == Some(c0.red@));
    assert(color_pairs(c)[4] == ("green"@, c.green@));
    assert(color_pairs(c)[4].0 == "green"@);
    assert(color_pairs(c0)[4] == ("green"@, c0.green@));
    assert(color_pairs(c0)[4].0 == "green"@);
    assert(color_of(c, "green"@) == Some(c.green@));
    assert(color_of(c0, "green"@) == Some(c0.green@));
    assert(color_pairs(c)[5] == ("yellow"@, c.yellow@));
    assert(color_pairs(c)[5].0 == "yellow"@);
    assert(color_pairs(c0)[5] == ("yellow"@, c0.yellow@));
    assert(color_pairs(c0)[5].0 == "yellow"@);
    assert(color_of(c, "yellow"@) == Some(c.yellow@));
    assert(color_of(c0, "yellow"@) == Some(c0.yellow@));
    assert(color_pairs(c)[6] == ("blue"@, c.blue@));
    assert(color_pairs(c)[6].0 == "blue"@);
    assert(color_pairs(c0)[6] == ("blue"@, c0.blue@));
    assert(color_pairs(c0)[6].0 == "blue"@);
    assert(color_of(c, "blue"@) == Some(c.blue@));
    assert(color_of(c0, "blue"@) == Some(c0.blue@));
    assert(color_pairs(c)[7] == ("magenta"@, c.magenta@));
    assert(color_pairs(c)[7].0 == "magenta"@);
    assert(color_pairs(c0)[7] == ("magenta"@, c0.magenta@));
    assert(color_pairs(c0)[7].0 == "magenta"@);
    assert(color_of(c, "magenta"@) == Some(c.magenta@));
    assert(color_of(c0, "magenta"@) == Some(c0.magenta@));
    assert(color_pairs(c)[8] == ("cyan"@, c.cyan@));
    assert(color_pairs(c)[8].0 == "cyan"@);
    assert(color_pairs(c0)[8] == ("cyan"@, c0.cyan@));
    assert(color_pairs(c0)[8].0 == "cyan"@);
    assert(color_of(c, "cyan"@) == Some(c.cyan@));
    assert(color_of(c0, "cyan"@) == Some(c0.cyan@));
    assert(color_pairs(c)[9] == ("white"@, c.white@));
    assert(color_pairs(c)[9].0 == "white"@);
    assert(color_pairs(c0)[9] == ("white"@, c0.white@));
    assert(color_pairs(c0)[9].0 == "white"@);
    assert(color_of(c, "white"@) == Some(c.white@));
    assert(color_of(c0, "white"@) == Some(c0.white@));
    assert(color_pairs(c)[10] == ("bright_black"@, c.bright_black@));
    assert(color_pairs(c)[10].0 == "bright_black"@);
    assert(color_pairs(c0)[10] == ("bright_black"@, c0.bright_black@));
    assert(color_pairs(c0)[10].0 == "bright_black"@);
    assert(color_of(c, "bright_black"@) == Some(c.bright_black@));
    assert(color_of(c0, "bright_black"@) == Some(c0.bright_black@));
    assert(color_pairs(c)[11] == ("bright_red"@, c.bright_red@));
    assert(color_pairs(c)[11].0 == "bright_red"@);
    assert(color_pairs(c0)[11] == ("bright_red"@, c0.bright_red@));
    assert(color_pairs(c0)[11].0 == "bright_red"@);
    assert(color_of(c, "bright_red"@) == Some(c.bright_red@));
    assert(color_of(c0, "bright_red"@) == Some(c0.bright_red@));
    assert(color_pairs(c)[12] == ("bright_green"@, c.bright_green@));
    assert(color_pairs(c)[12].0 == "bright_green"@);
    assert(color_pairs(c0)[12] == ("bright_green"@, c0.bright_green@));
    assert(color_pairs(c0)[12].0 == "bright_green"@);
    assert(color_of(c, "bright_green"@) == Some(c.bright_green@));
    assert(color_of(c0, "bright_green"@) == Some(c0.bright_green@));
    assert(color_pairs(c)[13] == ("bright_yellow"@, c.bright_yellow@));
    assert(color_pairs(c)[13].0 == "bright_yellow"@);
    assert(color_pairs(c0)[13] == ("bright_yellow"@, c0.bright_yellow@));
    assert(color_pairs(c0)[13].0 == "bright_yellow"@);
    assert(color_of(c, "bright_yellow"@) == Some(c.bright_yellow@));
    assert(color_of(c0, "bright_yellow"@) == Some(c0.bright_yellow@));
    assert(color_pairs(c)[14] == ("bright_blue"@, c.bright_blue@));
    assert(color_pairs(c)[14].0 == "bright_blue"@);
    assert(color_pairs(c0)[14] == ("bright_blue"@, c0.bright_blue@));
    assert(color_pairs(c0)[14].0 == "bright_blue"@);
    assert(color_of(c, "bright_blue"@) == Some(c.bright_blue@));
    assert(color_of(c0, "bright_blue"@) == Some(c0.bright_blue@));
    assert(color_pairs(c)[15] == ("bright_magenta"@, c.bright_magenta@));
    assert(color_pairs(c)[15].0 == "bright_magenta"@);
    assert(color_pairs(c0)[15] == ("bright_magenta"@, c0.bright_magenta@));
    assert(color_pairs(c0)[15].0 == "bright_magenta"@);
    assert(color_of(c, "bright_magenta"@) == Some(c.bright_magenta@));
    assert(color_of(c0, "bright_magenta"@) == Some(c0.bright_magenta@));
    assert(color_pairs(c)[16] == ("bright_cyan"@, c.bright_cyan@));
    assert(color_pairs(c)[16].0 == "bright_cyan"@);
    assert(color_pairs(c0)[16] == ("bright_cyan"@, c0.bright_cyan@));
    assert(color_pairs(c0)[16].0 == "bright_cyan"@);
    assert(color_of(c, "bright_cyan"@) == Some(c.bright_cyan@));
    assert(color_of(c0, "bright_cyan"@) == Some(c0.bright_cyan@));
    assert(color_pairs(c)[17] == ("bright_white"@, c.bright_white@));
    assert(color_pairs(c)[17].0 == "bright_white"@);
    assert(color_pairs(c0)[17] == ("bright_white"@, c0.bright_white@));
    assert(color_pairs(c0)[17].0 == "bright_white"@);
    assert(color_of(c, "bright_white"@) == Some(c.bright_white@));
    assert(color_of(c0, "bright_white"@) == Some(c0.bright_white@));
    assert(color_pairs(c)[18] == ("dim_foreground"@, c.dim_foreground@));
    assert(color_pairs(c)[18].0 == "dim_foreground"@);
    assert(color_pairs(c0)[18] == ("dim_foreground"@, c0.dim_foreground@));
    assert(color_pairs(c0)[18].0 == "dim_foreground"@);
    assert(color_of(c, "dim_foreground"@) == Some(c.dim_foreground@));
    assert(color_of(c0, "dim_foreground"@) == Some(c0.dim_foreground@));
    assert(color_pairs(c)[19] == ("dim_black"@, c.dim_black@));
    assert(color_pairs(c)[19].0 == "dim_black"@);
    assert(color_pairs(c0)[19] == ("dim_black"@, c0.dim_black@));
    assert(color_pairs(c0)[19].0 == "dim_black"@);
    assert(color_of(c, "dim_black"@) == Some(c.dim_black@));
    assert(color_of(c0, "dim_black"@) == Some(c0.dim_black@));
    assert(color_pairs(c)[20] == ("dim_red"@, c.dim_red@));
    assert(color_pairs(c)[20].0 == "dim_red"@);
    assert(color_pairs(c0)[20] == ("dim_red"@, c0.dim_red@));
    assert(color_pairs(c0)[20].0 == "dim_red"@);
    assert(color_of(c, "dim_red"@) == Some(c.dim_red@));
    assert(color_of(c0, "dim_red"@) == Some(c0.dim_red@));
    assert(color_pairs(c)[21] == ("dim_green"@, c.dim_green@));
    assert(color_pairs(c)[21].0 == "dim_green"@);
    assert(color_pairs(c0)[21] == ("dim_green"@, c0.dim_green@));
    assert(color_pairs(c0)[21].0 == "dim_green"@);
    assert(color_of(c, "dim_green"@) == Some(c.dim_green@));
    assert(color_of(c0, "dim_green"@) == Some(c0.dim_green@));
    assert(color_pairs(c)[22] == ("dim_yellow"@, c.dim_yellow@));
    assert(color_pairs(c)[22].0 == "dim_yellow"@);
    assert(color_pairs(c0)[22] == ("dim_yellow"@, c0.dim_yellow@));
    assert(color_pairs(c0)[22].0 == "dim_yellow"@);
    assert(color_of(c, "dim_yellow"@) == Some(c.dim_yellow@));
    assert(color_of(c0, "dim_yellow"@) == Some(c0.dim_yellow@));
    assert(color_pairs(c)[23] == ("dim_blue"@, c.dim_blue@));
    assert(color_pairs(c)[23].0 == "dim_blue"@);
    assert(color_pairs(c0)[23] == ("dim_blue"@, c0.dim_blue@));
    assert(color_pairs(c0)[23].0 == "dim_blue"@);
    assert(color_of(c, "dim_blue"@) == Some(c.dim_blue@));
    assert(color_of(c0, "dim_blue"@) == Some(c0.dim_blue@));
    assert(color_pairs(c)[24] == ("dim_magenta"@, c.dim_magenta@));
    assert(color_pairs(c)[24].0 == "dim_magenta"@);
    assert(color_pairs(c0)[24] == ("dim_magenta"@, c0.dim_magenta@));
    assert(color_pairs(c0)[24].0 == "dim_magenta"@);
    assert(color_of(c, "dim_magenta"@) == Some(c.dim_magenta@));
    assert(color_of(c0, "dim_magenta"@) == Some(c0.dim_magenta@));
    assert(color_pairs(c)[25] == ("dim_cyan"@, c.dim_cyan@));
    assert(color_pairs(c)[25].0 == "dim_cyan"@);
    assert(color_pairs(c0)[25] == ("dim_cyan"@, c0.dim_cyan@));
    assert(color_pairs(c0)[25].0 == "dim_cyan"@);
    assert(color_of(c, "dim_cyan"@) == Some(c.dim_cyan@));
    assert(color_of(c0, "dim_cyan"@) == Some(c0.dim_cyan@));
    assert(color_pairs(c)[26] == ("dim_white"@, c.dim_white@));
    assert(color_pairs(c)[26].0 == "dim_white"@);
    assert(color_pairs(c0)[26] == ("dim_white"@, c0.dim_white@));
    assert(color_pairs(c0)[26].0 == "dim_white"@);
    assert(color_of(c, "dim_white"@) == Some(c.dim_white@));
    assert(color_of(c0, "dim_white"@) == Some(c0.dim_white@));
}

/// Every palette entry but `bright_foreground`, by name, in form order.
pub fn color_fields(c: &Colors) -> (r: Vec<(&'static str, &str)>)
    ensures
        r@.map_values(|p: (&'static str, &str)| (p.0@, p.1@)) == color_pairs(*c),
{
    let r = vec![
        ("foreground", c.foreground.as_str()),
        ("background", c.background.as_str()),
        ("black", c.black.as_str()),
        ("red", c.red.as_str()),
        ("green", c.green.as_str()),
        ("yellow", c.yellow.as_str()),
        ("blue", c.blue.as_str()),
        ("magenta", c.magenta.as_str()),
        ("cyan", c.cyan.as_str()),
        ("white", c.white.as_str()),
        ("bright_black", c.bright_black.as_str()),
        ("bright_red", c.bright_red.as_str()),
        ("bright_green", c.bright_green.as_str()),
        ("bright_yellow", c.bright_yellow.as_str()),
        ("bright_blue", c.bright_blue.as_str()),
        ("bright_magenta", c.bright_magenta.as_str()),
        ("bright_cyan", c.bright_cyan.as_str()),
        ("bright_white", c.bright_white.as_str()),
        ("dim_foreground", c.dim_foreground.as_str()),
        ("dim_black", c.dim_black.as_str()),
        ("dim_red", c.dim_red.as_str()),
        ("dim_green", c.dim_green.as_str()),
        ("dim_yellow", c.dim_yellow.as_str()),
        ("dim_blue", c.dim_blue.as_str()),
        ("dim_magenta", c.dim_magenta.as_str()),
        ("dim_cyan", c.dim_cyan.as_str()),
        ("dim_white", c.dim_white.as_str()),
    ];
    assert(r@.map_values(|p: (&'static str, &str)| (p.0@, p.1@)) =~= color_pairs(*c));
    r
}

/// Words and the word being read, after reading `s`.
pub open spec fn words_acc(s: Seq<char>) -> (Seq<Seq<char>>, Seq<char>)
    decreases s.len(),
{
    if s.len() == 0 {
        (Seq::empty(), Seq::empty())
    } else {
        let (ws, cur) = words_acc(s.drop_last());
        if is_ws(s.last()) {
            if cur.len() > 0 {
                (ws.push(cur), Seq::empty())
            } else {
                (ws, Seq::empty())
            }
        } else {
            (ws, cur.push(s.last()))
        }
    }
}

/// `s.split_whitespace()`: the maximal runs of non-whitespace.
pub open spec fn words(s: Seq<char>) -> Seq<Seq<char>> {
    let (ws, cur) = words_acc(s);
    if cur.len() > 0 {
        ws.push(cur)
    } else {
        ws
    }
}

/// `s.split_whitespace()`, each word as a `String`.
pub fn split_ws(s: &str) -> (r: Vec<String>)
    ensures
        strs(r@) == words(s@),
{
    let n = s.unicode_len();
    let mut out: Vec<String> = Vec::new();
    let mut cur = String::new();
    let mut i: usize = 0;
    while i < n
        invariant
            i <= n,
            n == s@.len(),
            (strs(out@), cur@) == words_acc(s@.subrange(0, i as int)),
        decreases n - i,
    {
        let c = s.get_char(i);
        proof {
            assert(s@.subrange(0, i + 1).drop_last() =~= s@.subrange(0, i as int));
        }
        if is_whitespace(c) {
            if cur.unicode_len() > 0 {
                let w = cur;
                push_arg(&mut out, w);
                cur = String::new();
            } else {
                cur = String::new();
            }
            proof {
                assert(cur@ =~= Seq::<char>::empty());
            }
        } else {
            push_char(&mut cur, c);
        }
        i = i + 1;
    }
    assert(s@.subrange(0, n as int) =~= s@);
    if cur.unicode_len() > 0 {
        push_arg(&mut out, cur);
    }
    out
}

/// The non-empty trimmed pieces, in order.
pub open spec fn trimmed_nonempty(pieces: Seq<Seq<char>>) -> Seq<Seq<char>>
    decreases pieces.len(),
{
    if pieces.len() == 0 {
        Seq::empty()
    } else {
        let prev = trimmed_nonempty(pieces.drop_last());
        let t = trim(pieces.last());
        if t.len() > 0 {
            prev.push(t)
        } else {
            prev
        }
    }
}

/// Comma-separated list: pieces trimmed, empty ones dropped.
pub fn split_commas(s: &str) -> (r: Vec<String>)
    ensures
        strs(r@) == trimmed_nonempty(split_char(s@, ',')),
{
    let pieces = split_on(s, ',');
    let n = pieces.len();
    let mut out: Vec<String> = Vec::new();
    let mut i: usize = 0;
    while i < n
        invariant
            i <= n,
            n == pieces@.len(),
            strs(pieces@) == split_char(s@, ','),
            strs(out@) == trimmed_nonempty(strs(pieces@.subrange(0, i as int))),
        decreases n - i,
    {
        proof {
            assert(strs(pieces@.subrange(0, i + 1)).drop_last() =~= strs(
                pieces@.subrange(0, i as int),
            ));
        }
        let t = trim_str(pieces[i].as_str());
        if t.unicode_len() > 0 {
            push_arg(&mut out, to_string(t));
        }
        i = i + 1;
    }
    assert(pieces@.subrange(0, n as int) =~= pieces@);
    out
}

/// The accepted picker modes.
pub open spec fn picker_modes() -> Seq<Seq<char>> {
    seq!["when_sessions"@, "always"@, "never"@]
}

impl Form {
    /// Applies one edit. `Save` and `Cancel` change nothing here.
    pub fn update(&mut self, msg: Msg)
        ensures
            match msg {
                Msg::Host(s) => final(self).host@ == s@,
                Msg::Args(s) => final(self).args@ == s@,
                Msg::Remote(s) => final(self).remote@ == s@,
                Msg::ListArgs(s) => final(self).list_args@ == s@,
                Msg::List(s) => final(self).list@ == s@,
                Msg::TerminalProgram(s) => final(self).terminal_program@ == s@,
                Msg::TerminalArgs(s) => final(self).terminal_args@ == s@,
                Msg::Picker(s) => final(self).picker_mode@ == s@,
                Msg::Width(s) => final(self).width@ == s@,
                Msg::Height(s) => final(self).height@ == s@,
                Msg::AppId(s) => final(self).app_id@ == s@,
                Msg::Family(s) => final(self).family@ == s@,
                Msg::Size(s) => final(self).size@ == s@,
                Msg::Scale(s) => final(self).scale@ == s@,
                Msg::Extras(s) => final(self).extras@ == s@,
                Msg::Term(s) => final(self).term@ == s@,
                Msg::Colorterm(s) => final(self).colorterm@ == s@,
                Msg::Color(name, s) => color_set(old(self).colors, final(self).colors, name@, s@),
                _ => *final(self) == *old(self),
            },
            ({
                let o = *old(self);
                let f = *final(self);
                &&& (msg is Host || f.host == o.host)
                &&& (msg is Args || f.args == o.args)
                &&& (msg is Remote || f.remote == o.remote)
                &&& (msg is ListArgs || f.list_args == o.list_args)
                &&& (msg is List || f.list == o.list)
                &&& (msg is TerminalProgram || f.terminal_program == o.terminal_program)
                &&& (msg is TerminalArgs || f.terminal_args == o.terminal_args)
                &&& (msg is Picker || f.picker_mode == o.picker_mode)
                &&& (msg is Width || f.width == o.width)
                &&& (msg is Height || f.height == o.height)
                &&& (msg is AppId || f.app_id == o.app_id)
                &&& (msg is Family || f.family == o.family)
                &&& (msg is Size || f.size == o.size)
                &&& (msg is Scale || f.scale == o.scale)
                &&& (msg is Extras || f.extras == o.extras)
                &&& (msg is Term || f.term == o.term)
                &&& (msg is Colorterm || f.colorterm == o.colorterm)
                &&& (msg is Color || f.colors == o.colors)
                &&& f.status == o.status
            }),
    {
        match msg {
            Msg::Host(s) => self.host = s,
            Msg::Args(s) => self.args = s,
            Msg::Remote(s) => self.remote = s,
            Msg::ListArgs(s) => self.list_args = s,
            Msg::List(s) => self.list = s,
            Msg::TerminalProgram(s) => self.terminal_program = s,
            Msg::TerminalArgs(s) => self.terminal_args = s,
            Msg::Picker(s) => self.picker_mode = s,
            Msg::Width(s) => self.width = s,
            Msg::Height(s) => self.height = s,
            Msg::AppId(s) => self.app_id = s,
            Msg::Family(s) => self.family = s,
            Msg::Size(s) => self.size = s,
            Msg::Scale(s) => self.scale = s,
            Msg::Extras(s) => self.extras = s,
            Msg::Term(s) => self.term = s,
            Msg::Colorterm(s) => self.colorterm = s,
            Msg::Color(name, s) => set_color(&mut self.colors, name, s),
            Msg::Save | Msg::Cancel => {},
        }
    }

    pub open spec fn validate_spec(&self) -> Result<(), Seq<char>> {
        if trim(self.host@).len() == 0 {
            Err("ssh.host is required"@)
        } else if !picker_modes().contains(self.picker_mode@) {
            Err("picker.mode must be when_sessions, always, or never"@)
        } else {
            Ok(())
        }
    }

    /// The checks made before the numbers are read: a host is required and
    /// the picker mode must be one of the three.
    pub fn validate(&self) -> (r: Result<(), String>)
        ensures
            match r {
                Ok(()) => self.validate_spec() is Ok,
                Err(e) => self.validate_spec() == Err::<(), Seq<char>>(e@),
            },
    {
        if trim_str(self.host.as_str()).unicode_len() == 0 {
            return Err(to_string("ssh.host is required"));
        }
        let m = self.picker_mode.as_str();
        let ok = str_eq(m, "when_sessions") || str_eq(m, "always") || str_eq(m, "never");
        proof {
            if picker_modes().contains(self.picker_mode@) {
                let i = choose|i: int| 0 <= i < 3 && picker_modes()[i] == self.picker_mode@;
                assert(i == 0 || i == 1 || i == 2);
            }
            if ok {
                if m@ == "when_sessions"@ {
                    assert(picker_modes()[0] == m@);
                } else if m@ == "always"@ {
                    assert(picker_modes()[1] == m@);
                } else {
                    assert(picker_modes()[2] == m@);
                }
            }
        }
        if !ok {
            return Err(to_string("picker.mode must be when_sessions, always, or never"));
        }
        Ok(())
    }

    /// The `[ssh]` table the form saves: host, remote and list commands
    /// trimmed, argument lists split at whitespace.
    pub fn ssh_settings(&self) -> (s: Ssh)
        ensures
            s.host@ == trim(self.host@),
            strs(s.args@) == words(self.args@),
            s.remote@ == trim(self.remote@),
            strs(s.list_args@) == words(self.list_args@),
            s.list@ == trim(self.list@),
    {
        Ssh {
            host: to_string(trim_str(self.host.as_str())),
            args: split_ws(self.args.as_str()),
            remote: to_string(trim_str(self.remote.as_str())),
            list_args: split_ws(self.list_args.as_str()),
            list: to_string(trim_str(self.list.as_str())),
        }
    }

    /// The `[terminal]` table the form saves.
    pub fn terminal_settings(&self) -> (t: TerminalCfg)
        ensures
            t.program@ == trim(self.terminal_program@),
            strs(t.args@) == words(self.terminal_args@),
    {
        TerminalCfg {
            program: to_string(trim_str(self.terminal_program.as_str())),
            args: split_ws(self.terminal_args.as_str()),
        }
    }

    /// The `[term]` table the form saves.
    pub fn term_settings(&self) -> (t: Term)
        ensures
            t.term@ == trim(self.term@),
            t.colorterm@ == trim(self.colorterm@),
    {
        Term {
            term: to_string(trim_str(self.term.as_str())),
            colorterm: to_string(trim_str(self.colorterm.as_str())),
        }
    }

    /// The extra font patterns the form saves.
    pub fn extras_list(&self) -> (r: Vec<String>)
        ensures
            strs(r@) == trimmed_nonempty(split_char(self.extras@, ',')),
    {
        split_commas(self.extras.as_str())
    }

    /// The window's app id as saved.
    pub fn app_id_setting(&self) -> (r: String)
        ensures
            r@ == trim(self.app_id@),
    {
        to_string(trim_str(self.app_id.as_str()))
    }
}

/// The message shown when a numeric field does not parse.
pub fn number_error(name: &str) -> (r: String)
    ensures
        r@ == name@ + " must be a number"@,
{
    cat(name, " must be a number")
}

} // verus!
