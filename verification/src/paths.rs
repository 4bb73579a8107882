//! Unix path text: joining, the last component, and the config locations.
//!
//! Paths are held as `String`; the rules are those of `std::path` on Unix.
use vstd::prelude::*;
use crate::text::{push_char, push_str, to_string};

verus! {

/// `PathBuf::join` on Unix: an absolute `name` replaces `dir`; otherwise a
/// separator is put between them unless `dir` is empty or already ends in one.
pub open spec fn join(dir: Seq<char>, name: Seq<char>) -> Seq<char> {
    if name.len() > 0 && name[0] == '/' {
        name
    } else if dir.len() == 0 || dir.last() == '/' {
        dir + name
    } else {
        dir + seq!['/'] + name
    }
}

/// Index where the last `/`-free run of `s` starts.
pub open spec fn seg_start(s: Seq<char>) -> nat
    decreases s.len(),
{
    if s.len() == 0 {
        0
    } else if s.last() == '/' {
        s.len()
    } else {
        seg_start(s.drop_last())
    }
}

/// The last component of a path when it is a normal name
/// (`Path::file_name`): trailing separators and `.` components are skipped;
/// a path that ends in `..`, is empty, or is only a root has none.
pub open spec fn file_name(s: Seq<char>) -> Option<Seq<char>>
    decreases s.len(),
{
    if s.len() == 0 {
        None
    } else if s.last() == '/' {
        file_name(s.drop_last())
    } else {
        let i = seg_start(s);
        let seg = s.subrange(i as int, s.len() as int);
        if seg == seq!['.'] {
            if i < s.len() {
                file_name(s.subrange(0, i as int))
            } else {
                None
            }
        } else if seg == seq!['.', '.'] {
            None
        } else {
            Some(seg)
        }
    }
}

/// The file name of `path`, or all of `path` when it has none.
pub open spec fn basename_spec(path: Seq<char>) -> Seq<char> {
    match file_name(path) {
        Some(n) => n,
        None => path,
    }
}

/// `Path::is_absolute || Path::starts_with(".")` on Unix: a root, or a first
/// component that is the current directory.
pub open spec fn is_unix_socket_path(s: Seq<char>) -> bool {
    ||| s.len() > 0 && s[0] == '/'
    ||| s == seq!['.']
    ||| s.len() >= 2 && s[0] == '.' && s[1] == '/'
}

/// `PathBuf::join`.
pub fn path_join(dir: &str, name: &str) -> (r: String)
    ensures
        r@ == join(dir@, name@),
{
    let nlen = name.unicode_len();
    if nlen > 0 && name.get_char(0) == '/' {
        return to_string(name);
    }
    let dlen = dir.unicode_len();
    let mut r = to_string(dir);
    if dlen > 0 && dir.get_char(dlen - 1) != '/' {
        push_char(&mut r, '/');
    }
    push_str(&mut r, name);
    r
}

proof fn lemma_seg_start_le(s: Seq<char>)
    ensures
        seg_start(s) <= s.len(),
    decreases s.len(),
{
    if s.len() > 0 && s.last() != '/' {
        lemma_seg_start_le(s.drop_last());
    }
}

/// Start of the last `/`-free run of `s[..j]`.
fn find_seg_start(s: &str, j: usize) -> (i: usize)
    requires
        j <= s@.len(),
    ensures
        i <= j,
        i == seg_start(s@.subrange(0, j as int)),
{
    let mut k = j;
    while k > 0 && s.get_char(k - 1) != '/'
        invariant
            k <= j <= s@.len(),
            seg_start(s@.subrange(0, j as int)) == seg_start(s@.subrange(0, k as int)),
        decreases k,
    {
        proof {
            let sub = s@.subrange(0, k as int);
            assert(sub.drop_last() =~= s@.subrange(0, k - 1));
        }
        k = k - 1;
    }
    k
}

/// `Path::file_name`, as a `(start, end)` character range of `s`.
fn file_name_range(s: &str) -> (r: Option<(usize, usize)>)
    ensures
        match r {
            Some((a, b)) => a <= b <= s@.len() && file_name(s@) == Some(
                s@.subrange(a as int, b as int),
            ),
            None => file_name(s@) is None,
        },
{
    let n = s.unicode_len();
    let mut j = n;
    assert(s@.subrange(0, n as int) =~= s@);
    loop
        invariant
            j <= n,
            n == s@.len(),
            file_name(s@) == file_name(s@.subrange(0, j as int)),
        decreases j,
    {
        let ghost sub = s@.subrange(0, j as int);
        if j == 0 {
            return None;
        }
        if s.get_char(j - 1) == '/' {
            proof {
                assert(sub.drop_last() =~= s@.subrange(0, j - 1));
            }
            j = j - 1;
        } else {
            let i = find_seg_start(s, j);
            proof {
                assert(sub.last() == s@[j - 1]);
                assert(sub.drop_last() =~= s@.subrange(0, j - 1));
                assert(seg_start(sub) == seg_start(sub.drop_last()));
                assert(sub.subrange(i as int, j as int) =~= s@.subrange(i as int, j as int));
            }
            let len = j - i;
            let is_dot = len == 1 && s.get_char(i) == '.';
            let is_dotdot = len == 2 && s.get_char(i) == '.' && s.get_char(i + 1) == '.';
            proof {
                let seg = s@.subrange(i as int, j as int);
                if is_dot {
                    assert(seg =~= seq!['.']);
                } else {
                    assert(seg != seq!['.']) by {
                        if seg == seq!['.'] {
                            assert(seg.len() == 1 && seg[0] == '.');
                        }
                    }
                }
                if is_dotdot {
                    assert(seg =~= seq!['.', '.']);
                } else {
                    assert(seg != seq!['.', '.']) by {
                        if seg == seq!['.', '.'] {
                            assert(seg.len() == 2 && seg[0] == '.' && seg[1] == '.');
                        }
                    }
                }
            }
            if is_dot {
                if i < j {
                    proof {
                        assert(sub.subrange(0, i as int) =~= s@.subrange(0, i as int));
                    }
                    j = i;
                } else {
                    return None;
                }
            } else if is_dotdot {
                return None;
            } else {
                return Some((i, j));
            }
        }
    }
}

/// The last normal component of `path`, or `path` itself when it has none
/// (`Path::file_name` with the whole path as fallback).
pub fn basename(path: &str) -> (r: &str)
    ensures
        r@ == basename_spec(path@),
{
    match file_name_range(path) {
        Some((a, b)) => path.substring_char(a, b),
        None => path,
    }
}

/// Whether `path` names a filesystem socket rather than a network address:
/// absolute, or starting at the current directory.
pub fn socket_is_unix_path(path: &str) -> (b: bool)
    ensures
        b == is_unix_socket_path(path@),
{
    let n = path.unicode_len();
    if n == 0 {
        return false;
    }
    let c0 = path.get_char(0);
    if c0 == '/' {
        return true;
    }
    if c0 != '.' {
        return false;
    }
    if n == 1 {
        assert(path@ =~= seq!['.']);
        return true;
    }
    let c1 = path.get_char(1);
    let r = c1 == '/';
    proof {
        if path@ == seq!['.'] {
            assert(path@.len() == 1);
        }
    }
    r
}

/// The directory that holds the vps config files, given `$XDG_CONFIG_HOME`
/// and `$HOME` (each `None` when unset or not Unicode).
pub open spec fn config_dir_spec(xdg: Option<Seq<char>>, home: Option<Seq<char>>) -> Seq<char> {
    match xdg {
        Some(d) if d.len() > 0 => join(d, seq!['v', 'p', 's']),
        _ => match home {
            Some(h) => join(h, seq!['.', 'c', 'o', 'n', 'f', 'i', 'g', '/', 'v', 'p', 's']),
            None => seq!['.'],
        },
    }
}

pub open spec fn opt_view(o: Option<&str>) -> Option<Seq<char>> {
    match o {
        Some(s) => Some(s@),
        None => None,
    }
}

/// `$XDG_CONFIG_HOME/vps` when set and non-empty, else `$HOME/.config/vps`,
/// else `.`.
pub fn config_dir(xdg_config_home: Option<&str>, home: Option<&str>) -> (r: String)
    ensures
        r@ == config_dir_spec(opt_view(xdg_config_home), opt_view(home)),
{
    proof {
        reveal_strlit("vps");
        reveal_strlit(".config/vps");
        reveal_strlit(".");
    }
    if let Some(d) = xdg_config_home {
        if d.unicode_len() > 0 {
            let r = path_join(d, "vps");
            assert("vps"@ =~= seq!['v', 'p', 's']);
            return r;
        }
    }
    match home {
        Some(h) => {
            let r = path_join(h, ".config/vps");
            assert(".config/vps"@ =~= seq!['.', 'c', 'o', 'n', 'f', 'i', 'g', '/', 'v', 'p', 's']);
            r
        },
        None => {
            let r = to_string(".");
            assert("."@ =~= seq!['.']);
            r
        },
    }
}

} // verus!
