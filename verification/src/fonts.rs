//! Which fontconfig patterns the picker window loads, and what it calls
//! the family. The window does not read fontconfig by itself: each pattern
//! is looked up with `fc-match`, and the files found are registered.
use vstd::prelude::*;
use crate::text::{cat, push_arg, split_char, str_eq, strs, to_string, trim, trim_str};

verus! {

/// The fonts loaded for the picker window.
pub struct Loaded {
    /// The family name the window's default font uses.
    pub family: String,
    /// The bytes of each font file found, one per face.
    pub faces: Vec<Vec<u8>>,
}

/// The family asked for: the configured one, or `monospace` when that is
/// blank.
pub open spec fn query_spec(family: Seq<char>) -> Seq<char> {
    if trim(family).len() == 0 {
        "monospace"@
    } else {
        trim(family)
    }
}

pub fn font_query(family: &str) -> (r: String)
    ensures
        r@ == query_spec(family@),
{
    let t = trim_str(family);
    if t.unicode_len() == 0 {
        to_string("monospace")
    } else {
        to_string(t)
    }
}

/// The styles looked up besides the plain face.
pub open spec fn styles() -> Seq<Seq<char>> {
    seq![
        ":style=Bold"@,
        ":style=Oblique"@,
        ":style=Italic"@,
        ":style=Bold Oblique"@,
        ":style=Bold Italic"@,
    ]
}

/// The non-blank extra patterns, trimmed.
pub open spec fn extra_patterns(extras: Seq<Seq<char>>) -> Seq<Seq<char>>
    decreases extras.len(),
{
    if extras.len() == 0 {
        Seq::empty()
    } else {
        let prev = extra_patterns(extras.drop_last());
        if trim(extras.last()).len() > 0 {
            prev.push(trim(extras.last()))
        } else {
            prev
        }
    }
}

/// The patterns looked up, in order: the query, the query in each style,
/// then the extra patterns that are not blank.
pub open spec fn patterns_spec(query: Seq<char>, extras: Seq<Seq<char>>) -> Seq<Seq<char>> {
    seq![query] + styles().map_values(|st: Seq<char>| query + st) + extra_patterns(extras)
}

pub fn font_patterns(query: &str, extras: &Vec<String>) -> (r: Vec<String>)
    ensures
        strs(r@) == patterns_spec(query@, strs(extras@)),
{
    let mut out: Vec<String> = Vec::new();
    push_arg(&mut out, to_string(query));
    push_arg(&mut out, cat(query, ":style=Bold"));
    push_arg(&mut out, cat(query, ":style=Oblique"));
    push_arg(&mut out, cat(query, ":style=Italic"));
    push_arg(&mut out, cat(query, ":style=Bold Oblique"));
    push_arg(&mut out, cat(query, ":style=Bold Italic"));
    let ghost head = strs(out@);
    proof {
        assert(head =~= seq![query@] + styles().map_values(|st: Seq<char>| query@ + st));
    }
    let mut i: usize = 0;
    while i < extras.len()
        invariant
            i <= extras@.len(),
            strs(out@) == head + extra_patterns(strs(extras@.subrange(0, i as int))),
        decreases extras@.len() - i,
    {
        proof {
            assert(strs(extras@.subrange(0, i + 1)).drop_last() =~= strs(
                extras@.subrange(0, i as int),
            ));
        }
        let t = trim_str(extras[i].as_str());
        if t.unicode_len() > 0 {
            let ghost before = strs(out@);
            push_arg(&mut out, to_string(t));
            proof {
                assert(strs(out@) =~= before.push(t@));
            }
        }
        i = i + 1;
    }
    assert(extras@.subrange(0, extras@.len() as int) =~= extras@);
    out
}

/// The family name to use: the first comma-separated name `fc-match`
/// reported for the query (`found`), trimmed, or the query itself when it
/// reported none.
pub open spec fn family_spec(query: Seq<char>, found: Option<Seq<char>>) -> Seq<char> {
    match found {
        Some(s) => if trim(split_char(s, ',')[0]).len() > 0 {
            trim(split_char(s, ',')[0])
        } else {
            query
        },
        None => query,
    }
}

pub fn family_name(query: &str, found: Option<&str>) -> (r: String)
    ensures
        r@ == family_spec(query@, match found {
            Some(s) => Some(s@),
            None => None,
        }),
{
    match found {
        Some(s) => {
            let parts = crate::text::split_on(s, ',');
            proof {
                crate::text::lemma_split_char_nonempty(s@, ',');
            }
            let first = trim_str(parts[0].as_str());
            if first.unicode_len() > 0 {
                to_string(first)
            } else {
                to_string(query)
            }
        },
        None => to_string(query),
    }
}

/// Adds a font file path unless it is already listed.
pub fn push_unique(paths: &mut Vec<String>, p: String)
    ensures
        strs(final(paths)@) == if strs(old(paths)@).contains(p@) {
            strs(old(paths)@)
        } else {
            strs(old(paths)@).push(p@)
        },
{
    let mut i: usize = 0;
    while i < paths.len()
        invariant
            i <= paths@.len(),
            forall|k: int| 0 <= k < i ==> paths@[k]@ != p@,
        decreases paths@.len() - i,
    {
        if str_eq(paths[i].as_str(), p.as_str()) {
            proof {
                assert(strs(paths@)[i as int] == p@);
            }
            return;
        }
        i = i + 1;
    }
    proof {
        assert forall|k: int| 0 <= k < strs(paths@).len() implies strs(paths@)[k] != p@ by {
            assert(strs(paths@)[k] == paths@[k]@);
        }
    }
    let ghost before = strs(paths@);
    push_arg(paths, p);
    assert(strs(paths@) =~= before.push(p@));
}

/// A list of font files with no path twice stays so when `push_unique`
/// adds to it.
pub proof fn lemma_push_unique_no_duplicates(old_paths: Seq<Seq<char>>, p: Seq<char>)
    requires
        old_paths.no_duplicates(),
    ensures
        (if old_paths.contains(p) {
            old_paths
        } else {
            old_paths.push(p)
        }).no_duplicates(),
{
    if !old_paths.contains(p) {
        let s = old_paths.push(p);
        assert forall|i: int, j: int| 0 <= i < s.len() && 0 <= j < s.len() && i != j implies s[i]
            != s[j] by {
            if i == old_paths.len() {
                assert(old_paths[j] == s[j]);
            } else if j == old_paths.len() {
                assert(old_paths[i] == s[i]);
            }
        }
    }
}

} // verus!
