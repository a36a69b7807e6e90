//! The home directory and the path functions of std that the program uses on
//! paths it composes.
use vstd::prelude::*;
use crate::text::{chars_of, opt_view, string_of_range};

verus! {

/// The user's home directory (the `dirs` crate's `home_dir`, as text with
/// any invalid UTF-8 replaced). It depends on the environment and on the
/// system's user database: nothing is claimed of the result.
#[verifier::external_body]
pub(crate) fn home_dir() -> Option<String> {
    dirs::home_dir().map(|h| h.to_string_lossy().to_string())
}

/// What std's `Path::file_name` makes of the path `p`: its last component,
/// or nothing when the path ends in `..` or is a root or a prefix.
pub uninterp spec fn file_name_of(p: Seq<char>) -> Option<Seq<char>>;

/// What std's `Path::parent` makes of the path `p`: the path without its
/// last component, or nothing when it ends in a root or a prefix.
pub uninterp spec fn parent_of(p: Seq<char>) -> Option<Seq<char>>;

/// std's `Path::file_name` on a path given as text; the contract names its result.
#[verifier::external_body]
pub(crate) fn path_file_name(p: &str) -> (r: Option<String>)
    ensures
        match r {
            Some(s) => file_name_of(p@) == Some(s@),
            None => file_name_of(p@) is None,
        },
{
    std::path::Path::new(p).file_name().map(|n| n.to_string_lossy().to_string())
}

/// std's `Path::parent` on a path given as text; the contract names its result.
#[verifier::external_body]
pub(crate) fn path_parent(p: &str) -> (r: Option<String>)
    ensures
        match r {
            Some(s) => parent_of(p@) == Some(s@),
            None => parent_of(p@) is None,
        },
{
    std::path::Path::new(p).parent().map(|d| d.to_string_lossy().to_string())
}

/// `i` is the position of the last `.` of `f`.
pub open spec fn is_last_dot(f: Seq<char>, i: int) -> bool {
    0 <= i < f.len() && f[i] == '.' && forall|j: int| i < j < f.len() ==> f[j] != '.'
}

/// The extension of the file name `f`, as std's `Path::extension` documents
/// it: what follows the last `.`, unless there is no `.` or the only one
/// begins the name.
pub open spec fn extension_of(f: Seq<char>) -> Option<Seq<char>> {
    if exists|i: int| 0 <= i < f.len() && f[i] == '.' {
        let i = choose|i: int| is_last_dot(f, i);
        if i == 0 {
            None
        } else {
            Some(f.skip(i + 1))
        }
    } else {
        None
    }
}

/// The extension of the path `p`: that of its last component.
pub open spec fn path_extension_of(p: Seq<char>) -> Option<Seq<char>> {
    match file_name_of(p) {
        Some(f) => extension_of(f),
        None => None,
    }
}

/// The extension of the file name `f`: what follows its last `.`, unless it
/// has no `.` or its only one begins the name.
pub fn file_name_extension(f: &str) -> (r: Option<String>)
    ensures
        opt_view(r) == extension_of(f@),
{
    let v = chars_of(f);
    let mut i: usize = v.len();
    while i > 0 && v[i - 1] != '.'
        invariant
            i <= v.len(),
            v@ == f@,
            forall|j: int| i <= j < v.len() ==> v@[j] != '.',
        decreases i,
    {
        i = i - 1;
    }
    if i == 0 {
        return None;
    }
    let dot = i - 1;
    assert(is_last_dot(f@, dot as int));
    proof {
        let c = choose|x: int| is_last_dot(f@, x);
        if c < dot {
            assert(f@[dot as int] != '.');
        }
        if dot < c {
            assert(f@[c] != '.');
        }
    }
    if dot == 0 {
        return None;
    }
    let e = string_of_range(&v, dot + 1, v.len());
    assert(e@ =~= f@.skip(dot + 1));
    Some(e)
}

/// The extension of the path `p` (std's `Path::extension`).
pub fn path_extension(p: &str) -> (r: Option<String>)
    ensures
        opt_view(r) == path_extension_of(p@),
{
    match path_file_name(p) {
        Some(f) => file_name_extension(f.as_str()),
        None => None,
    }
}

/// The stem of the file name `f`, as std's `Path::file_stem` documents it:
/// what comes before the last `.`, or the whole name when it has no `.` or
/// its only one begins the name.
pub open spec fn stem_of(f: Seq<char>) -> Seq<char> {
    if exists|i: int| 0 <= i < f.len() && f[i] == '.' {
        let i = choose|i: int| is_last_dot(f, i);
        if i == 0 {
            f
        } else {
            f.take(i)
        }
    } else {
        f
    }
}

/// The name of the plugin that a file named `f` configures: the stem of a
/// `.toml` file; nothing for another file.
pub open spec fn plugin_name_of_file(f: Seq<char>) -> Option<Seq<char>> {
    if extension_of(f) == Some("toml"@) {
        Some(stem_of(f))
    } else {
        None
    }
}

/// The name of the plugin that the file `p` of the plugins folder
/// configures: that of its last component.
pub open spec fn plugin_name_of(p: Seq<char>) -> Option<Seq<char>> {
    match file_name_of(p) {
        Some(f) => plugin_name_of_file(f),
        None => None,
    }
}

/// The name of the plugin that a file named `f` configures, if it is a
/// `.toml` file.
pub fn plugin_name_of_file_name(f: &str) -> (r: Option<String>)
    ensures
        opt_view(r) == plugin_name_of_file(f@),
{
    let v = chars_of(f);
    let mut i: usize = v.len();
    while i > 0 && v[i - 1] != '.'
        invariant
            i <= v.len(),
            v@ == f@,
            forall|j: int| i <= j < v.len() ==> v@[j] != '.',
        decreases i,
    {
        i = i - 1;
    }
    if i <= 1 {
        proof {
            if i == 1 {
                assert(is_last_dot(f@, 0));
                let c = choose|x: int| is_last_dot(f@, x);
                if 0 < c {
                    assert(f@[c] != '.');
                }
            }
        }
        return None;
    }
    let dot = i - 1;
    assert(is_last_dot(f@, dot as int));
    proof {
        let c = choose|x: int| is_last_dot(f@, x);
        if c < dot {
            assert(f@[dot as int] != '.');
        }
        if dot < c {
            assert(f@[c] != '.');
        }
        reveal_strlit("toml");
    }
    let ext = string_of_range(&v, dot + 1, v.len());
    assert(ext@ =~= f@.skip(dot + 1));
    if ext == String::from_str("toml") {
        let stem = string_of_range(&v, 0, dot);
        assert(stem@ =~= f@.take(dot as int));
        Some(stem)
    } else {
        None
    }
}

/// The name of the plugin that the file `p` configures, if it is a `.toml` file.
pub fn plugin_file_name(p: &str) -> (r: Option<String>)
    ensures
        opt_view(r) == plugin_name_of(p@),
{
    match path_file_name(p) {
        Some(f) => plugin_name_of_file_name(f.as_str()),
        None => None,
    }
}

} // verus!
