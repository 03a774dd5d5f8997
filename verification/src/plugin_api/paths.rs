//! Paths as text: components separated by `/`, no trailing separator.

use vstd::prelude::*;
use vstd::string::{StrSliceExecFns, StringExecFns};

verus! {

/// The position right after the last `c` in `s`, or 0 where `s` holds none.
pub open spec fn after_last(s: Seq<char>, c: char) -> int
    decreases s.len(),
{
    if s.len() == 0 {
        0
    } else if s.last() == c {
        s.len() as int
    } else {
        after_last(s.drop_last(), c)
    }
}

/// The last component of `path`, or nothing where it is empty.
pub open spec fn file_name_of(path: Seq<char>) -> Option<Seq<char>> {
    let name = path.subrange(after_last(path, '/'), path.len() as int);
    if name.len() == 0 {
        None
    } else {
        Some(name)
    }
}

/// The text after the last `.` of the last component. A component without
/// a `.`, or whose only `.` is its first character, has no extension.
pub open spec fn extension_of(path: Seq<char>) -> Option<Seq<char>> {
    match file_name_of(path) {
        None => None,
        Some(name) => {
            let dot = after_last(name, '.');
            if dot <= 1 {
                None
            } else {
                Some(name.subrange(dot, name.len() as int))
            }
        },
    }
}

/// The last component without its extension and the `.` before it.
pub open spec fn file_stem_of(path: Seq<char>) -> Option<Seq<char>> {
    match file_name_of(path) {
        None => None,
        Some(name) => {
            let dot = after_last(name, '.');
            if dot <= 1 {
                Some(name)
            } else {
                Some(name.subrange(0, dot - 1))
            }
        },
    }
}

/// `rel` below `dir`; below the empty directory a path is itself.
pub open spec fn join_of(dir: Seq<char>, rel: Seq<char>) -> Seq<char> {
    if dir.len() == 0 {
        rel
    } else {
        dir + seq!['/'] + rel
    }
}

/// What remains of `path` below `dir`, where `path` lies strictly below it.
pub open spec fn relative_of(path: Seq<char>, dir: Seq<char>) -> Option<Seq<char>> {
    let prefix = dir + seq!['/'];
    if prefix.len() < path.len() && path.subrange(0, prefix.len() as int) == prefix {
        Some(path.subrange(prefix.len() as int, path.len() as int))
    } else {
        None
    }
}

/// The position right after the last `c` in `s`, or 0.
pub fn scan_back(s: &str, c: char) -> (r: usize)
    ensures
        r == after_last(s@, c),
        r <= s@.len(),
{
    let n = s.unicode_len();
    let mut i: usize = n;
    assert(s@.take(n as int) =~= s@);
    while i > 0
        invariant
            i <= n,
            n == s@.len(),
            after_last(s@, c) == after_last(s@.take(i as int), c),
        decreases i,
    {
        if s.get_char(i - 1) == c {
            assert(s@.take(i as int).last() == c);
            return i;
        }
        proof {
            assert(s@.take(i as int).drop_last() =~= s@.take(i - 1));
        }
        i -= 1;
    }
    0
}

/// The last component of `path`.
pub fn file_name(path: &str) -> (r: Option<String>)
    ensures
        match r {
            Some(name) => file_name_of(path@) == Some(name@),
            None => file_name_of(path@) is None,
        },
{
    let start = scan_back(path, '/');
    let n = path.unicode_len();
    if start == n {
        None
    } else {
        Some(path.substring_char(start, n).to_owned())
    }
}

/// The extension of the last component of `path`.
pub fn extension(path: &str) -> (r: Option<String>)
    ensures
        match r {
            Some(ext) => extension_of(path@) == Some(ext@),
            None => extension_of(path@) is None,
        },
{
    match file_name(path) {
        None => None,
        Some(name) => {
            let dot = scan_back(name.as_str(), '.');
            if dot <= 1 {
                None
            } else {
                let n = name.as_str().unicode_len();
                Some(name.as_str().substring_char(dot, n).to_owned())
            }
        },
    }
}

/// The last component of `path` without its extension.
pub fn file_stem(path: &str) -> (r: Option<String>)
    ensures
        match r {
            Some(stem) => file_stem_of(path@) == Some(stem@),
            None => file_stem_of(path@) is None,
        },
{
    match file_name(path) {
        None => None,
        Some(name) => {
            let dot = scan_back(name.as_str(), '.');
            if dot <= 1 {
                Some(name)
            } else {
                Some(name.as_str().substring_char(0, dot - 1).to_owned())
            }
        },
    }
}

/// `rel` below `dir`.
pub fn join(dir: &str, rel: &str) -> (r: String)
    ensures
        r@ == join_of(dir@, rel@),
{
    if dir.unicode_len() == 0 {
        rel.to_owned()
    } else {
        proof {
            reveal_strlit("/");
            assert("/"@ =~= seq!['/']);
        }
        dir.to_owned().concat("/").concat(rel)
    }
}

/// What remains of `path` below `dir`.
pub fn relative_to(path: &str, dir: &str) -> (r: Option<String>)
    ensures
        match r {
            Some(rel) => relative_of(path@, dir@) == Some(rel@),
            None => relative_of(path@, dir@) is None,
        },
{
    let n = path.unicode_len();
    let d = dir.unicode_len();
    if d >= n || n - d < 2 {
        return None;
    }
    let ghost prefix = dir@ + seq!['/'];
    let mut i: usize = 0;
    while i < d
        invariant
            i <= d,
            d == dir@.len(),
            n == path@.len(),
            d + 1 < n,
            prefix == dir@ + seq!['/'],
            forall|j: int| 0 <= j < i ==> path@[j] == dir@[j],
        decreases d - i,
    {
        if path.get_char(i) != dir.get_char(i) {
            assert(path@.subrange(0, prefix.len() as int)[i as int] != prefix[i as int]);
            return None;
        }
        i += 1;
    }
    if path.get_char(d) != '/' {
        assert(path@.subrange(0, prefix.len() as int)[d as int] != prefix[d as int]);
        return None;
    }
    assert(path@.subrange(0, prefix.len() as int) =~= prefix);
    Some(path.substring_char(d + 1, n).to_owned())
}

} // verus!
