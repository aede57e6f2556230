//! Path handling on plain UTF-8 strings.
//!
//! Paths in this crate are strings whose components are separated by `/`.
//! The functions here decompose a path into its parent, its file name and
//! its extension, and join components into a path.

use crate::error::Error;
use crate::error::ErrorKind;
use crate::error::ErrorModel;
use crate::error::kind_default_msg;
use vstd::prelude::*;

verus! {

/// The index of the last occurrence of `c` in `s`, or `-1` when `c` does
/// not occur.
pub open spec fn rlast_index_of(s: Seq<char>, c: char) -> int
    decreases s.len(),
{
    if s.len() == 0 {
        -1
    } else if s[s.len() - 1] == c {
        s.len() - 1
    } else {
        rlast_index_of(s.drop_last(), c)
    }
}

/// `rlast_index_of` names the last occurrence: the character there is `c`,
/// and no later character is.
pub proof fn lemma_rlast_index_of(s: Seq<char>, c: char)
    ensures
        -1 <= rlast_index_of(s, c) < s.len(),
        rlast_index_of(s, c) >= 0 ==> s[rlast_index_of(s, c)] == c,
        forall|j: int| rlast_index_of(s, c) < j < s.len() ==> s[j] != c,
    decreases s.len(),
{
    if s.len() == 0 {
    } else if s[s.len() - 1] == c {
    } else {
        lemma_rlast_index_of(s.drop_last(), c);
        assert(forall|j: int| 0 <= j < s.len() - 1 ==> s[j] == s.drop_last()[j]);
    }
}

/// Join a single entry onto a base path: an absolute entry (one starting
/// with `/`) replaces the base; otherwise a `/` separator is inserted
/// unless the base is empty or already ends with one.
pub open spec fn join_paths(base: Seq<char>, entry: Seq<char>) -> Seq<char> {
    if entry.len() > 0 && entry[0] == '/' {
        entry
    } else if base.len() == 0 {
        entry
    } else if base[base.len() - 1] == '/' {
        base + entry
    } else {
        base + seq!['/'] + entry
    }
}

/// A path with its trailing separators and trailing `.` components cut
/// off: `"a/x//"` becomes `"a/x"` and `"a/x/."` becomes `"a/x"`, while a
/// trailing `..` component stays.
pub open spec fn trim_end(p: Seq<char>) -> Seq<char>
    decreases p.len(),
{
    if p.len() == 0 {
        p
    } else if p.last() == '/' {
        trim_end(p.drop_last())
    } else if p.last() == '.' && (p.len() == 1 || p[p.len() - 2] == '/') {
        trim_end(p.drop_last())
    } else {
        p
    }
}

/// `trim_end` cuts a suffix off: the result is a prefix of the path, and
/// ends neither with a separator nor with a lone `.` component.
pub proof fn lemma_trim_end(p: Seq<char>)
    ensures
        trim_end(p).len() <= p.len(),
        trim_end(p) == p.subrange(0, trim_end(p).len() as int),
        trim_end(p).len() > 0 ==> trim_end(p).last() != '/',
        trim_end(p).len() > 0 ==> !(trim_end(p).last() == '.' && (trim_end(p).len() == 1
            || trim_end(p)[trim_end(p).len() - 2] == '/')),
    decreases p.len(),
{
    if p.len() == 0 {
        assert(trim_end(p) =~= p.subrange(0, 0));
    } else if p.last() == '/' || (p.last() == '.' && (p.len() == 1 || p[p.len() - 2] == '/')) {
        lemma_trim_end(p.drop_last());
        assert(p.drop_last() =~= p.subrange(0, p.len() - 1));
        assert(p.drop_last().subrange(0, trim_end(p).len() as int) =~= p.subrange(
            0,
            trim_end(p).len() as int,
        ));
    } else {
        assert(trim_end(p) =~= p.subrange(0, p.len() as int));
    }
}

/// The file name of a path: its final component, ignoring trailing
/// separators and trailing `.` components. Empty when the path has no file
/// name: an empty or root path, or a final `..` component.
pub open spec fn name_of(p: Seq<char>) -> Seq<char> {
    let q = trim_end(p);
    let c = q.subrange(rlast_index_of(q, '/') + 1, q.len() as int);
    if c.len() == 2 && c[0] == '.' && c[1] == '.' {
        Seq::empty()
    } else {
        c
    }
}

/// The parent of a path: the path with its final component cut off,
/// ignoring trailing separators and trailing `.` components. The root and
/// the empty path have none; a path of one relative component has the
/// empty parent; a component right under the root has the parent `/`.
pub open spec fn parent_of(p: Seq<char>) -> Option<Seq<char>> {
    let q = trim_end(p);
    if q.len() == 0 {
        if p.len() == 0 || p[0] == '/' {
            None
        } else {
            Some(Seq::<char>::empty())
        }
    } else {
        let r = rlast_index_of(q, '/');
        if r == -1 {
            Some(Seq::<char>::empty())
        } else {
            let t = trim_end(q.subrange(0, r + 1));
            if t.len() == 0 {
                if q[0] == '/' {
                    Some(seq!['/'])
                } else {
                    Some(seq!['.'])
                }
            } else {
                Some(t)
            }
        }
    }
}

/// The file name of a path with its extension cut off: the name truncated
/// at its last `.`, or the whole name when it has none.
pub open spec fn name_without_ext_of(p: Seq<char>) -> Seq<char> {
    let n = name_of(p);
    let d = rlast_index_of(n, '.');
    if d == -1 {
        n
    } else {
        n.subrange(0, d)
    }
}

/// The extension of a path: everything after the last `.` of the file name,
/// provided that `.` is not the name's first character. A name without a
/// `.`, or with one only at the front, has no extension.
pub open spec fn extension_of(p: Seq<char>) -> Option<Seq<char>> {
    let n = name_of(p);
    let d = rlast_index_of(n, '.');
    if d <= 0 {
        None
    } else {
        Some(n.subrange(d + 1, n.len() as int))
    }
}

/// Joining a real entry name (non-empty, no separator, not `.` or `..`)
/// onto a base path puts that name after the path's last separator: the
/// joined path's file name is the name that was joined on.
pub proof fn lemma_name_of_join(base: Seq<char>, entry: Seq<char>)
    requires
        entry.len() > 0,
        !entry.contains('/'),
        !(entry.len() == 1 && entry[0] == '.'),
        !(entry.len() == 2 && entry[0] == '.' && entry[1] == '.'),
    ensures
        name_of(join_paths(base, entry)) == entry,
{
    let joined = join_paths(base, entry);
    assert(entry[0] != '/');
    // nothing of the joined path is trimmed: it ends with the entry, which
    // is neither a separator nor a lone `.` component
    assert(joined.last() == entry.last());
    if joined.last() == '.' {
        if joined.len() == 1 {
            assert(entry.len() == 1 && entry[0] == '.');
            assert(false);
        }
        if joined[joined.len() - 2] == '/' {
            if entry.len() >= 2 {
                assert(joined[joined.len() - 2] == entry[entry.len() - 2]);
                assert(entry.contains('/'));
                assert(false);
            } else {
                assert(entry.len() == 1 && entry[0] == '.');
                assert(false);
            }
        }
    }
    assert(trim_end(joined) == joined);
    lemma_rlast_index_of(joined, '/');
    let r = rlast_index_of(joined, '/');
    if base.len() == 0 {
        if r >= 0 {
            assert(joined[r] == '/');
            assert(entry[r] == '/');
            assert(entry.contains('/'));
        }
        assert(r == -1);
        assert(joined.subrange(0, joined.len() as int) =~= entry);
    } else {
        let idx: int = if base[base.len() - 1] == '/' {
            base.len() - 1
        } else {
            base.len() as int
        };
        assert(joined[idx] == '/');
        assert forall|j: int| idx < j < joined.len() implies joined[j] != '/' by {
            assert(joined[j] == entry[j - (idx + 1)]);
            if joined[j] == '/' {
                assert(entry.contains('/'));
            }
        }
        if r < idx {
            assert(joined[idx] != '/');
            assert(false);
        }
        if r > idx {
            assert(joined[r] != '/');
            assert(false);
        }
        assert(joined.subrange(idx + 1, joined.len() as int) =~= entry);
    }
}

/// The error value reporting the given kind with its default message and no
/// path attached.
pub open spec fn default_error(kind: ErrorKind) -> ErrorModel {
    ErrorModel { kind, message: kind_default_msg(kind), path: None }
}

/// Find the last occurrence of `c` in `s`.
pub fn rfind_char(s: &str, c: char) -> (r: Option<usize>)
    ensures
        match r {
            Some(i) => rlast_index_of(s@, c) == i as int,
            None => rlast_index_of(s@, c) == -1,
        },
{
    let n = s.unicode_len();
    let mut i = n;
    while 0 < i
        invariant
            i <= n,
            n == s@.len(),
            forall|j: int| i <= j < n ==> s@[j] != c,
        decreases i,
    {
        i = i - 1;
        if s.get_char(i) == c {
            proof {
                lemma_rlast_index_of(s@, c);
                let r = rlast_index_of(s@, c);
                if r > i as int {
                    assert(s@[r] != c);
                }
                if r < i as int {
                    assert(s@[i as int] != c);
                }
            }
            return Some(i);
        }
    }
    proof {
        lemma_rlast_index_of(s@, c);
        let r = rlast_index_of(s@, c);
        if r >= 0 {
            assert(s@[r] != c);
        }
    }
    None
}

/// The length of the path's normalized prefix: the path without its
/// trailing separators and trailing `.` components.
pub fn trimmed_len(s: &str) -> (m: usize)
    ensures
        m <= s@.len(),
        trim_end(s@) == s@.subrange(0, m as int),
        trim_end(s@).len() == m,
{
    let n = s.unicode_len();
    let mut i = n;
    proof {
        assert(s@.subrange(0, n as int) =~= s@);
    }
    while 0 < i
        invariant
            i <= n,
            n == s@.len(),
            trim_end(s@) == trim_end(s@.subrange(0, i as int)),
        ensures
            i > 0 ==> s@[i - 1] != '/',
            i > 0 ==> !(s@[i - 1] == '.' && (i == 1 || s@[i - 2] == '/')),
        decreases i,
    {
        let c = s.get_char(i - 1);
        let ghost q = s@.subrange(0, i as int);
        if c == '/' {
            proof {
                assert(q.last() == '/');
                assert(q.drop_last() =~= s@.subrange(0, i - 1));
            }
            i = i - 1;
        } else if c == '.' && (i == 1 || s.get_char(i - 2) == '/') {
            proof {
                assert(q.last() == '.');
                assert(q.drop_last() =~= s@.subrange(0, i - 1));
            }
            i = i - 1;
        } else {
            break;
        }
    }
    proof {
        let q = s@.subrange(0, i as int);
        if i > 0 {
            assert(q.last() == s@[i - 1]);
            assert(i as int >= 2 ==> q[i - 2] == s@[i - 2]);
            assert(trim_end(q) == q);
        } else {
            assert(q =~= Seq::<char>::empty());
            assert(trim_end(q) == q);
        }
    }
    i
}

/// The file name of the path (including the extension).
pub fn name(path: &str) -> (r: Result<&str, Error>)
    ensures
        match r {
            Ok(nm) => nm@ == name_of(path@) && name_of(path@).len() > 0,
            Err(e) => name_of(path@).len() == 0 && e@ == default_error(
                ErrorKind::PathNoFilenameFound,
            ),
        },
{
    let m = trimmed_len(path);
    if m == 0 {
        proof {
            assert(name_of(path@) =~= Seq::<char>::empty());
        }
        return Err(Error::new_from_kind(ErrorKind::PathNoFilenameFound));
    }
    let q = path.substring_char(0, m);
    let start: usize = match rfind_char(q, '/') {
        Some(i) => {
            proof {
                lemma_rlast_index_of(q@, '/');
                lemma_trim_end(path@);
                if i + 1 == m {
                    assert(q@.last() == '/');
                    assert(false);
                }
            }
            i + 1
        },
        None => 0,
    };
    let c = q.substring_char(start, m);
    proof {
        assert(c@ =~= trim_end(path@).subrange(
            rlast_index_of(trim_end(path@), '/') + 1,
            trim_end(path@).len() as int,
        ));
    }
    if c.unicode_len() == 2 && c.get_char(0) == '.' && c.get_char(1) == '.' {
        Err(Error::new_from_kind(ErrorKind::PathNoFilenameFound))
    } else {
        Ok(c)
    }
}

/// A path that trims away entirely is built of separators and `.`
/// components alone, so it starts with one of the two.
proof fn lemma_trim_end_all_dots_or_slashes(p: Seq<char>)
    requires
        p.len() > 0,
        trim_end(p).len() == 0,
    ensures
        p[0] == '/' || p[0] == '.',
    decreases p.len(),
{
    if p.last() == '/' || (p.last() == '.' && (p.len() == 1 || p[p.len() - 2] == '/')) {
        if p.len() > 1 {
            lemma_trim_end_all_dots_or_slashes(p.drop_last());
            assert(p.drop_last()[0] == p[0]);
        }
    } else {
        assert(trim_end(p) == p);
        assert(false);
    }
}

/// The parent directory of the path.
pub fn parent(path: &str) -> (r: Result<&str, Error>)
    ensures
        match r {
            Ok(p) => parent_of(path@) == Some(p@),
            Err(e) => parent_of(path@) is None && e@ == default_error(
                ErrorKind::PathNoParentFound,
            ),
        },
{
    let m = trimmed_len(path);
    if m == 0 {
        if path.unicode_len() == 0 || path.get_char(0) == '/' {
            return Err(Error::new_from_kind(ErrorKind::PathNoParentFound));
        }
        let empty = path.substring_char(0, 0);
        proof {
            assert(empty@ =~= Seq::<char>::empty());
        }
        return Ok(empty);
    }
    let q = path.substring_char(0, m);
    match rfind_char(q, '/') {
        None => {
            let empty = path.substring_char(0, 0);
            proof {
                assert(empty@ =~= Seq::<char>::empty());
            }
            Ok(empty)
        },
        Some(i) => {
            proof {
                lemma_rlast_index_of(q@, '/');
            }
            let pref = path.substring_char(0, i + 1);
            proof {
                assert(pref@ =~= q@.subrange(0, i as int + 1));
            }
            let t = trimmed_len(pref);
            if t == 0 {
                let first = path.substring_char(0, 1);
                let c0 = path.get_char(0);
                proof {
                    assert(first@ =~= seq![path@[0]]);
                    assert(q@[0] == path@[0]);
                }
                if c0 == '/' {
                    proof {
                        assert(first@ =~= seq!['/']);
                    }
                    Ok(first)
                } else {
                    proof {
                        // the prefix trims away entirely, so it is built of
                        // separators and `.` components; its first character
                        // is one of the two
                        lemma_trim_end_all_dots_or_slashes(pref@);
                        assert(pref@[0] == path@[0]);
                        assert(first@ =~= seq!['.']);
                    }
                    Ok(first)
                }
            } else {
                let out = pref.substring_char(0, t);
                proof {
                    assert(out@ =~= trim_end(pref@));
                }
                Ok(out)
            }
        },
    }
}

/// The file name of the path with its extension cut off.
pub fn name_without_extension(path: &str) -> (r: Result<&str, Error>)
    ensures
        match r {
            Ok(nm) => nm@ == name_without_ext_of(path@) && name_of(path@).len() > 0,
            Err(e) => name_of(path@).len() == 0 && e@ == default_error(
                ErrorKind::PathNoFilenameFound,
            ),
        },
{
    let nm = name(path)?;
    match rfind_char(nm, '.') {
        None => Ok(nm),
        Some(d) => {
            proof {
                lemma_rlast_index_of(nm@, '.');
            }
            Ok(nm.substring_char(0, d))
        },
    }
}

/// The extension of the path's file name.
pub fn extension(path: &str) -> (r: Result<&str, Error>)
    ensures
        match r {
            Ok(e) => extension_of(path@) == Some(e@),
            Err(e) => extension_of(path@) is None && e@ == default_error(
                ErrorKind::PathNoExtensionFound,
            ),
        },
{
    match name(path) {
        Err(_) => Err(Error::new_from_kind(ErrorKind::PathNoExtensionFound)),
        Ok(nm) => {
            let ln = nm.unicode_len();
            match rfind_char(nm, '.') {
                None => Err(Error::new_from_kind(ErrorKind::PathNoExtensionFound)),
                Some(d) => {
                    proof {
                        lemma_rlast_index_of(nm@, '.');
                    }
                    if d == 0 {
                        Err(Error::new_from_kind(ErrorKind::PathNoExtensionFound))
                    } else {
                        Ok(nm.substring_char(d + 1, ln))
                    }
                },
            }
        },
    }
}

/// Paths in this crate are already UTF-8 strings, so the conversion always
/// succeeds and returns the path unchanged.
pub fn path_to_str(path: &str) -> (r: Result<&str, Error>)
    ensures
        r matches Ok(s) && s@ == path@,
{
    Ok(path)
}

/// The path obtained by joining every part in order, each with
/// [`join_paths`].
pub open spec fn join_all(parts: Seq<Seq<char>>) -> Seq<char>
    decreases parts.len(),
{
    if parts.len() == 0 {
        Seq::empty()
    } else {
        join_paths(join_all(parts.drop_last()), parts.last())
    }
}

/// Join a base path and one entry name.
pub fn join_entry(base: &str, entry: &str) -> (r: String)
    ensures
        r@ == join_paths(base@, entry@),
{
    let elen = entry.unicode_len();
    if elen > 0 && entry.get_char(0) == '/' {
        return entry.to_owned();
    }
    let n = base.unicode_len();
    let mut out = base.to_owned();
    if n > 0 && base.get_char(n - 1) != '/' {
        out.append("/");
        proof {
            reveal_strlit("/");
            assert(out@ =~= base@ + seq!['/']);
        }
    }
    out.append(entry);
    proof {
        if n > 0 && base@[n - 1] != '/' {
            assert(out@ =~= base@ + seq!['/'] + entry@);
        }
    }
    out
}

/// Join a sequence of path parts into one path.
pub fn join(paths: &Vec<String>) -> (r: String)
    ensures
        r@ == join_all(paths.deep_view()),
{
    let mut out = String::new();
    let mut k: usize = 0;
    while k < paths.len()
        invariant
            k <= paths.len(),
            out@ == join_all(paths.deep_view().subrange(0, k as int)),
        decreases paths.len() - k,
    {
        let joined = join_entry(out.as_str(), paths[k].as_str());
        out = joined;
        proof {
            let dv = paths.deep_view();
            assert(dv.subrange(0, k + 1 as int).drop_last() =~= dv.subrange(0, k as int));
            assert(dv.subrange(0, k + 1 as int).last() == paths@[k as int]@);
        }
        k = k + 1;
    }
    proof {
        assert(paths.deep_view().subrange(0, paths.len() as int) =~= paths.deep_view());
    }
    out
}

/// The result of parsing a file path into its pieces.
#[derive(Debug, Copy, Clone)]
pub struct ParsedPathFile<'a> {
    /// The path of the file.
    pub path: &'a str,
    /// The parent of the file.
    pub parent: &'a str,
    /// The file name of the file (including the extension).
    pub name: &'a str,
    /// The file name of the file (excluding the extension).
    pub name_without_extension: &'a str,
    /// The extension of the file, or empty when it has none.
    pub extension: &'a str,
}

/// The result of parsing a directory path into its pieces.
#[derive(Debug, Copy, Clone)]
pub struct ParsedPathDir<'a> {
    /// The path of the directory.
    pub path: &'a str,
    /// The parent of the directory.
    pub parent: &'a str,
    /// The name of the directory.
    pub name: &'a str,
}

/// Parse a file path into its parent, name and extension pieces.
pub fn parse_path_file(path: &str) -> (r: Result<ParsedPathFile<'_>, Error>)
    ensures
        match r {
            Ok(pp) => {
                &&& pp.path@ == path@
                &&& parent_of(path@) == Some(pp.parent@)
                &&& pp.name@ == name_of(path@)
                &&& name_of(path@).len() > 0
                &&& pp.name_without_extension@ == name_without_ext_of(path@)
                &&& match extension_of(path@) {
                    Some(e) => pp.extension@ == e,
                    None => pp.extension@.len() == 0,
                }
            },
            Err(e) => {
                ||| parent_of(path@) is None && e@ == default_error(ErrorKind::PathNoParentFound)
                ||| parent_of(path@) is Some && name_of(path@).len() == 0 && e@ == default_error(
                    ErrorKind::PathNoFilenameFound,
                )
            },
        },
{
    let directory = parent(path)?;
    let nm = name(path)?;
    let nwe = name_without_extension(path)?;
    let ext = match extension(path) {
        Ok(v) => v,
        Err(_) => path.substring_char(0, 0),
    };
    Ok(
        ParsedPathFile {
            parent: directory,
            name: nm,
            name_without_extension: nwe,
            extension: ext,
            path,
        },
    )
}

/// Parse a directory path into its parent and name pieces.
pub fn parse_path_dir(path: &str) -> (r: Result<ParsedPathDir<'_>, Error>)
    ensures
        match r {
            Ok(pp) => {
                &&& pp.path@ == path@
                &&& parent_of(path@) == Some(pp.parent@)
                &&& pp.name@ == name_of(path@)
                &&& name_of(path@).len() > 0
            },
            Err(e) => {
                ||| parent_of(path@) is None && e@ == default_error(ErrorKind::PathNoParentFound)
                ||| parent_of(path@) is Some && name_of(path@).len() == 0 && e@ == default_error(
                    ErrorKind::PathNoFilenameFound,
                )
            },
        },
{
    let directory = parent(path)?;
    let nm = name(path)?;
    Ok(ParsedPathDir { parent: directory, name: nm, path })
}

} // verus!
