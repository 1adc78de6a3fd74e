//! Rules on path strings: containment under a directory, moving a path from
//! one directory to another, names shown for a path, and names offered for
//! new entries.
//!
//! A path is the text of a canonical path. Both `/` and `\` separate its
//! components; where a separator has to be written, it is `/`.

use crate::text::{
    decimal, decimal_chars, decimal_text, from_chars, has_prefix, lemma_decimal_text, push_all,
    same_chars, starts_with, to_chars,
};
use vstd::prelude::*;

verus! {

/// A character that separates the components of a path.
pub open spec fn is_separator(c: char) -> bool {
    c == '/' || c == '\\'
}

fn is_sep(c: char) -> (b: bool)
    ensures
        b == is_separator(c),
{
    c == '/' || c == '\\'
}

/// `path` is `base` itself or lies below it: `base` is a prefix of `path`
/// that ends where a component of `path` ends.
pub open spec fn within(path: Seq<char>, base: Seq<char>) -> bool {
    &&& has_prefix(path, base)
    &&& (path.len() == base.len() || is_separator(path[base.len() as int]) || (base.len() > 0
        && is_separator(base.last())))
}

/// `path` with its leading `old` replaced by `new`, where `path` lies within
/// `old`; any other path is left as it is.
pub open spec fn rebased(path: Seq<char>, old: Seq<char>, new: Seq<char>) -> Seq<char> {
    if within(path, old) {
        new + path.subrange(old.len() as int, path.len() as int)
    } else {
        path
    }
}

/// Where a path stands after `old` was renamed to `new`: below a renamed
/// directory the prefix is replaced, and a renamed file replaces only itself.
pub open spec fn moved(path: Seq<char>, old: Seq<char>, new: Seq<char>, was_dir: bool) -> Seq<
    char,
> {
    if was_dir {
        rebased(path, old, new)
    } else if path == old {
        new
    } else {
        path
    }
}

/// Whether renaming or deleting `target` touches a path: everything within
/// a directory, and a file itself.
pub open spec fn affected(path: Seq<char>, target: Seq<char>, was_dir: bool) -> bool {
    if was_dir {
        within(path, target)
    } else {
        path == target
    }
}

/// A directory path that does not end in a separator.
pub open spec fn is_plain(dir: Seq<char>) -> bool {
    dir.len() > 0 && !is_separator(dir.last())
}

/// Every path lies within itself.
pub proof fn lemma_within_itself(path: Seq<char>)
    ensures
        within(path, path),
{
    assert(path.subrange(0, path.len() as int) =~= path);
}

/// What lies within a directory lies within every directory that holds it.
pub proof fn lemma_within_transitive(path: Seq<char>, mid: Seq<char>, base: Seq<char>)
    requires
        within(path, mid),
        within(mid, base),
    ensures
        within(path, base),
{
    assert(path.subrange(0, base.len() as int) =~= mid.subrange(0, base.len() as int)) by {
        assert forall|k: int| 0 <= k < base.len() implies path[k] == mid[k] by {
            assert(path.subrange(0, mid.len() as int)[k] == mid[k]);
        }
    }
    if mid.len() > base.len() {
        assert(path[base.len() as int] == path.subrange(0, mid.len() as int)[base.len() as int]);
    }
}

/// A path moved from under `old` lies within `new`.
pub proof fn lemma_rebased_within(path: Seq<char>, old: Seq<char>, new: Seq<char>)
    requires
        within(path, old),
        is_plain(old),
    ensures
        within(rebased(path, old, new), new),
{
    let r = rebased(path, old, new);
    assert(r.subrange(0, new.len() as int) =~= new);
}

pub(crate) fn chars_within(path: &[char], base: &[char]) -> (b: bool)
    ensures
        b == within(path@, base@),
{
    if !starts_with(path, base) {
        return false;
    }
    path.len() == base.len() || is_sep(path[base.len()]) || (base.len() > 0 && is_sep(
        base[base.len() - 1],
    ))
}

/// Whether `path` is `base` or lies below it.
pub fn is_within(path: &str, base: &str) -> (b: bool)
    ensures
        b == within(path@, base@),
{
    let p = to_chars(path);
    let q = to_chars(base);
    chars_within(p.as_slice(), q.as_slice())
}

pub(crate) fn chars_rebase(path: &[char], old: &[char], new: &[char]) -> (out: Vec<char>)
    ensures
        out@ == rebased(path@, old@, new@),
{
    let mut out: Vec<char> = Vec::new();
    if chars_within(path, old) {
        push_all(&mut out, new);
        push_all(&mut out, vstd::slice::slice_subrange(path, old.len(), path.len()));
        assert(out@ =~= new@ + path@.subrange(old@.len() as int, path@.len() as int));
    } else {
        push_all(&mut out, path);
        assert(out@ =~= path@);
    }
    out
}

/// Moves `path` from under `old` to under `new`.
pub fn rebase(path: &str, old: &str, new: &str) -> (out: String)
    ensures
        out@ == rebased(path@, old@, new@),
{
    let p = to_chars(path);
    let o = to_chars(old);
    let n = to_chars(new);
    let r = chars_rebase(p.as_slice(), o.as_slice(), n.as_slice());
    from_chars(r.as_slice())
}

/// Whether renaming or deleting `target` touches `path`.
pub fn is_affected(path: &str, target: &str, was_dir: bool) -> (b: bool)
    ensures
        b == affected(path@, target@, was_dir),
{
    let p = to_chars(path);
    let t = to_chars(target);
    if was_dir {
        chars_within(p.as_slice(), t.as_slice())
    } else {
        same_chars(p.as_slice(), t.as_slice())
    }
}

/// Where `path` stands after `old` was renamed to `new`.
pub fn relocate(path: &str, old: &str, new: &str, was_dir: bool) -> (out: String)
    ensures
        out@ == moved(path@, old@, new@, was_dir),
{
    let p = to_chars(path);
    let o = to_chars(old);
    if was_dir {
        let n = to_chars(new);
        let r = chars_rebase(p.as_slice(), o.as_slice(), n.as_slice());
        from_chars(r.as_slice())
    } else if same_chars(p.as_slice(), o.as_slice()) {
        from_chars(to_chars(new).as_slice())
    } else {
        from_chars(p.as_slice())
    }
}

/// Index of the last separator of `s` before `end`, or -1 if there is none.
pub open spec fn last_separator(s: Seq<char>, end: int) -> int
    decreases end,
{
    if end <= 0 || end > s.len() {
        -1
    } else if is_separator(s[end - 1]) {
        end - 1
    } else {
        last_separator(s, end - 1)
    }
}

/// One more than the index of the last separator of `s`; 0 if there is none.
fn after_last_separator(s: &[char]) -> (r: usize)
    ensures
        r == last_separator(s@, s@.len() as int) + 1,
        r <= s.len(),
{
    let mut end: usize = s.len();
    while end > 0 && !is_sep(s[end - 1])
        invariant
            end <= s.len(),
            last_separator(s@, end as int) == last_separator(s@, s@.len() as int),
        decreases end,
    {
        end -= 1;
    }
    end
}

/// The last component of a path: the text behind its last separator, or the
/// whole path where nothing stands behind it.
pub open spec fn base_name_of(path: Seq<char>) -> Seq<char> {
    let k = last_separator(path, path.len() as int);
    if k + 1 < path.len() {
        path.subrange(k + 1, path.len() as int)
    } else {
        path
    }
}

pub(crate) fn chars_base_name(path: &[char]) -> (out: &[char])
    ensures
        out@ == base_name_of(path@),
{
    let k: usize = after_last_separator(path);
    if k < path.len() {
        vstd::slice::slice_subrange(path, k, path.len())
    } else {
        assert(path@.subrange(0, path@.len() as int) =~= path@);
        vstd::slice::slice_subrange(path, 0, path.len())
    }
}

/// The last component of `path`.
pub fn base_name(path: &str) -> (out: String)
    ensures
        out@ == base_name_of(path@),
{
    let p = to_chars(path);
    from_chars(chars_base_name(p.as_slice()))
}

/// The directory that holds a path: the text before its last separator, the
/// root where that separator opens the path, the empty path for a bare name.
/// The root and the empty path have none.
pub open spec fn parent_dir(path: Seq<char>) -> Option<Seq<char>> {
    let k = last_separator(path, path.len() as int);
    if k < 0 {
        if path.len() > 0 {
            Some(Seq::empty())
        } else {
            None
        }
    } else if k == 0 {
        if path.len() > 1 {
            Some(path.subrange(0, 1))
        } else {
            None
        }
    } else {
        Some(path.subrange(0, k))
    }
}

pub(crate) fn chars_parent(path: &[char]) -> (r: Option<&[char]>)
    ensures
        match r {
            Some(dir) => parent_dir(path@) == Some(dir@),
            None => parent_dir(path@) is None,
        },
{
    let k: usize = after_last_separator(path);
    if k == 0 {
        if path.len() > 0 {
            Some(vstd::slice::slice_subrange(path, 0, 0))
        } else {
            None
        }
    } else if k == 1 {
        if path.len() > 1 {
            Some(vstd::slice::slice_subrange(path, 0, 1))
        } else {
            None
        }
    } else {
        Some(vstd::slice::slice_subrange(path, 0, k - 1))
    }
}

/// The directory that holds `path`.
pub fn parent_of(path: &str) -> (r: Option<String>)
    ensures
        match r {
            Some(dir) => parent_dir(path@) == Some(dir@),
            None => parent_dir(path@) is None,
        },
{
    let p = to_chars(path);
    match chars_parent(p.as_slice()) {
        Some(dir) => Some(from_chars(dir)),
        None => None,
    }
}

/// `name` placed in the directory `dir`.
pub open spec fn joined(dir: Seq<char>, name: Seq<char>) -> Seq<char> {
    if dir.len() == 0 || is_separator(dir.last()) {
        dir + name
    } else {
        dir.push('/') + name
    }
}

/// What is placed in a directory lies within it.
pub proof fn lemma_joined_within(dir: Seq<char>, name: Seq<char>)
    requires
        dir.len() > 0,
    ensures
        within(joined(dir, name), dir),
{
    let j = joined(dir, name);
    assert(j.subrange(0, dir.len() as int) =~= dir);
}

pub(crate) fn chars_join(dir: &[char], name: &[char]) -> (out: Vec<char>)
    ensures
        out@ == joined(dir@, name@),
{
    let mut out: Vec<char> = Vec::new();
    push_all(&mut out, dir);
    if !(dir.len() == 0 || is_sep(dir[dir.len() - 1])) {
        out.push('/');
    }
    push_all(&mut out, name);
    assert(out@ =~= joined(dir@, name@));
    out
}

/// The path of `name` in the directory `dir`.
pub fn join(dir: &str, name: &str) -> (out: String)
    ensures
        out@ == joined(dir@, name@),
{
    let d = to_chars(dir);
    let n = to_chars(name);
    let j = chars_join(d.as_slice(), n.as_slice());
    from_chars(j.as_slice())
}

/// A name that is one plain path component: not empty, without separator,
/// and neither `.` nor `..`.
pub open spec fn simple_name(name: Seq<char>) -> bool {
    &&& name.len() > 0
    &&& forall|i: int| 0 <= i < name.len() ==> !is_separator(#[trigger] name[i])
    &&& name != seq!['.']
    &&& name != seq!['.', '.']
}

pub(crate) fn chars_simple_name(name: &[char]) -> (b: bool)
    ensures
        b == simple_name(name@),
{
    if name.len() == 0 {
        return false;
    }
    let mut i: usize = 0;
    while i < name.len()
        invariant
            i <= name.len(),
            forall|k: int| 0 <= k < i ==> !is_separator(#[trigger] name@[k]),
        decreases name.len() - i,
    {
        if is_sep(name[i]) {
            return false;
        }
        i += 1;
    }
    if name.len() == 1 && name[0] == '.' {
        assert(name@ =~= seq!['.']);
        return false;
    }
    if name.len() == 2 && name[0] == '.' && name[1] == '.' {
        assert(name@ =~= seq!['.', '.']);
        return false;
    }
    assert(name@ != seq!['.']) by {
        if name@ == seq!['.'] {
            assert(name@.len() == 1 && name@[0] == '.');
        }
    }
    assert(name@ != seq!['.', '.']) by {
        if name@ == seq!['.', '.'] {
            assert(name@.len() == 2 && name@[0] == '.' && name@[1] == '.');
        }
    }
    true
}

/// Whether `name` is one plain path component.
pub fn is_simple_name(name: &str) -> (b: bool)
    ensures
        b == simple_name(name@),
{
    let n = to_chars(name);
    chars_simple_name(n.as_slice())
}

/// First index at or after `i` that holds no separator.
pub open spec fn skip_separators(s: Seq<char>, i: int) -> int
    decreases s.len() - i,
{
    if 0 <= i < s.len() && is_separator(s[i]) {
        skip_separators(s, i + 1)
    } else {
        i
    }
}

/// `s` with every `\` written as `/`.
pub open spec fn with_slashes(s: Seq<char>) -> Seq<char> {
    Seq::new(
        s.len(),
        |i: int|
            if s[i] == '\\' {
                '/'
            } else {
                s[i]
            },
    )
}

/// The path of `path` from `root` on, without leading separators and with
/// `/` for every separator; empty where `path` does not lie below `root`.
pub open spec fn relative_name(root: Seq<char>, path: Seq<char>) -> Seq<char> {
    if within(path, root) {
        with_slashes(
            path.subrange(skip_separators(path, root.len() as int), path.len() as int),
        )
    } else {
        Seq::empty()
    }
}

/// The name shown for an open map: its path relative to the project root,
/// or its last component where it is not below the root or there is none.
pub open spec fn display_name(root: Option<Seq<char>>, path: Seq<char>) -> Seq<char> {
    let rel = match root {
        Some(r) => relative_name(r, path),
        None => Seq::empty(),
    };
    if rel.len() > 0 {
        rel
    } else {
        base_name_of(path)
    }
}

pub(crate) fn chars_display_name(root: Option<&[char]>, path: &[char]) -> (out: Vec<char>)
    ensures
        out@ == display_name(
            match root {
                Some(r) => Some(r@),
                None => None,
            },
            path@,
        ),
{
    let mut out: Vec<char> = Vec::new();
    match root {
        Some(r) => {
            if chars_within(path, r) {
                let mut i: usize = r.len();
                while i < path.len() && is_sep(path[i])
                    invariant
                        r.len() <= i <= path.len(),
                        skip_separators(path@, i as int) == skip_separators(
                            path@,
                            r@.len() as int,
                        ),
                    decreases path.len() - i,
                {
                    i += 1;
                }
                let start: usize = i;
                let ghost rest = path@.subrange(start as int, path@.len() as int);
                while i < path.len()
                    invariant
                        start <= i <= path.len(),
                        rest == path@.subrange(start as int, path@.len() as int),
                        out@ == with_slashes(rest).subrange(0, i - start),
                    decreases path.len() - i,
                {
                    let c: char = if path[i] == '\\' {
                        '/'
                    } else {
                        path[i]
                    };
                    out.push(c);
                    i += 1;
                    assert(out@ =~= with_slashes(rest).subrange(0, i - start));
                }
                assert(out@ =~= with_slashes(rest));
            }
        },
        None => {},
    }
    if out.len() > 0 {
        out
    } else {
        let mut name: Vec<char> = Vec::new();
        push_all(&mut name, chars_base_name(path));
        assert(name@ =~= base_name_of(path@));
        name
    }
}

/// The name shown for the open map at `path` in a project rooted at `root`.
pub fn display_name_for(root: Option<&str>, path: &str) -> (out: String)
    ensures
        out@ == display_name(
            match root {
                Some(r) => Some(r@),
                None => None,
            },
            path@,
        ),
{
    let p = to_chars(path);
    let name = match root {
        Some(r) => {
            let rc = to_chars(r);
            chars_display_name(Some(rc.as_slice()), p.as_slice())
        },
        None => chars_display_name(None, p.as_slice()),
    };
    from_chars(name.as_slice())
}

/// The `index`-th name offered for a new map: `untitled.mpr`, then
/// `untitled-1.mpr`, `untitled-2.mpr` and so on.
pub open spec fn map_candidate(index: nat) -> Seq<char> {
    if index == 0 {
        "untitled.mpr"@
    } else {
        "untitled-"@ + decimal_text(index) + ".mpr"@
    }
}

/// The `index`-th name offered for a new folder: `New Folder`, then
/// `New Folder 1`, `New Folder 2` and so on.
pub open spec fn folder_candidate(index: nat) -> Seq<char> {
    if index == 0 {
        "New Folder"@
    } else {
        "New Folder "@ + decimal_text(index)
    }
}

/// No two indices are offered the same map name.
pub proof fn lemma_map_candidates_differ(i: nat, j: nat)
    requires
        i != j,
    ensures
        map_candidate(i) != map_candidate(j),
{
    reveal_strlit("untitled.mpr");
    reveal_strlit("untitled-");
    reveal_strlit(".mpr");
    lemma_decimal_text(i);
    lemma_decimal_text(j);
    let a = map_candidate(i);
    let b = map_candidate(j);
    if i == 0 {
        assert(a[8] == '.');
        assert(b[8] == '-');
    } else if j == 0 {
        assert(a[8] == '-');
        assert(b[8] == '.');
    } else if a == b {
        let di = decimal_text(i);
        let dj = decimal_text(j);
        assert(a.len() == 9 + di.len() + 4);
        assert(b.len() == 9 + dj.len() + 4);
        assert(di =~= dj) by {
            assert forall|k: int| 0 <= k < di.len() implies di[k] == dj[k] by {
                assert(a[9 + k] == di[k]);
                assert(b[9 + k] == dj[k]);
            }
        }
        assert(decimal(di) == decimal(dj));
    }
}

/// No two indices are offered the same folder name.
pub proof fn lemma_folder_candidates_differ(i: nat, j: nat)
    requires
        i != j,
    ensures
        folder_candidate(i) != folder_candidate(j),
{
    reveal_strlit("New Folder");
    reveal_strlit("New Folder ");
    lemma_decimal_text(i);
    lemma_decimal_text(j);
    let a = folder_candidate(i);
    let b = folder_candidate(j);
    if i == 0 {
        assert(a.len() == 10);
        assert(b.len() == 11 + decimal_text(j).len());
    } else if j == 0 {
        assert(b.len() == 10);
        assert(a.len() == 11 + decimal_text(i).len());
    } else if a == b {
        let di = decimal_text(i);
        let dj = decimal_text(j);
        assert(a.len() == 11 + di.len());
        assert(b.len() == 11 + dj.len());
        assert(di =~= dj) by {
            assert forall|k: int| 0 <= k < di.len() implies di[k] == dj[k] by {
                assert(a[11 + k] == di[k]);
                assert(b[11 + k] == dj[k]);
            }
        }
        assert(decimal(di) == decimal(dj));
    }
}

/// The `index`-th name offered for a new map.
pub fn map_name_candidate(index: usize) -> (name: String)
    ensures
        name@ == map_candidate(index as nat),
{
    if index == 0 {
        from_chars(to_chars("untitled.mpr").as_slice())
    } else {
        let mut out = to_chars("untitled-");
        let digits = decimal_chars(index);
        push_all(&mut out, digits.as_slice());
        let tail = to_chars(".mpr");
        push_all(&mut out, tail.as_slice());
        from_chars(out.as_slice())
    }
}

/// The `index`-th name offered for a new folder.
pub fn folder_name_candidate(index: usize) -> (name: String)
    ensures
        name@ == folder_candidate(index as nat),
{
    if index == 0 {
        from_chars(to_chars("New Folder").as_slice())
    } else {
        let mut out = to_chars("New Folder ");
        let digits = decimal_chars(index);
        push_all(&mut out, digits.as_slice());
        from_chars(out.as_slice())
    }
}

} // verus!
