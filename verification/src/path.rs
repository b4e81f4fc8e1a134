//! Paths as character strings, read the way a Unix path is read: a leading
//! `/` is the root, runs of `/` separate components, and a component `.`
//! that is not the first one is skipped.

use vstd::prelude::*;
use vstd::string::*;

verus! {

/// Name of the temporary file that vim creates to probe a directory.
pub open spec fn vim_temp() -> Seq<char> {
    seq!['4', '9', '1', '3']
}

/// Name of the remote temporary file that a transfer writes before renaming.
pub open spec fn backup_name() -> Seq<char> {
    seq!['.', 'm', 'e', 'r', 'e', '~']
}

/// A path is absolute when it starts at the root.
pub open spec fn is_absolute(s: Seq<char>) -> bool {
    s.len() > 0 && s[0] == '/'
}

/// Number of leading characters that stand before the body of a path: the
/// root `/`, or a first component `.`.
pub open spec fn lead(s: Seq<char>) -> int {
    if s.len() > 0 && s[0] == '/' {
        1
    } else if s.len() > 0 && s[0] == '.' && (s.len() == 1 || s[1] == '/') {
        1
    } else {
        0
    }
}

/// Start of the component of `s` that ends at `e`, looking no further back
/// than `lo`: the least `k` with no separator in `s[k..e]`.
pub open spec fn seg_start(s: Seq<char>, lo: int, e: int) -> int
    decreases e - lo,
{
    if lo < e && s[e - 1] != '/' {
        seg_start(s, lo, e - 1)
    } else {
        e
    }
}

/// End of the last component of `s[lo..e]` that counts: trailing separators
/// and trailing `.` components are dropped. The result is `lo` when nothing
/// is left.
pub open spec fn trim_end(s: Seq<char>, lo: int, e: int) -> int
    decreases e - lo,
{
    if e <= lo {
        lo
    } else {
        let k = seg_start(s, lo, e);
        if k == e {
            trim_end(s, lo, e - 1)
        } else if k == e - 1 && s[k] == '.' {
            trim_end(
                s,
                lo,
                if k > lo {
                    k - 1
                } else {
                    lo
                },
            )
        } else {
            e
        }
    }
}

/// The last segment of a path: its last component, be it a name, `..`, or
/// a `.` that is all there is. The empty path has none, and neither has the
/// root alone.
pub open spec fn last_segment(s: Seq<char>) -> Option<Seq<char>> {
    let lo = lead(s);
    let e = trim_end(s, lo, s.len() as int);
    if e == lo {
        if lo == 1 && s[0] == '.' {
            Some(s.subrange(0, 1))
        } else {
            None
        }
    } else {
        Some(s.subrange(seg_start(s, lo, e), e))
    }
}

/// The path without its last segment: `None` for the empty path and for
/// the root alone.
pub open spec fn parent(s: Seq<char>) -> Option<Seq<char>> {
    let lo = lead(s);
    let e = trim_end(s, lo, s.len() as int);
    if e == lo {
        if lo == 1 && s[0] == '.' {
            Some(Seq::empty())
        } else {
            None
        }
    } else {
        let k = seg_start(s, lo, e);
        let cut = if k > lo {
            k - 1
        } else {
            lo
        };
        Some(s.subrange(0, trim_end(s, lo, cut)))
    }
}

/// `base` extended by `name`: an absolute `name` replaces `base`, otherwise a
/// separator is put between the two unless `base` is empty or ends in one.
pub open spec fn join(base: Seq<char>, name: Seq<char>) -> Seq<char> {
    if is_absolute(name) {
        name
    } else if base.len() > 0 && base.last() != '/' {
        base + seq!['/'] + name
    } else {
        base + name
    }
}

/// A path is hidden when its last segment starts with `.` or is the vim
/// temporary name. A path without a last segment is not hidden.
pub open spec fn is_hidden(s: Seq<char>) -> bool {
    match last_segment(s) {
        None => false,
        Some(name) => name[0] == '.' || name == vim_temp(),
    }
}

/// A path is a backup when its last character is `~`.
pub open spec fn is_backup(s: Seq<char>) -> bool {
    s.len() > 0 && s.last() == '~'
}

/// A path is mirrored when it is absolute, not hidden and not a backup.
pub open spec fn is_valid(s: Seq<char>) -> bool {
    is_absolute(s) && !is_hidden(s) && !is_backup(s)
}

/// What `seg_start` finds: it lies in `lo..=e`, a separator stands before it
/// unless it is `lo`, and none stands after it.
pub proof fn lemma_seg_start(s: Seq<char>, lo: int, e: int)
    requires
        0 <= lo <= e <= s.len(),
    ensures
        lo <= seg_start(s, lo, e) <= e,
        seg_start(s, lo, e) > lo ==> s[seg_start(s, lo, e) - 1] == '/',
        forall|i: int| seg_start(s, lo, e) <= i < e ==> s[i] != '/',
    decreases e - lo,
{
    if lo < e && s[e - 1] != '/' {
        lemma_seg_start(s, lo, e - 1);
    }
}

/// What `trim_end` finds: it lies in `lo..=e`, and what ends there is a
/// component other than the empty one and `.`.
pub proof fn lemma_trim_end(s: Seq<char>, lo: int, e: int)
    requires
        0 <= lo <= e <= s.len(),
    ensures
        lo <= trim_end(s, lo, e) <= e,
        trim_end(s, lo, e) > lo ==> seg_start(s, lo, trim_end(s, lo, e)) < trim_end(s, lo, e),
        trim_end(s, lo, e) > lo ==> s.subrange(
            seg_start(s, lo, trim_end(s, lo, e)),
            trim_end(s, lo, e),
        ) != seq!['.'],
    decreases e - lo,
{
    if e > lo {
        let k = seg_start(s, lo, e);
        lemma_seg_start(s, lo, e);
        if k == e {
            lemma_trim_end(s, lo, e - 1);
        } else if k == e - 1 && s[k] == '.' {
            if k > lo {
                lemma_trim_end(s, lo, k - 1);
            } else {
                assert(trim_end(s, lo, lo) == lo);
            }
        } else {
            let name = s.subrange(k, e);
            if name == seq!['.'] {
                assert(name.len() == 1);
                assert(name[0] == s[k]);
            }
        }
    }
}

/// Number of characters in `s`.
fn char_len(s: &str) -> (n: usize)
    ensures
        n == s@.len(),
{
    s.unicode_len()
}

/// Length of what stands before the body of `s`.
fn lead_of(s: &str, len: usize) -> (lo: usize)
    requires
        len == s@.len(),
    ensures
        lo == lead(s@),
        lo <= len,
{
    if len == 0 {
        0
    } else if s.get_char(0) == '/' {
        1
    } else if s.get_char(0) == '.' {
        if len == 1 {
            1
        } else if s.get_char(1) == '/' {
            1
        } else {
            0
        }
    } else {
        0
    }
}

/// Start of the component of `s` that ends at `e`.
fn seg_start_of(s: &str, lo: usize, e: usize) -> (k: usize)
    requires
        lo <= e <= s@.len(),
    ensures
        k == seg_start(s@, lo as int, e as int),
        lo <= k <= e,
{
    let mut k: usize = e;
    while k > lo && s.get_char(k - 1) != '/'
        invariant
            lo <= k <= e <= s@.len(),
            seg_start(s@, lo as int, e as int) == seg_start(s@, lo as int, k as int),
        decreases k,
    {
        k = k - 1;
    }
    k
}

/// End of the last component of `s[lo..e]` that counts.
fn trim_end_of(s: &str, lo: usize, e: usize) -> (t: usize)
    requires
        lo <= e <= s@.len(),
    ensures
        t == trim_end(s@, lo as int, e as int),
        lo <= t <= e,
{
    let mut t: usize = e;
    while t > lo
        invariant
            lo <= t <= e <= s@.len(),
            trim_end(s@, lo as int, e as int) == trim_end(s@, lo as int, t as int),
        decreases t,
    {
        let k: usize = seg_start_of(s, lo, t);
        if k == t {
            t = t - 1;
        } else if k == t - 1 && s.get_char(k) == '.' {
            if k > lo {
                t = k - 1;
            } else {
                t = lo;
            }
        } else {
            return t;
        }
    }
    t
}

/// Bounds of the last segment of `s`, where it has one.
fn last_segment_of(s: &str) -> (r: Option<(usize, usize)>)
    ensures
        match r {
            Some((k, e)) => k < e <= s@.len() && last_segment(s@) == Some(
                s@.subrange(k as int, e as int),
            ),
            None => last_segment(s@) is None,
        },
{
    let len: usize = char_len(s);
    let lo: usize = lead_of(s, len);
    let e: usize = trim_end_of(s, lo, len);
    if e == lo {
        if lo == 1 && s.get_char(0) == '.' {
            Some((0, 1))
        } else {
            None
        }
    } else {
        let k: usize = seg_start_of(s, lo, e);
        proof {
            lemma_trim_end(s@, lo as int, len as int);
        }
        Some((k, e))
    }
}

/// Checks whether a path is hidden: its last segment starts with `.` or is
/// the name of vim's temporary file. The root alone has no last segment and
/// is not hidden.
pub fn is_path_hidden(path: &str) -> (hidden: bool)
    ensures
        hidden == is_hidden(path@),
{
    match last_segment_of(path) {
        None => false,
        Some((k, e)) => {
            let ghost name = path@.subrange(k as int, e as int);
            assert(name[0] == path@[k as int]);
            if path.get_char(k) == '.' {
                true
            } else if e - k == 4 && path.get_char(k) == '4' && path.get_char(k + 1) == '9'
                && path.get_char(k + 2) == '1' && path.get_char(k + 3) == '3' {
                assert(name =~= vim_temp());
                true
            } else {
                assert(name != vim_temp()) by {
                    if name == vim_temp() {
                        assert(name.len() == 4);
                        assert(name[0] == '4' && name[1] == '9' && name[2] == '1' && name[3]
                            == '3');
                    }
                }
                false
            }
        },
    }
}

/// Checks whether a path is a backup: its last character is `~`.
pub fn is_path_backup(path: &str) -> (backup: bool)
    ensures
        backup == is_backup(path@),
{
    let len: usize = char_len(path);
    len > 0 && path.get_char(len - 1) == '~'
}

/// Checks whether a path starts at the root.
pub fn is_path_absolute(path: &str) -> (absolute: bool)
    ensures
        absolute == is_absolute(path@),
{
    let len: usize = char_len(path);
    len > 0 && path.get_char(0) == '/'
}

/// Checks whether a path is to be mirrored: absolute, not hidden, not a backup.
pub fn is_path_valid(path: &str) -> (valid: bool)
    ensures
        valid == is_valid(path@),
        valid <==> is_absolute(path@) && !is_hidden(path@) && !is_backup(path@),
{
    is_path_absolute(path) && !is_path_hidden(path) && !is_path_backup(path)
}

/// A path has a parent exactly if it has a last segment. So a path that is
/// mirrored has a parent unless it is the root alone.
pub proof fn lemma_parent_of_segment(s: Seq<char>)
    ensures
        parent(s) is Some <==> last_segment(s) is Some,
{
}

/// The temporary name of a transfer is never the name of the file itself,
/// where that is a path that is mirrored: the one ends in `~`, the other
/// does not.
pub proof fn lemma_temporary_differs(s: Seq<char>)
    requires
        is_valid(s),
        parent(s) is Some,
    ensures
        is_backup(join(parent(s).unwrap(), backup_name())),
        !is_valid(join(parent(s).unwrap(), backup_name())),
        join(parent(s).unwrap(), backup_name()) != s,
{
    let dir = parent(s).unwrap();
    let temp = join(dir, backup_name());
    assert(temp.last() == '~');
}

/// Length of the parent of `s`, which is a prefix of `s`, where it has one.
fn parent_len_of(s: &str) -> (r: Option<usize>)
    ensures
        match r {
            Some(n) => n <= s@.len() && parent(s@) == Some(s@.subrange(0, n as int)),
            None => parent(s@) is None,
        },
{
    let len: usize = char_len(s);
    let lo: usize = lead_of(s, len);
    let e: usize = trim_end_of(s, lo, len);
    if e == lo {
        if lo == 1 && s.get_char(0) == '.' {
            Some(0)
        } else {
            None
        }
    } else {
        let k: usize = seg_start_of(s, lo, e);
        let cut: usize = if k > lo {
            k - 1
        } else {
            lo
        };
        Some(trim_end_of(s, lo, cut))
    }
}

/// Checks whether a path has a parent: every path but the empty one and the
/// root alone.
pub fn has_parent(path: &str) -> (has: bool)
    ensures
        has == (parent(path@) is Some),
{
    parent_len_of(path).is_some()
}

/// Extends `base` by `name`: an absolute `name` replaces `base`, otherwise a
/// separator is put between the two unless `base` is empty or ends in one.
pub fn path_join(base: &str, name: &str) -> (joined: String)
    ensures
        joined@ == join(base@, name@),
{
    if is_path_absolute(name) {
        String::from_str(name)
    } else {
        let len: usize = char_len(base);
        let mut joined = String::from_str(base);
        if len > 0 && base.get_char(len - 1) != '/' {
            proof {
                reveal_strlit("/");
            }
            joined.append("/");
            assert(joined@ =~= base@ + seq!['/']);
        }
        joined.append(name);
        joined
    }
}

/// Creates the path of the temporary file for a transfer to `path`: the
/// reserved name `.mere~` in the parent directory of `path`.
pub fn backup_file(path: &str) -> (backup: String)
    requires
        parent(path@) is Some,
    ensures
        backup@ == join(parent(path@).unwrap(), backup_name()),
{
    let n: usize = match parent_len_of(path) {
        Some(n) => n,
        None => 0,
    };
    let dir = path.substring_char(0, n);
    proof {
        reveal_strlit(".mere~");
        assert(".mere~"@ =~= backup_name());
    }
    path_join(dir, ".mere~")
}

/// Whether `name` is a single component that names something: not empty,
/// without a separator, and neither `.` nor `..`.
pub open spec fn is_name(name: Seq<char>) -> bool {
    &&& name.len() > 0
    &&& forall|i: int| 0 <= i < name.len() ==> name[i] != '/'
    &&& name != seq!['.']
    &&& name != seq!['.', '.']
}

/// Where no separator stands in `s[k..e]` and one stands before `k`, the
/// component that ends at `e` starts at `k`.
pub proof fn lemma_seg_start_is(s: Seq<char>, lo: int, k: int, e: int)
    requires
        0 <= lo <= k <= e <= s.len(),
        k > lo ==> s[k - 1] == '/',
        forall|i: int| k <= i < e ==> s[i] != '/',
    ensures
        seg_start(s, lo, e) == k,
    decreases e - k,
{
    if k < e {
        lemma_seg_start_is(s, lo, k, e - 1);
    }
}

/// The last segment of a directory followed by a separator and a name is
/// that name.
pub proof fn lemma_last_segment_of_named(dir: Seq<char>, name: Seq<char>)
    requires
        is_name(name),
    ensures
        last_segment(dir + seq!['/'] + name) == Some(name),
{
    let s = dir + seq!['/'] + name;
    let lo = lead(s);
    let k: int = dir.len() as int + 1;
    let e = s.len() as int;
    assert(s[k - 1] == '/');
    assert forall|i: int| k <= i < e implies s[i] != '/' by {
        assert(s[i] == name[i - k]);
    }
    lemma_seg_start_is(s, lo, k, e);
    assert(s.subrange(k, e) =~= name);
    if k == e - 1 && s[k] == '.' {
        assert(name =~= seq!['.']);
    }
    assert(trim_end(s, lo, e) == e);
}

/// The filter in terms of a file's name: a file in an absolute directory is
/// mirrored unless its name starts with `.`, is `4913`, or ends in `~`.
pub proof fn lemma_named_is_valid(dir: Seq<char>, name: Seq<char>)
    requires
        is_name(name),
        dir.len() == 0 || is_absolute(dir),
    ensures
        is_valid(dir + seq!['/'] + name) <==> name[0] != '.' && name != vim_temp() && name.last()
            != '~',
{
    let s = dir + seq!['/'] + name;
    lemma_last_segment_of_named(dir, name);
    assert(s.last() == name.last());
    assert(s[0] == '/');
}

/// The start of a component depends only on what stands between `lo` and
/// its end.
pub proof fn lemma_seg_start_agrees(a: Seq<char>, b: Seq<char>, lo: int, e: int)
    requires
        0 <= lo <= e <= a.len(),
        e <= b.len(),
        forall|i: int| lo <= i < e ==> a[i] == b[i],
    ensures
        seg_start(a, lo, e) == seg_start(b, lo, e),
    decreases e - lo,
{
    if lo < e && a[e - 1] != '/' {
        lemma_seg_start_agrees(a, b, lo, e - 1);
    }
}

/// The temporary file of a transfer stands beside the file itself: its
/// last segment is the reserved name, and its parent is the parent of the
/// file.
pub proof fn lemma_temporary_is_beside(s: Seq<char>)
    requires
        parent(s) is Some,
    ensures
        last_segment(join(parent(s).unwrap(), backup_name())) == Some(backup_name()),
        parent(join(parent(s).unwrap(), backup_name())) == parent(s),
{
    let name = backup_name();
    let dir = parent(s).unwrap();
    let temp = join(dir, name);
    let lo = lead(s);
    let e = trim_end(s, lo, s.len() as int);
    lemma_trim_end(s, lo, s.len() as int);
    // where the directory ends in `s`
    let t: int = dir.len() as int;
    if e != lo {
        let k = seg_start(s, lo, e);
        lemma_seg_start(s, lo, e);
        let cut = if k > lo {
            k - 1
        } else {
            lo
        };
        lemma_trim_end(s, lo, cut);
        assert(t == trim_end(s, lo, cut));
    } else {
        assert(t == 0);
    }
    assert(forall|i: int| 0 <= i < t ==> dir[i] == s[i]);
    // where the name starts in the temporary path
    let n: int = if t > 0 && dir.last() != '/' {
        t + 1
    } else {
        t
    };
    let end = temp.len() as int;
    assert(end == n + 6);
    assert(forall|i: int| 0 <= i < t ==> temp[i] == dir[i]);
    assert(forall|i: int| 0 <= i < 6 ==> temp[n + i] == name[i]);
    assert(n > t ==> temp[t] == '/');
    assert(temp[n] == '.' && temp[n + 1] == 'm');
    // the temporary path starts as the directory does
    let tlo = lead(temp);
    if e != lo && t > lo {
        let k = seg_start(s, lo, e);
        let cut = if k > lo {
            k - 1
        } else {
            lo
        };
        let k0 = seg_start(s, lo, t);
        lemma_seg_start(s, lo, t);
        assert(k0 < t);
        assert(s[t - 1] != '/');
        assert(n == t + 1);
        if t == 1 {
            assert(lo == 0);
            assert(k0 == 0);
            if s[0] == '.' {
                assert(s.subrange(0, 1) =~= seq!['.']);
            }
        }
        assert(tlo == lo);
        assert forall|i: int| n <= i < end implies temp[i] != '/' by {
            assert(temp[i] == name[i - n]);
        }
        lemma_seg_start_is(temp, tlo, n, end);
        assert(trim_end(temp, tlo, end) == end);
        assert(temp.subrange(n, end) =~= name);
        lemma_seg_start_agrees(s, temp, lo, t);
        if k0 == t - 1 && temp[k0] == '.' {
            assert(s.subrange(k0, t) =~= seq!['.']);
        }
        assert(trim_end(temp, tlo, t) == t);
        assert(temp.subrange(0, t) =~= dir);
    } else {
        // the directory is empty, the root, or a lone `.`
        assert(t == lo || t == 0);
        if t == 1 {
            assert(dir[0] == s[0]);
        }
        assert(tlo == t);
        assert forall|i: int| n <= i < end implies temp[i] != '/' by {
            assert(temp[i] == name[i - n]);
        }
        lemma_seg_start_is(temp, tlo, n, end);
        assert(trim_end(temp, tlo, end) == end);
        assert(temp.subrange(n, end) =~= name);
        assert(trim_end(temp, tlo, tlo) == tlo);
        assert(temp.subrange(0, t) =~= dir);
    }
}

/// Where only separators stand between `lo` and `e`, nothing that counts
/// ends at `e`.
pub proof fn lemma_trim_separators(s: Seq<char>, lo: int, e: int)
    requires
        0 <= lo <= e <= s.len(),
        forall|i: int| lo <= i < e ==> s[i] == '/',
    ensures
        trim_end(s, lo, e) == lo,
    decreases e - lo,
{
    if e > lo {
        assert(seg_start(s, lo, e) == e);
        lemma_trim_separators(s, lo, e - 1);
    }
}

/// The root alone is mirrored: a path that holds separators only has no
/// last segment, so none that would hide it, and is absolute.
pub proof fn lemma_root_is_valid(s: Seq<char>)
    requires
        s.len() > 0,
        forall|i: int| 0 <= i < s.len() ==> s[i] == '/',
    ensures
        last_segment(s) is None,
        parent(s) is None,
        is_valid(s),
{
    lemma_trim_separators(s, 1, s.len() as int);
}

} // verus!
