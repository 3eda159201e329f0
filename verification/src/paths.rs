//! The library's path model.
//!
//! Logical paths are strings of characters separated by `'/'`. A path lies
//! under a root when it consists of the root, a separator, and a non-empty
//! remainder; projecting a record into an output tree means re-rooting that
//! remainder. Extensions are read from the last `'.'` of the final path
//! component, with a leading `'.'` of the component not counting as one.

use vstd::prelude::*;

verus! {

/// True when `path` lies strictly below `root`: the root, a separator, then a
/// non-empty remainder.
pub open spec fn descends(path: Seq<char>, root: Seq<char>) -> bool {
    &&& path.len() > root.len() + 1
    &&& path.take(root.len() as int) == root
    &&& path[root.len() as int] == '/'
}

/// The remainder of `path` below `root`.
pub open spec fn rel_part(path: Seq<char>, root: Seq<char>) -> Seq<char> {
    path.skip(root.len() as int + 1)
}

/// `root` joined with `rel`: the root, a separator, the remainder.
pub open spec fn join_spec(root: Seq<char>, rel: Seq<char>) -> Seq<char> {
    root + seq!['/'] + rel
}

/// Joining a non-empty remainder under a root and stripping the root again
/// gives the remainder back.
pub proof fn lemma_join_then_strip(root: Seq<char>, rel: Seq<char>)
    requires
        rel.len() > 0,
    ensures
        descends(join_spec(root, rel), root),
        rel_part(join_spec(root, rel), root) == rel,
{
    let joined = join_spec(root, rel);
    assert(joined.take(root.len() as int) =~= root);
    assert(rel_part(joined, root) =~= rel);
}

/// Stripping a root off a descending path and joining it back on gives the
/// path back.
pub proof fn lemma_strip_then_join(path: Seq<char>, root: Seq<char>)
    requires
        descends(path, root),
    ensures
        join_spec(root, rel_part(path, root)) == path,
{
    assert(join_spec(root, rel_part(path, root)) =~= path);
}

/// Round-trip projection: re-rooting the remainder of a path under a new root
/// yields a path that descends from the new root with the same remainder.
pub proof fn lemma_projection_keeps_relative_path(
    path: Seq<char>,
    in_root: Seq<char>,
    out_root: Seq<char>,
)
    requires
        descends(path, in_root),
    ensures
        descends(join_spec(out_root, rel_part(path, in_root)), out_root),
        rel_part(join_spec(out_root, rel_part(path, in_root)), out_root) == rel_part(
            path,
            in_root,
        ),
{
    lemma_join_then_strip(out_root, rel_part(path, in_root));
}

/// Joins `root` and `rel` with a separator.
pub fn join_path(root: &str, rel: &str) -> (r: String)
    ensures
        r@ == join_spec(root@, rel@),
{
    let mut s = root.to_owned();
    s.append("/");
    s.append(rel);
    proof {
        reveal_strlit("/");
        assert(s@ =~= join_spec(root@, rel@));
    }
    s
}

/// Strips `root` and the following separator off `path`, returning the
/// remainder, or `None` when `path` does not lie below `root`.
pub fn strip_prefix(path: &str, root: &str) -> (r: Option<String>)
    ensures
        descends(path@, root@) ==> (r matches Some(s) && s@ == rel_part(path@, root@)),
        !descends(path@, root@) ==> r is None,
{
    let n = root.unicode_len();
    let m = path.unicode_len();
    if n >= usize::MAX - 1 || m <= n + 1 {
        return None;
    }
    if path.get_char(n) != '/' {
        return None;
    }
    let mut i: usize = 0;
    while i < n
        invariant
            i <= n,
            n < m <= path@.len(),
            n == root@.len(),
            m == path@.len(),
            forall|j: int| 0 <= j < i ==> path@[j] == root@[j],
        decreases n - i,
    {
        if path.get_char(i) != root.get_char(i) {
            assert(path@.take(n as int)[i as int] != root@[i as int]);
            return None;
        }
        i += 1;
    }
    assert(path@.take(n as int) =~= root@);
    let rel = path.substring_char(n + 1, m).to_owned();
    assert(rel@ =~= rel_part(path@, root@));
    Some(rel)
}

/// Index of the last occurrence of `c` in `s`, or `-1` when `s` has none.
pub open spec fn last_index(s: Seq<char>, c: char) -> int
    decreases s.len(),
{
    if s.len() == 0 {
        -1
    } else if s[s.len() - 1] == c {
        s.len() - 1
    } else {
        last_index(s.drop_last(), c)
    }
}

/// What `last_index` returns: a position of `c` with nothing but other
/// characters after it, or `-1` with no `c` at all.
pub proof fn lemma_last_index(s: Seq<char>, c: char)
    ensures
        -1 <= last_index(s, c) < s.len(),
        last_index(s, c) >= 0 ==> s[last_index(s, c)] == c,
        forall|j: int| last_index(s, c) < j < s.len() ==> s[j] != c,
    decreases s.len(),
{
    if s.len() == 0 {
    } else if s[s.len() - 1] == c {
    } else {
        lemma_last_index(s.drop_last(), c);
        assert forall|j: int| last_index(s, c) < j < s.len() implies s[j] != c by {
            if j < s.len() - 1 {
                assert(s.drop_last()[j] == s[j]);
            }
        }
    }
}

/// A position of `c` with no later occurrence is where `last_index` points.
pub proof fn lemma_last_index_is(s: Seq<char>, c: char, k: int)
    requires
        0 <= k < s.len(),
        s[k] == c,
        forall|j: int| k < j < s.len() ==> s[j] != c,
    ensures
        last_index(s, c) == k,
    decreases s.len(),
{
    if k == s.len() - 1 {
    } else {
        assert(s[s.len() - 1] != c);
        assert(s.drop_last()[k] == s[k]);
        assert forall|j: int| k < j < s.drop_last().len() implies s.drop_last()[j] != c by {
            assert(s.drop_last()[j] == s[j]);
        }
        lemma_last_index_is(s.drop_last(), c, k);
    }
}

/// A sequence without `c` has `last_index` `-1`.
pub proof fn lemma_last_index_none(s: Seq<char>, c: char)
    requires
        forall|j: int| 0 <= j < s.len() ==> s[j] != c,
    ensures
        last_index(s, c) == -1,
    decreases s.len(),
{
    if s.len() == 0 {
    } else {
        assert forall|j: int| 0 <= j < s.drop_last().len() implies s.drop_last()[j] != c by {
            assert(s.drop_last()[j] == s[j]);
        }
        lemma_last_index_none(s.drop_last(), c);
    }
}

/// Appending characters other than `c` does not move the last occurrence.
pub proof fn lemma_last_index_concat_absent(s: Seq<char>, t: Seq<char>, c: char)
    requires
        !t.contains(c),
    ensures
        last_index(s + t, c) == last_index(s, c),
    decreases t.len(),
{
    if t.len() == 0 {
        assert(s + t =~= s);
    } else {
        assert((s + t)[(s + t).len() - 1] == t[t.len() - 1]);
        assert(t[t.len() - 1] != c);
        assert((s + t).drop_last() =~= s + t.drop_last());
        assert(!t.drop_last().contains(c)) by {
            if t.drop_last().contains(c) {
                let j = choose|j: int| 0 <= j < t.drop_last().len() && t.drop_last()[j] == c;
                assert(t[j] == c);
            }
        }
        lemma_last_index_concat_absent(s, t.drop_last(), c);
    }
}

/// The last occurrence of `c` in `s + [c] + t` with `t` free of `c` is the
/// marker itself.
pub proof fn lemma_last_index_at_marker(s: Seq<char>, t: Seq<char>, c: char)
    requires
        !t.contains(c),
    ensures
        last_index(s + seq![c] + t, c) == s.len(),
{
    assert(s + seq![c] + t =~= (s + seq![c]) + t);
    lemma_last_index_concat_absent(s + seq![c], t, c);
    assert((s + seq![c])[(s + seq![c]).len() - 1] == c);
}

/// Cutting a sequence after its last occurrence of `c` keeps that occurrence
/// last.
pub proof fn lemma_last_index_take(s: Seq<char>, c: char, k: int)
    requires
        last_index(s, c) < k <= s.len(),
    ensures
        last_index(s.take(k), c) == last_index(s, c),
{
    lemma_last_index(s, c);
    assert(s.take(k) + s.skip(k) =~= s);
    assert(!s.skip(k).contains(c)) by {
        if s.skip(k).contains(c) {
            let j = choose|j: int| 0 <= j < s.skip(k).len() && s.skip(k)[j] == c;
            assert(s[k + j] == c);
        }
    }
    lemma_last_index_concat_absent(s.take(k), s.skip(k), c);
}

/// Start of the final path component: one past the last separator.
pub open spec fn name_start(path: Seq<char>) -> int {
    last_index(path, '/') + 1
}

/// The extension of the final path component: what follows its last `'.'`,
/// where a `'.'` that starts the component does not begin an extension.
pub open spec fn ext_of(path: Seq<char>) -> Option<Seq<char>> {
    let d = last_index(path, '.');
    if d > name_start(path) {
        Some(path.skip(d + 1))
    } else {
        None
    }
}

/// `path` with its extension replaced by `ext`, or with `ext` appended when it
/// has none.
pub open spec fn replace_ext(path: Seq<char>, ext: Seq<char>) -> Seq<char> {
    let d = last_index(path, '.');
    if d > name_start(path) {
        path.take(d) + seq!['.'] + ext
    } else {
        path + seq!['.'] + ext
    }
}

/// Rewriting the extension of a file path makes that extension the one read
/// back from the result.
pub proof fn lemma_replace_ext(path: Seq<char>, ext: Seq<char>)
    requires
        path.len() > 0,
        path[path.len() - 1] != '/',
        ext.len() > 0,
        !ext.contains('.'),
        !ext.contains('/'),
    ensures
        ext_of(replace_ext(path, ext)) == Some(ext),
{
    let d = last_index(path, '.');
    lemma_last_index(path, '.');
    lemma_last_index(path, '/');
    assert(!(seq!['.'] + ext).contains('/')) by {
        if (seq!['.'] + ext).contains('/') {
            let j = choose|j: int|
                0 <= j < (seq!['.'] + ext).len() && (seq!['.'] + ext)[j] == '/';
            if j > 0 {
                assert(ext[j - 1] == '/');
            }
        }
    }
    if d > name_start(path) {
        let prefix = path.take(d);
        let p2 = replace_ext(path, ext);
        lemma_last_index_at_marker(prefix, ext, '.');
        assert(p2 =~= prefix + (seq!['.'] + ext));
        lemma_last_index_concat_absent(prefix, seq!['.'] + ext, '/');
        lemma_last_index_take(path, '/', d);
        assert(last_index(p2, '.') == prefix.len());
        assert(p2.skip(prefix.len() as int + 1) =~= ext);
    } else {
        let p2 = replace_ext(path, ext);
        lemma_last_index_at_marker(path, ext, '.');
        assert(p2 =~= path + (seq!['.'] + ext));
        lemma_last_index_concat_absent(path, seq!['.'] + ext, '/');
        assert(last_index(path, '/') < path.len() - 1);
        assert(p2.skip(path.len() as int + 1) =~= ext);
    }
}

/// A path that already has an extension satisfies the rewrite law without
/// further conditions: having an extension rules out an empty path and a
/// trailing separator.
pub proof fn lemma_replace_ext_keeps_new_ext(path: Seq<char>, ext: Seq<char>)
    requires
        ext_of(path) is Some,
        ext.len() > 0,
        !ext.contains('.'),
        !ext.contains('/'),
    ensures
        ext_of(replace_ext(path, ext)) == Some(ext),
{
    lemma_last_index(path, '.');
    lemma_last_index(path, '/');
    assert(path.len() > 0);
    assert(path[path.len() - 1] != '/') by {
        if path[path.len() - 1] == '/' {
            lemma_last_index_is(path, '/', path.len() - 1);
        }
    }
    lemma_replace_ext(path, ext);
}

/// Finds the last occurrence of `c` in `s`.
fn find_last(s: &str, c: char) -> (r: Option<usize>)
    ensures
        r matches Some(i) ==> last_index(s@, c) == i as int,
        r is None ==> last_index(s@, c) == -1,
{
    let n = s.unicode_len();
    let mut i: usize = n;
    while i > 0
        invariant
            i <= n,
            n == s@.len(),
            forall|j: int| i <= j < n ==> s@[j] != c,
        decreases i,
    {
        i -= 1;
        if s.get_char(i) == c {
            proof {
                lemma_last_index_is(s@, c, i as int);
            }
            return Some(i);
        }
    }
    proof {
        lemma_last_index_none(s@, c);
    }
    None
}

/// Replaces the extension of `path` with `ext`, or appends one when `path`
/// has none.
pub fn with_ext(path: &str, ext: &str) -> (r: String)
    ensures
        r@ == replace_ext(path@, ext@),
{
    let n = path.unicode_len();
    let dot = find_last(path, '.');
    let slash = find_last(path, '/');
    let mut s: String;
    match dot {
        Some(d) => {
            proof {
                lemma_last_index(path@, '/');
                lemma_last_index(path@, '.');
            }
            let ns: usize = match slash {
                Some(sl) => sl + 1,
                None => 0,
            };
            if d > ns {
                s = path.substring_char(0, d).to_owned();
            } else {
                s = path.to_owned();
            }
        },
        None => {
            s = path.to_owned();
        },
    }
    s.append(".");
    s.append(ext);
    proof {
        reveal_strlit(".");
        assert(s@ =~= replace_ext(path@, ext@));
    }
    s
}

/// Character-wise equality of two strings.
pub fn str_eq(a: &str, b: &str) -> (r: bool)
    ensures
        r == (a@ == b@),
{
    let n = a.unicode_len();
    let m = b.unicode_len();
    if n != m {
        return false;
    }
    let mut i: usize = 0;
    while i < n
        invariant
            i <= n,
            n == a@.len(),
            n == b@.len(),
            forall|j: int| 0 <= j < i ==> a@[j] == b@[j],
        decreases n - i,
    {
        if a.get_char(i) != b.get_char(i) {
            return false;
        }
        i += 1;
    }
    proof {
        assert(a@ =~= b@);
    }
    true
}

/// Whether the extension of `path` is exactly `ext`.
pub fn ext_matches(path: &str, ext: &str) -> (r: bool)
    ensures
        r == (ext_of(path@) == Some(ext@)),
{
    let n = path.unicode_len();
    let dot = find_last(path, '.');
    let slash = find_last(path, '/');
    match dot {
        Some(d) => {
            proof {
                lemma_last_index(path@, '/');
                lemma_last_index(path@, '.');
            }
            let ns: usize = match slash {
                Some(sl) => sl + 1,
                None => 0,
            };
            if d > ns {
                let suffix = path.substring_char(d + 1, n);
                str_eq(suffix, ext)
            } else {
                false
            }
        },
        None => false,
    }
}

} // verus!
