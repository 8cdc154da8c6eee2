//! Paths as text. A path is a sequence of characters in which one character,
//! the separator, parts the components; the last component is the file name.

use crate::text::{chained, copy_range, same_chars};
use vstd::prelude::*;

verus! {

/// The greatest index at which `c` stands in `s`.
pub open spec fn last_index_of(s: Seq<char>, c: char) -> Option<int>
    decreases s.len(),
{
    if s.len() == 0 {
        None
    } else if s.last() == c {
        Some(s.len() - 1)
    } else {
        last_index_of(s.drop_last(), c)
    }
}

/// What `last_index_of` finds is an index of `c` with none after it, and
/// where it finds nothing `c` does not occur.
pub proof fn lemma_last_index_of(s: Seq<char>, c: char)
    ensures
        match last_index_of(s, c) {
            Some(i) => 0 <= i < s.len() && s[i] == c && forall|j: int|
                i < j < s.len() ==> s[j] != c,
            None => forall|j: int| 0 <= j < s.len() ==> s[j] != c,
        },
    decreases s.len(),
{
    if s.len() > 0 && s.last() != c {
        let front = s.drop_last();
        lemma_last_index_of(front, c);
        assert forall|j: int| 0 <= j < front.len() implies front[j] == s[j] by {}
        match last_index_of(front, c) {
            Some(i) => {
                assert forall|j: int| i < j < s.len() implies s[j] != c by {
                    if j < front.len() {
                        assert(front[j] != c);
                    }
                }
            },
            None => {
                assert forall|j: int| 0 <= j < s.len() implies s[j] != c by {
                    if j < front.len() {
                        assert(front[j] != c);
                    }
                }
            },
        }
    }
}

/// The two dots that name the parent directory.
pub open spec fn parent_name() -> Seq<char> {
    seq!['.', '.']
}

/// The last component of a path: what follows the last separator.
pub open spec fn file_name(path: Seq<char>, sep: char) -> Seq<char> {
    match last_index_of(path, sep) {
        Some(i) => path.skip(i + 1),
        None => path,
    }
}

/// Whether a last component names a file: it is not empty and not `..`.
pub open spec fn names_file(name: Seq<char>) -> bool {
    name.len() > 0 && name != parent_name()
}

/// Where in a file name the dot stands that starts its extension: the last
/// dot, unless it is the first character of the name.
pub open spec fn extension_dot(name: Seq<char>) -> Option<int> {
    match last_index_of(name, '.') {
        Some(i) => if i > 0 && names_file(name) {
            Some(i)
        } else {
            None
        },
        None => None,
    }
}

/// The extension of a path: what follows the extension's dot in the file name.
pub open spec fn extension(path: Seq<char>, sep: char) -> Option<Seq<char>> {
    let name = file_name(path, sep);
    match extension_dot(name) {
        Some(i) => Some(name.skip(i + 1)),
        None => None,
    }
}

/// The file name of a path without its extension.
pub open spec fn file_stem(path: Seq<char>, sep: char) -> Seq<char> {
    let name = file_name(path, sep);
    match extension_dot(name) {
        Some(i) => name.take(i),
        None => name,
    }
}

/// The path with the extension of its file name replaced by `ext`, or given
/// `ext` where it had none. A path whose last component names no file stays
/// as it is.
pub open spec fn with_extension(path: Seq<char>, sep: char, ext: Seq<char>) -> Seq<char> {
    let name = file_name(path, sep);
    if !names_file(name) {
        path
    } else {
        path.take(path.len() - name.len() + file_stem(path, sep).len()) + seq!['.'] + ext
    }
}

/// Whether `s` begins with `prefix`.
pub open spec fn starts_with(s: Seq<char>, prefix: Seq<char>) -> bool {
    prefix.len() <= s.len() && s.take(prefix.len() as int) == prefix
}

/// Whether `path` is `root` or lies below it: it begins with `root`, and what
/// follows `root` in it, if anything, is parted from `root` by a separator.
pub open spec fn is_under(path: Seq<char>, root: Seq<char>, sep: char) -> bool {
    &&& starts_with(path, root)
    &&& (path.len() == root.len() || (root.len() > 0 && root.last() == sep) || path[root.len() as int]
        == sep)
}

/// `s` without the separators it begins with.
pub open spec fn without_leading(s: Seq<char>, sep: char) -> Seq<char>
    decreases s.len(),
{
    if s.len() > 0 && s[0] == sep {
        without_leading(s.skip(1), sep)
    } else {
        s
    }
}

/// The path from `root` to `path`, where `path` is `root` or lies below it.
pub open spec fn relative_to(path: Seq<char>, root: Seq<char>, sep: char) -> Option<Seq<char>> {
    if is_under(path, root, sep) {
        Some(without_leading(path.skip(root.len() as int), sep))
    } else {
        None
    }
}

/// Where in a path the extension's dot stands, for a path that has an
/// extension.
pub open spec fn stem_end(path: Seq<char>, sep: char) -> int {
    path.len() - file_name(path, sep).len() + file_stem(path, sep).len()
}

/// A path with an extension is what stands before the extension's dot, the
/// dot and the extension; with another extension it is the same but for the
/// extension.
pub proof fn lemma_path_ends_with_extension(path: Seq<char>, sep: char, other: Seq<char>)
    requires
        extension(path, sep) is Some,
    ensures
        0 <= stem_end(path, sep) < path.len(),
        path == path.take(stem_end(path, sep)) + seq!['.'] + extension(path, sep)->0,
        with_extension(path, sep, other) == path.take(stem_end(path, sep)) + seq!['.'] + other,
{
    let name = file_name(path, sep);
    lemma_last_index_of(path, sep);
    lemma_last_index_of(name, '.');
    let dot = extension_dot(name)->0;
    let start = path.len() - name.len();
    assert(name == path.skip(start)) by {
        match last_index_of(path, sep) {
            Some(i) => {},
            None => {
                assert(path.skip(0) == path);
            },
        }
    }
    assert(file_stem(path, sep) == name.take(dot));
    assert(stem_end(path, sep) == start + dot);
    assert(path =~= path.take(start + dot) + seq!['.'] + name.skip(dot + 1)) by {
        assert(path[start + dot] == name[dot]);
    }
}

/// Putting another extension in place of their own keeps two paths with one
/// and the same extension apart: to each such path belongs a path of its
/// own.
pub proof fn lemma_with_extension_is_one_to_one(
    first: Seq<char>,
    second: Seq<char>,
    sep: char,
    other: Seq<char>,
)
    requires
        extension(first, sep) is Some,
        extension(first, sep) == extension(second, sep),
        with_extension(first, sep, other) == with_extension(second, sep, other),
    ensures
        first == second,
{
    lemma_path_ends_with_extension(first, sep, other);
    lemma_path_ends_with_extension(second, sep, other);
    let a = first.take(stem_end(first, sep));
    let b = second.take(stem_end(second, sep));
    let tail = seq!['.'] + other;
    assert(a + seq!['.'] + other =~= a + tail);
    assert(b + seq!['.'] + other =~= b + tail);
    assert((a + tail).len() == (b + tail).len());
    assert(a =~= b) by {
        assert forall|i: int| 0 <= i < a.len() implies a[i] == b[i] by {
            assert((a + tail)[i] == (b + tail)[i]);
        }
    }
}

/// The path of `name` in the directory `root`: the two parted by one
/// separator, which is left out where `root` is empty or ends with one.
pub open spec fn joined(root: Seq<char>, name: Seq<char>, sep: char) -> Seq<char> {
    if root.len() == 0 || root.last() == sep {
        root + name
    } else {
        root + seq![sep] + name
    }
}

/// The path of `name` in the directory `root`.
pub fn join(root: &Vec<char>, name: &Vec<char>, sep: char) -> (out: Vec<char>)
    ensures
        out@ == joined(root@, name@, sep),
{
    if root.len() == 0 || root[root.len() - 1] == sep {
        chained(root, name)
    } else {
        let parted: Vec<char> = vec![sep];
        assert(parted@ =~= seq![sep]);
        let dir = chained(root, &parted);
        chained(&dir, name)
    }
}

/// The greatest index at which `c` stands in `s`.
pub fn last_index(s: &Vec<char>, c: char) -> (at: Option<usize>)
    ensures
        match at {
            Some(i) => last_index_of(s@, c) == Some(i as int) && i < s.len(),
            None => last_index_of(s@, c) is None,
        },
{
    let mut n: usize = s.len();
    proof {
        assert(s@.take(n as int) == s@);
    }
    while n > 0
        invariant
            n <= s.len(),
            last_index_of(s@, c) == last_index_of(s@.take(n as int), c),
        decreases n,
    {
        if s[n - 1] == c {
            return Some(n - 1);
        }
        proof {
            assert(s@.take(n as int).drop_last() == s@.take(n - 1));
        }
        n -= 1;
    }
    None
}

/// Where the file name of a path starts.
pub fn file_name_start(path: &Vec<char>, sep: char) -> (start: usize)
    ensures
        start <= path.len(),
        path@.skip(start as int) == file_name(path@, sep),
{
    proof {
        lemma_last_index_of(path@, sep);
    }
    match last_index(path, sep) {
        Some(i) => i + 1,
        None => {
            proof {
                assert(path@.skip(0) == path@);
            }
            0
        },
    }
}

/// The file name of a path.
pub fn file_name_of(path: &Vec<char>, sep: char) -> (name: Vec<char>)
    ensures
        name@ == file_name(path@, sep),
{
    let start = file_name_start(path, sep);
    let name = copy_range(path, start, path.len());
    proof {
        assert(path@.subrange(start as int, path.len() as int) == path@.skip(start as int));
    }
    name
}

/// Where in a file name its extension's dot stands.
pub fn extension_dot_of(name: &Vec<char>) -> (at: Option<usize>)
    ensures
        match at {
            Some(i) => extension_dot(name@) == Some(i as int) && i < name.len(),
            None => extension_dot(name@) is None,
        },
{
    proof {
        lemma_last_index_of(name@, '.');
    }
    let parent: Vec<char> = vec!['.', '.'];
    assert(parent@ =~= parent_name());
    match last_index(name, '.') {
        Some(i) => if i > 0 && name.len() > 0 && !same_chars(name, &parent) {
            Some(i)
        } else {
            None
        },
        None => None,
    }
}

/// The extension of a path.
pub fn extension_of(path: &Vec<char>, sep: char) -> (ext: Option<Vec<char>>)
    ensures
        match ext {
            Some(e) => extension(path@, sep) == Some(e@),
            None => extension(path@, sep) is None,
        },
{
    let name = file_name_of(path, sep);
    match extension_dot_of(&name) {
        Some(i) => {
            let ext = copy_range(&name, i + 1, name.len());
            proof {
                assert(name@.subrange(i + 1, name.len() as int) == name@.skip(i + 1));
            }
            Some(ext)
        },
        None => None,
    }
}

/// Whether the extension of a path is `ext`.
pub fn has_extension(path: &Vec<char>, sep: char, ext: &Vec<char>) -> (has: bool)
    ensures
        has == (extension(path@, sep) == Some(ext@)),
{
    match extension_of(path, sep) {
        Some(e) => same_chars(&e, ext),
        None => false,
    }
}

/// The file name of a path without its extension.
pub fn file_stem_of(path: &Vec<char>, sep: char) -> (stem: Vec<char>)
    ensures
        stem@ == file_stem(path@, sep),
{
    let name = file_name_of(path, sep);
    match extension_dot_of(&name) {
        Some(i) => {
            let stem = copy_range(&name, 0, i);
            proof {
                assert(name@.subrange(0, i as int) == name@.take(i as int));
            }
            stem
        },
        None => name,
    }
}

/// The path with the extension of its file name replaced by `ext`.
pub fn replace_extension(path: &Vec<char>, sep: char, ext: &Vec<char>) -> (out: Vec<char>)
    ensures
        out@ == with_extension(path@, sep, ext@),
{
    let start = file_name_start(path, sep);
    let name = file_name_of(path, sep);
    let parent: Vec<char> = vec!['.', '.'];
    assert(parent@ =~= parent_name());
    if name.len() == 0 || same_chars(&name, &parent) {
        let same = copy_range(path, 0, path.len());
        proof {
            assert(path@.subrange(0, path.len() as int) == path@);
        }
        return same;
    }
    let stem_len = match extension_dot_of(&name) {
        Some(i) => i,
        None => name.len(),
    };
    proof {
        assert(name@.len() == path@.len() - start);
        assert(name@.take(name.len() as int) == name@);
        assert(file_stem(path@, sep).len() == stem_len);
    }
    let kept = copy_range(path, 0, start + stem_len);
    proof {
        assert(path@.subrange(0, start + stem_len) == path@.take(start + stem_len));
    }
    let dot: Vec<char> = vec!['.'];
    assert(dot@ =~= seq!['.']);
    let dotted = chained(&kept, &dot);
    chained(&dotted, ext)
}

/// Whether `s` begins with `prefix`.
pub fn begins_with(s: &Vec<char>, prefix: &Vec<char>) -> (begins: bool)
    ensures
        begins == starts_with(s@, prefix@),
{
    if prefix.len() > s.len() {
        return false;
    }
    let found = crate::text::matches_at(s, prefix, 0);
    proof {
        assert(s@.subrange(0, prefix.len() as int) == s@.take(prefix.len() as int));
    }
    found
}

/// Whether `path` is `root` or lies below it.
pub fn lies_under(path: &Vec<char>, root: &Vec<char>, sep: char) -> (under: bool)
    ensures
        under == is_under(path@, root@, sep),
{
    if !begins_with(path, root) {
        return false;
    }
    path.len() == root.len() || (root.len() > 0 && root[root.len() - 1] == sep) || path[root.len()]
        == sep
}

/// The path from `root` to `path`, where `path` is `root` or lies below it.
pub fn strip_root(path: &Vec<char>, root: &Vec<char>, sep: char) -> (rest: Option<Vec<char>>)
    ensures
        match rest {
            Some(r) => relative_to(path@, root@, sep) == Some(r@),
            None => relative_to(path@, root@, sep) is None,
        },
{
    if !lies_under(path, root, sep) {
        return None;
    }
    let mut from: usize = root.len();
    while from < path.len() && path[from] == sep
        invariant
            root.len() <= from <= path.len(),
            without_leading(path@.skip(root.len() as int), sep) == without_leading(
                path@.skip(from as int),
                sep,
            ),
        decreases path.len() - from,
    {
        proof {
            assert(path@.skip(from as int).skip(1) == path@.skip(from + 1));
            assert(path@.skip(from as int)[0] == path@[from as int]);
        }
        from += 1;
    }
    let rest = copy_range(path, from, path.len());
    proof {
        let tail = path@.skip(from as int);
        assert(path@.subrange(from as int, path.len() as int) == tail);
        if tail.len() > 0 {
            assert(tail[0] == path@[from as int]);
        }
        assert(without_leading(tail, sep) == tail);
    }
    Some(rest)
}

} // verus!
