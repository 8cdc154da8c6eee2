//! A directory tree as it was read, and the walks that the library makes
//! over it.

use crate::paths::{extension, has_extension};
use crate::text::chars_of;
use vstd::prelude::*;

verus! {

/// One entry of a directory.
pub enum Node {
    /// A file, with its time of last modification where that could be had.
    File { path: String, modified: Option<u128> },
    /// Anything that is not a file, with its entries where they could be read.
    Directory { path: String, entries: Option<Vec<Node>> },
    /// An entry of which nothing could be learnt.
    Unreadable { path: String },
}

/// Which files a walk reports.
pub enum Select {
    /// Every file.
    All,
    /// The files whose path has this extension.
    Extension(Vec<char>),
    /// The files modified after this time.
    ModifiedAfter(u128),
}

/// The mathematical value of a `Select`.
pub enum Selection {
    All,
    Extension(Seq<char>),
    ModifiedAfter(u128),
}

impl View for Select {
    type V = Selection;

    open spec fn view(&self) -> Selection {
        match self {
            Select::All => Selection::All,
            Select::Extension(ext) => Selection::Extension(ext@),
            Select::ModifiedAfter(time) => Selection::ModifiedAfter(*time),
        }
    }
}

/// Whether a walk reports a file.
pub open spec fn selected(select: Selection, path: Seq<char>, modified: Option<u128>, sep: char) -> bool {
    match select {
        Selection::All => true,
        Selection::Extension(ext) => extension(path, sep) == Some(ext),
        Selection::ModifiedAfter(time) => match modified {
            Some(at) => at > time,
            None => false,
        },
    }
}

/// The files that a walk reports of one entry, in the order of the walk.
pub open spec fn walked_node(node: Node, select: Selection, recursive: bool, sep: char) -> Seq<
    Seq<char>,
>
    decreases node, 0nat,
{
    match node {
        Node::File { path, modified } => if selected(select, path@, modified, sep) {
            seq![path@]
        } else {
            seq![]
        },
        Node::Directory { path, entries } => match entries {
            Some(below) => if recursive {
                walked_from(below@, 0, select, recursive, sep)
            } else {
                seq![]
            },
            None => seq![],
        },
        Node::Unreadable { path } => seq![],
    }
}

/// The files that a walk reports of the entries from index `from` on: each
/// entry in turn, a directory's files before the entry that follows it.
pub open spec fn walked_from(
    entries: Seq<Node>,
    from: int,
    select: Selection,
    recursive: bool,
    sep: char,
) -> Seq<Seq<char>>
    decreases entries, entries.len() - from,
{
    if from < 0 || from >= entries.len() {
        seq![]
    } else {
        walked_node(entries[from], select, recursive, sep) + walked_from(
            entries,
            from + 1,
            select,
            recursive,
            sep,
        )
    }
}

/// The characters of each text of a sequence.
pub open spec fn texts(v: Seq<String>) -> Seq<Seq<char>> {
    Seq::new(v.len(), |i: int| v[i]@)
}

/// Whether a walk reports a file.
pub fn is_selected(select: &Select, path: &String, modified: &Option<u128>, sep: char) -> (yes:
    bool)
    ensures
        yes == selected(select@, path@, *modified, sep),
{
    match select {
        Select::All => true,
        Select::Extension(ext) => {
            let p = chars_of(path.as_str());
            has_extension(&p, sep, ext)
        },
        Select::ModifiedAfter(time) => match modified {
            Some(at) => *at > *time,
            None => false,
        },
    }
}

/// Adds to `out` the files that a walk reports of one entry.
pub fn collect_node(node: &Node, select: &Select, recursive: bool, sep: char, out: &mut Vec<String>)
    ensures
        texts(final(out)@) == texts(old(out)@) + walked_node(*node, select@, recursive, sep),
    decreases node, 0nat,
{
    match node {
        Node::File { path, modified } => {
            if is_selected(select, path, modified, sep) {
                out.push(path.clone());
                proof {
                    assert(texts(out@) =~= texts(old(out)@) + seq![path@]);
                }
            } else {
                proof {
                    assert(texts(out@) =~= texts(old(out)@) + Seq::<Seq<char>>::empty());
                }
            }
        },
        Node::Directory { path, entries } => {
            match entries {
                Some(below) => {
                    if recursive {
                        collect(below, select, recursive, sep, out);
                    } else {
                        proof {
                            assert(texts(out@) =~= texts(old(out)@) + Seq::<Seq<char>>::empty());
                        }
                    }
                },
                None => {
                    proof {
                        assert(texts(out@) =~= texts(old(out)@) + Seq::<Seq<char>>::empty());
                    }
                },
            }
        },
        Node::Unreadable { path } => {
            proof {
                assert(texts(out@) =~= texts(old(out)@) + Seq::<Seq<char>>::empty());
            }
        },
    }
}

/// Adds to `out` the files that a walk reports of the entries of a directory.
pub fn collect(
    entries: &Vec<Node>,
    select: &Select,
    recursive: bool,
    sep: char,
    out: &mut Vec<String>,
)
    ensures
        texts(final(out)@) == texts(old(out)@) + walked_from(
            entries@,
            0,
            select@,
            recursive,
            sep,
        ),
    decreases entries, entries.len(),
{
    let mut i: usize = 0;
    proof {
        assert(texts(out@) =~= texts(old(out)@) + Seq::<Seq<char>>::empty());
    }
    while i < entries.len()
        invariant
            i <= entries.len(),
            texts(out@) + walked_from(entries@, i as int, select@, recursive, sep) == texts(
                old(out)@,
            ) + walked_from(entries@, 0, select@, recursive, sep),
        decreases entries.len() - i,
    {
        let ghost before = texts(out@);
        let ghost here = walked_node(entries@[i as int], select@, recursive, sep);
        let ghost rest = walked_from(entries@, i + 1, select@, recursive, sep);
        collect_node(&entries[i], select, recursive, sep, out);
        proof {
            assert((before + here) + rest =~= before + (here + rest));
        }
        i += 1;
    }
    proof {
        assert(texts(out@) + Seq::<Seq<char>>::empty() =~= texts(out@));
    }
}

/// The files below a directory whose path has the given extension, in the
/// order of the walk. Without `recursive` the walk stays in the directory's own
/// entries.
pub fn walk_dir(entries: &Vec<Node>, extension: &str, recursive: bool, sep: char) -> (out: Vec<
    String,
>)
    ensures
        texts(out@) == walked_from(
            entries@,
            0,
            Selection::Extension(extension@),
            recursive,
            sep,
        ),
{
    let select = Select::Extension(chars_of(extension));
    let mut out: Vec<String> = Vec::new();
    collect(entries, &select, recursive, sep, &mut out);
    proof {
        assert(texts(Seq::<String>::empty()) =~= Seq::<Seq<char>>::empty());
        assert(Seq::<Seq<char>>::empty() + texts(out@) =~= texts(out@));
    }
    out
}

} // verus!
