//! The identifier that joins a template to the documents rendered through it.

use crate::text::{chars_of, lowered, lowered_is};
use vstd::prelude::*;
use vstd::string::StringExecFns;

verus! {

/// Template to apply to a document during its rendering.
#[derive(Debug, Clone, Copy, PartialEq, Eq, Hash, Structural)]
pub enum Layout {
    Article,
    Index,
    Undefined,
}

/// The word that names the `Index` layout.
pub open spec fn index_word() -> Seq<char> {
    seq!['i', 'n', 'd', 'e', 'x']
}

/// The word that names the `Article` layout.
pub open spec fn article_word() -> Seq<char> {
    seq!['a', 'r', 't', 'i', 'c', 'l', 'e']
}

/// The layout that a name stands for: the name is read without regard to ASCII
/// case, and any name but the two known ones is `Undefined`.
pub open spec fn layout_named(name: Seq<char>) -> Layout {
    if lowered(name) == index_word() {
        Layout::Index
    } else if lowered(name) == article_word() {
        Layout::Article
    } else {
        Layout::Undefined
    }
}

impl Layout {
    /// The layout's name as it is written out: the variant's own name.
    pub open spec fn spec_name(self) -> Seq<char> {
        match self {
            Layout::Article => seq!['A', 'r', 't', 'i', 'c', 'l', 'e'],
            Layout::Index => seq!['I', 'n', 'd', 'e', 'x'],
            Layout::Undefined => seq!['U', 'n', 'd', 'e', 'f', 'i', 'n', 'e', 'd'],
        }
    }

    /// The layout's name as text.
    pub fn to_string(&self) -> (out: String)
        ensures
            out@ == self.spec_name(),
    {
        proof {
            reveal_strlit("Article");
            reveal_strlit("Index");
            reveal_strlit("Undefined");
        }
        match self {
            Layout::Article => {
                assert("Article"@ =~= self.spec_name());
                String::from_str("Article")
            },
            Layout::Index => {
                assert("Index"@ =~= self.spec_name());
                String::from_str("Index")
            },
            Layout::Undefined => {
                assert("Undefined"@ =~= self.spec_name());
                String::from_str("Undefined")
            },
        }
    }
}

impl From<&str> for Layout {
    fn from(s: &str) -> (out: Layout) {
        let name = chars_of(s);
        let index: Vec<char> = vec!['i', 'n', 'd', 'e', 'x'];
        let article: Vec<char> = vec!['a', 'r', 't', 'i', 'c', 'l', 'e'];
        assert(index@ =~= index_word());
        assert(article@ =~= article_word());
        if lowered_is(&name, &index) {
            Layout::Index
        } else if lowered_is(&name, &article) {
            Layout::Article
        } else {
            Layout::Undefined
        }
    }
}

impl vstd::std_specs::convert::FromSpecImpl<&str> for Layout {
    open spec fn obeys_from_spec() -> bool {
        true
    }

    open spec fn from_spec(s: &str) -> Layout {
        layout_named(s@)
    }
}

/// Every layout is the layout that its own written name stands for.
pub proof fn lemma_name_round_trip(layout: Layout)
    ensures
        layout_named(layout.spec_name()) == layout,
{
    assert(lowered(Layout::Article.spec_name()) =~= article_word());
    assert(lowered(Layout::Index.spec_name()) =~= index_word());
    assert(index_word().len() != article_word().len());
    assert(lowered(Layout::Undefined.spec_name()).len() == 9);
}

} // verus!
