//! The consumer of change events: what a changed path means, which documents
//! are rendered for it, and what the clients are told afterwards.

use crate::devserver::{ClientMessage, MessageView};
use crate::layout::{layout_named, Layout};
use crate::paths::{
    extension, file_stem, has_extension, is_under, lies_under, relative_to, strip_root,
};
use crate::template::{
    find_usage, lemma_usage_is_exact, template_layout, usage_from, users_from, uses_layout,
    SourceFile,
};
use crate::text::{chars_of, replace_all, replaced, string_of};
use crate::tree::texts;
use vstd::prelude::*;

verus! {

/// What a changed path means to the orchestrator.
#[derive(Debug, Clone, Copy, PartialEq, Eq, Structural)]
pub enum Change {
    /// The template of this layout changed.
    Template(Layout),
    /// A document changed.
    Document,
    /// The path is neither a template nor a document.
    Ignored,
}

/// The extension of a document.
pub open spec fn document_extension() -> Seq<char> {
    seq!['m', 'd']
}

/// The extension of a template and of an artifact.
pub open spec fn page_extension() -> Seq<char> {
    seq!['h', 't', 'm', 'l']
}

/// What a changed path means. A path under the templates root is a template
/// where it has the page extension, and nothing else; its file stem names the
/// layout. Any other path is a document where it has the document extension.
pub open spec fn change_of(path: Seq<char>, templates_root: Seq<char>, sep: char) -> Change {
    if is_under(path, templates_root, sep) {
        if extension(path, sep) == Some(page_extension()) {
            Change::Template(layout_named(file_stem(path, sep)))
        } else {
            Change::Ignored
        }
    } else if extension(path, sep) == Some(document_extension()) {
        Change::Document
    } else {
        Change::Ignored
    }
}

/// The documents to render for a change, in order: for a changed document
/// that document, for a changed template each file that is a document of its
/// layout, for anything else none.
pub open spec fn renders_of(change: Change, path: Seq<char>, files: Seq<SourceFile>) -> Seq<
    Seq<char>,
> {
    match change {
        Change::Template(layout) => usage_from(files, 0, layout),
        Change::Document => seq![path],
        Change::Ignored => seq![],
    }
}

/// A path with each separator written as a forward slash.
pub open spec fn slashed(path: Seq<char>, sep: char) -> Seq<char> {
    replaced(path, seq![sep], seq!['/'])
}

/// What the clients are told once an artifact is written: to load the
/// artifact, named by its path from the served root with forward slashes.
/// Nothing where the artifact does not lie under the served root.
pub open spec fn notice_of(artifact: Seq<char>, served_root: Seq<char>, sep: char) -> Option<
    MessageView,
> {
    match relative_to(artifact, served_root, sep) {
        Some(rest) => Some(MessageView::Navigate(slashed(rest, sep))),
        None => None,
    }
}

/// A change of a template renders the documents of its layout and no others:
/// one render for each file that is a document of the layout, in the order of
/// the files, and none for a file that is not.
pub proof fn lemma_template_change_renders_its_documents(
    layout: Layout,
    path: Seq<char>,
    files: Seq<SourceFile>,
)
    ensures
        renders_of(Change::Template(layout), path, files).len() == users_from(
            files,
            0,
            layout,
        ).len(),
        forall|k: int|
            0 <= k < users_from(files, 0, layout).len() ==> {
                let i = #[trigger] users_from(files, 0, layout)[k];
                &&& 0 <= i < files.len()
                &&& uses_layout(files[i], layout)
                &&& renders_of(Change::Template(layout), path, files)[k] == files[i].path@
            },
        forall|k: int, m: int|
            0 <= k < m < users_from(files, 0, layout).len() ==> users_from(files, 0, layout)[k]
                < users_from(files, 0, layout)[m],
        forall|i: int|
            0 <= i < files.len() && uses_layout(#[trigger] files[i], layout) ==> users_from(
                files,
                0,
                layout,
            ).contains(i),
{
    lemma_usage_is_exact(files, 0, layout);
}

/// Says what a changed path means.
pub fn classify(path: &str, templates_root: &str, sep: char) -> (out: Change)
    ensures
        out == change_of(path@, templates_root@, sep),
{
    let p = chars_of(path);
    let root = chars_of(templates_root);
    if lies_under(&p, &root, sep) {
        let page: Vec<char> = vec!['h', 't', 'm', 'l'];
        assert(page@ =~= page_extension());
        if has_extension(&p, sep, &page) {
            Change::Template(template_layout(path, sep))
        } else {
            Change::Ignored
        }
    } else {
        let document: Vec<char> = vec!['m', 'd'];
        assert(document@ =~= document_extension());
        if has_extension(&p, sep, &document) {
            Change::Document
        } else {
            Change::Ignored
        }
    }
}

/// The documents to render for a change, in order. `files` are the files of
/// the source tree, which count for a changed template alone.
pub fn renders(change: &Change, path: &str, files: &Vec<SourceFile>) -> (out: Vec<String>)
    ensures
        texts(out@) == renders_of(*change, path@, files@),
{
    let mut out: Vec<String> = Vec::new();
    proof {
        assert(texts(out@) =~= Seq::<Seq<char>>::empty());
    }
    match change {
        Change::Template(layout) => {
            find_usage(files, layout, &mut out);
            proof {
                assert(Seq::<Seq<char>>::empty() + usage_from(files@, 0, *layout) =~= usage_from(
                    files@,
                    0,
                    *layout,
                ));
            }
        },
        Change::Document => {
            out.push(string_of(&chars_of(path)));
            proof {
                assert(texts(out@) =~= seq![path@]);
            }
        },
        Change::Ignored => {},
    }
    out
}

/// What the clients are told once an artifact is written.
pub fn notification(artifact: &str, served_root: &str, sep: char) -> (out: Option<ClientMessage>)
    ensures
        match out {
            Some(message) => notice_of(artifact@, served_root@, sep) == Some(message@),
            None => notice_of(artifact@, served_root@, sep) is None,
        },
{
    let a = chars_of(artifact);
    let root = chars_of(served_root);
    match strip_root(&a, &root, sep) {
        Some(rest) => {
            let from: Vec<char> = vec![sep];
            let to: Vec<char> = vec!['/'];
            assert(from@ =~= seq![sep]);
            assert(to@ =~= seq!['/']);
            let path = replace_all(&rest, &from, &to);
            Some(ClientMessage::Navigate(string_of(&path)))
        },
        None => None,
    }
}

/// The two roots that the orchestrator works between, and the separator of
/// their paths.
pub struct Roots {
    pub source_root: String,
    pub templates_root: String,
    pub sep: char,
}

/// The documents of one change event, of which those from index `at` on are
/// still to be rendered.
struct Work {
    documents: Vec<String>,
    at: usize,
}

impl Work {
    /// The documents still to be rendered, the next one first.
    closed spec fn remaining(self) -> Seq<Seq<char>> {
        if self.at <= self.documents@.len() {
            texts(self.documents@).skip(self.at as int)
        } else {
            seq![]
        }
    }
}

/// The orchestrator at rest: it waits for the next change event.
pub struct Orchestrator {
    roots: Roots,
}

/// The orchestrator after a template changed: it waits for the files of the
/// source tree.
pub struct SourcesWanted {
    roots: Roots,
    layout: Layout,
}

/// The orchestrator while one document is rendered: it waits for the outcome.
/// There is one such value at a time, and the next render is had from it
/// alone, so no two renders are under way together.
pub struct RenderJob {
    roots: Roots,
    work: Work,
}

/// The orchestrator after a render, with the clients still to be told.
pub struct Notice {
    roots: Roots,
    work: Work,
    message: ClientMessage,
}

/// What the orchestrator does next, with the state it is then in.
pub enum Next {
    /// Wait for the next change event, and hand it over with `changed`.
    Await(Orchestrator),
    /// Read the files of the source tree, and hand them over with `sources`.
    ReadSources(SourcesWanted),
    /// Render the job's document, and hand the outcome over with `rendered`.
    Render(RenderJob),
    /// Send the notice's message to the clients, then go on with `sent`.
    Broadcast(Notice),
}

/// What the orchestrator does next, as a mathematical value: for a render
/// the document and the documents that follow it, for a broadcast the
/// message and the documents still to be rendered.
pub enum NextView {
    Await,
    ReadSources(Layout),
    Render(Seq<char>, Seq<Seq<char>>),
    Broadcast(MessageView, Seq<Seq<char>>),
}

/// What follows when the documents in `rest` are still to be rendered: the
/// render of the first of them, or rest where there is none.
pub open spec fn proceed(rest: Seq<Seq<char>>) -> NextView {
    if rest.len() == 0 {
        NextView::Await
    } else {
        NextView::Render(rest[0], rest.skip(1))
    }
}

/// What follows a change event: for a document its render, for a template
/// the reading of the source tree, for anything else rest.
pub open spec fn on_change(path: Seq<char>, templates_root: Seq<char>, sep: char) -> NextView {
    match change_of(path, templates_root, sep) {
        Change::Document => NextView::Render(path, seq![]),
        Change::Template(layout) => NextView::ReadSources(layout),
        Change::Ignored => NextView::Await,
    }
}

/// What follows once the files of the source tree are read: the renders of
/// the documents that use the changed template.
pub open spec fn on_sources(layout: Layout, files: Seq<SourceFile>) -> NextView {
    proceed(usage_from(files, 0, layout))
}

/// What follows a render: after a success, the notice to the clients where
/// the artifact lies under the source root; else, and after a failure, the
/// next render. A failure holds nothing up.
pub open spec fn on_rendered(
    artifact: Option<Seq<char>>,
    rest: Seq<Seq<char>>,
    source_root: Seq<char>,
    sep: char,
) -> NextView {
    match artifact {
        Some(path) => match notice_of(path, source_root, sep) {
            Some(message) => NextView::Broadcast(message, rest),
            None => proceed(rest),
        },
        None => proceed(rest),
    }
}

/// How many steps are left from `next` until the orchestrator rests.
pub open spec fn steps_left(next: NextView) -> nat {
    match next {
        NextView::Await => 0,
        NextView::ReadSources(_) => 0,
        NextView::Render(_, rest) => 2 * rest.len() + 2,
        NextView::Broadcast(_, rest) => 2 * rest.len() + 1,
    }
}

/// The next outcome of a render: the first of `outcomes`, and a failure
/// where there is none.
pub open spec fn next_outcome(outcomes: Seq<Option<Seq<char>>>) -> Option<Seq<char>> {
    if outcomes.len() > 0 {
        outcomes[0]
    } else {
        None
    }
}

/// The documents that are rendered, in order, from `next` on until the
/// orchestrator rests, where the renders come out as `outcomes` say, one
/// after the other.
pub open spec fn rendered_until_rest(
    next: NextView,
    outcomes: Seq<Option<Seq<char>>>,
    source_root: Seq<char>,
    sep: char,
) -> Seq<Seq<char>>
    decreases steps_left(next),
{
    match next {
        NextView::Await => seq![],
        NextView::ReadSources(_) => seq![],
        NextView::Render(document, rest) => seq![document] + rendered_until_rest(
            on_rendered(next_outcome(outcomes), rest, source_root, sep),
            outcomes.skip(1),
            source_root,
            sep,
        ),
        NextView::Broadcast(_, rest) => rendered_until_rest(
            proceed(rest),
            outcomes,
            source_root,
            sep,
        ),
    }
}

/// Each document of a change event is rendered once, in the order of the
/// documents, whatever the outcomes of the renders are: a failed render
/// holds nothing up, and none is left out or made twice.
pub proof fn lemma_each_document_rendered_once(
    rest: Seq<Seq<char>>,
    outcomes: Seq<Option<Seq<char>>>,
    source_root: Seq<char>,
    sep: char,
    message: MessageView,
)
    ensures
        rendered_until_rest(proceed(rest), outcomes, source_root, sep) == rest,
        rendered_until_rest(NextView::Broadcast(message, rest), outcomes, source_root, sep)
            == rest,
    decreases rest.len(),
{
    if rest.len() > 0 {
        let after = on_rendered(next_outcome(outcomes), rest.skip(1), source_root, sep);
        match after {
            NextView::Broadcast(told, _) => {
                lemma_each_document_rendered_once(
                    rest.skip(1),
                    outcomes.skip(1),
                    source_root,
                    sep,
                    told,
                );
            },
            _ => {
                lemma_each_document_rendered_once(
                    rest.skip(1),
                    outcomes.skip(1),
                    source_root,
                    sep,
                    message,
                );
            },
        }
        assert(rendered_until_rest(after, outcomes.skip(1), source_root, sep) == rest.skip(1));
        assert(seq![rest[0]] + rest.skip(1) =~= rest);
    }
}

/// A change of a template brings one render of each document of its layout,
/// in the order of the files, and of no other document, whatever the
/// outcomes of the renders are.
pub proof fn lemma_template_change_is_rendered(
    layout: Layout,
    files: Seq<SourceFile>,
    outcomes: Seq<Option<Seq<char>>>,
    source_root: Seq<char>,
    sep: char,
)
    ensures
        rendered_until_rest(on_sources(layout, files), outcomes, source_root, sep) == usage_from(
            files,
            0,
            layout,
        ),
{
    lemma_each_document_rendered_once(
        usage_from(files, 0, layout),
        outcomes,
        source_root,
        sep,
        MessageView::Reload,
    );
}

/// Change events are not coalesced: each event on a document brings one
/// render of that document, whatever the outcome of the render, so two events on
/// one document bring two renders of it, the second after the first has
/// come to its end.
pub proof fn lemma_document_change_is_rendered(
    path: Seq<char>,
    templates_root: Seq<char>,
    outcomes: Seq<Option<Seq<char>>>,
    source_root: Seq<char>,
    sep: char,
)
    requires
        change_of(path, templates_root, sep) == Change::Document,
    ensures
        on_change(path, templates_root, sep) == NextView::Render(path, Seq::empty()),
        rendered_until_rest(on_change(path, templates_root, sep), outcomes, source_root, sep)
            == seq![path],
{
    lemma_each_document_rendered_once(seq![path], outcomes, source_root, sep, MessageView::Reload);
    assert(seq![path].skip(1) =~= Seq::<Seq<char>>::empty());
    assert(proceed(seq![path]) == NextView::Render(path, Seq::empty()));
}

impl Orchestrator {
    /// The roots that the orchestrator works between.
    pub closed spec fn roots(self) -> Roots {
        self.roots
    }

    /// An orchestrator at rest.
    pub fn new(source_root: String, templates_root: String, sep: char) -> (out: Orchestrator)
        ensures
            out.roots() == (Roots { source_root, templates_root, sep }),
    {
        Orchestrator { roots: Roots { source_root, templates_root, sep } }
    }

    /// Takes a change event.
    pub fn changed(self, path: &str) -> (next: Next)
        ensures
            next.roots() == self.roots(),
            next@ == on_change(path@, self.roots().templates_root@, self.roots().sep),
    {
        let change = classify(path, self.roots.templates_root.as_str(), self.roots.sep);
        match change {
            Change::Document => {
                let documents = renders(&change, path, &Vec::new());
                proof {
                    assert(seq![path@].skip(1) =~= Seq::<Seq<char>>::empty());
                }
                start(self.roots, documents)
            },
            Change::Template(layout) => Next::ReadSources(
                SourcesWanted { roots: self.roots, layout },
            ),
            Change::Ignored => Next::Await(self),
        }
    }
}

impl SourcesWanted {
    /// The roots that the orchestrator works between.
    pub closed spec fn roots(self) -> Roots {
        self.roots
    }

    /// The layout whose template changed.
    pub closed spec fn layout(self) -> Layout {
        self.layout
    }

    /// Takes the files of the source tree.
    pub fn sources(self, files: &Vec<SourceFile>) -> (next: Next)
        ensures
            next.roots() == self.roots(),
            next@ == on_sources(self.layout(), files@),
    {
        let mut documents: Vec<String> = Vec::new();
        find_usage(files, &self.layout, &mut documents);
        proof {
            assert(texts(Seq::<String>::empty()) =~= Seq::<Seq<char>>::empty());
            assert(Seq::<Seq<char>>::empty() + usage_from(files@, 0, self.layout) =~= usage_from(
                files@,
                0,
                self.layout,
            ));
        }
        start(self.roots, documents)
    }
}

impl RenderJob {
    #[verifier::type_invariant]
    spec fn well_formed(self) -> bool {
        self.work.at < self.work.documents@.len()
    }

    /// The roots that the orchestrator works between.
    pub closed spec fn roots(self) -> Roots {
        self.roots
    }

    /// The document to render.
    pub closed spec fn spec_document(self) -> Seq<char> {
        self.work.remaining()[0]
    }

    /// The documents to render after this one.
    pub closed spec fn rest(self) -> Seq<Seq<char>> {
        self.work.remaining().skip(1)
    }

    /// The path of the document to render.
    pub fn document(&self) -> (out: &String)
        ensures
            out@ == self.spec_document(),
    {
        proof {
            use_type_invariant(self);
        }
        &self.work.documents[self.work.at]
    }

    /// Takes the outcome of the render: the path of the artifact, or `None`
    /// where the render failed.
    pub fn rendered(self, artifact: Option<String>) -> (next: Next)
        ensures
            next.roots() == self.roots(),
            next@ == on_rendered(
                crate::metadata::text_view(artifact),
                self.rest(),
                self.roots().source_root@,
                self.roots().sep,
            ),
    {
        proof {
            use_type_invariant(&self);
        }
        let known = self.work.documents.len();
        assert(self.work.at < known);
        let work = Work { documents: self.work.documents, at: self.work.at + 1 };
        proof {
            assert(work.remaining() =~= self.work.remaining().skip(1));
        }
        let message = match artifact {
            Some(path) => notification(
                path.as_str(),
                self.roots.source_root.as_str(),
                self.roots.sep,
            ),
            None => None,
        };
        match message {
            Some(message) => Next::Broadcast(Notice { roots: self.roots, work, message }),
            None => resume(self.roots, work),
        }
    }
}

impl Notice {
    #[verifier::type_invariant]
    spec fn well_formed(self) -> bool {
        self.work.at <= self.work.documents@.len()
    }

    /// The roots that the orchestrator works between.
    pub closed spec fn roots(self) -> Roots {
        self.roots
    }

    /// The message to send.
    pub closed spec fn spec_message(self) -> MessageView {
        self.message@
    }

    /// The documents still to be rendered.
    pub closed spec fn rest(self) -> Seq<Seq<char>> {
        self.work.remaining()
    }

    /// The message to send to the clients.
    pub fn message(&self) -> (out: &ClientMessage)
        ensures
            out@ == self.spec_message(),
    {
        &self.message
    }

    /// Goes on once the message is handed to the clients.
    pub fn sent(self) -> (next: Next)
        ensures
            next.roots() == self.roots(),
            next@ == proceed(self.rest()),
    {
        proof {
            use_type_invariant(&self);
        }
        resume(self.roots, self.work)
    }
}

impl Next {
    /// The roots that the orchestrator works between.
    pub open spec fn roots(self) -> Roots {
        match self {
            Next::Await(state) => state.roots(),
            Next::ReadSources(state) => state.roots(),
            Next::Render(state) => state.roots(),
            Next::Broadcast(state) => state.roots(),
        }
    }
}

impl View for Next {
    type V = NextView;

    open spec fn view(&self) -> NextView {
        match self {
            Next::Await(_) => NextView::Await,
            Next::ReadSources(state) => NextView::ReadSources(state.layout()),
            Next::Render(state) => NextView::Render(state.spec_document(), state.rest()),
            Next::Broadcast(state) => NextView::Broadcast(state.spec_message(), state.rest()),
        }
    }
}

/// Takes up the documents of a change event.
fn start(roots: Roots, documents: Vec<String>) -> (next: Next)
    ensures
        next.roots() == roots,
        next@ == proceed(texts(documents@)),
{
    let work = Work { documents, at: 0 };
    proof {
        assert(work.remaining() =~= texts(documents@));
    }
    resume(roots, work)
}

/// Goes on with the documents that are still to be rendered.
fn resume(roots: Roots, work: Work) -> (next: Next)
    requires
        work.at <= work.documents@.len(),
    ensures
        next.roots() == roots,
        next@ == proceed(work.remaining()),
{
    if work.at < work.documents.len() {
        Next::Render(RenderJob { roots, work })
    } else {
        Next::Await(Orchestrator { roots })
    }
}

} // verus!
