//! The bulk pass over all documents: which of them are stale, and why.

use crate::layout::Layout;
use crate::template::TemplateTimestampIndex;
use vstd::prelude::*;

verus! {

/// A document as the bulk pass finds it: when its source was last modified,
/// when its artifact was (`None` where there is no artifact yet), and the
/// layout that it declares (`None` where it declares none that can be read).
pub struct Document {
    pub path: String,
    pub modified: u128,
    pub artifact: Option<u128>,
    pub layout: Option<Layout>,
}

/// How a document stands to its artifact.
#[derive(Debug, Clone, Copy, PartialEq, Eq, Structural)]
pub enum Staleness {
    /// The artifact is as new as the source and as the template.
    Fresh,
    /// There is no artifact yet.
    Unpublished,
    /// The source was modified after the artifact.
    SourceChanged,
    /// The template of the document's layout was modified after the artifact.
    TemplateChanged,
}

/// One step of the bulk pass: a stale document and why it is stale. With
/// `render` the document is to be rendered; without, only reported.
pub struct PublishStep {
    pub path: String,
    pub reason: Staleness,
    pub render: bool,
}

/// How a document stands to its artifact. A document without an artifact is
/// unpublished. Else the source counts first: it is stale where it is newer
/// than the artifact. Else the template of its layout counts, where the index
/// knows one: it is stale where that is newer than the artifact.
pub open spec fn staleness_of(
    modified: u128,
    artifact: Option<u128>,
    layout: Option<Layout>,
    index: Map<Layout, u128>,
) -> Staleness {
    match artifact {
        None => Staleness::Unpublished,
        Some(published) => if modified > published {
            Staleness::SourceChanged
        } else {
            match layout {
                Some(l) => if index.contains_key(l) && index[l] > published {
                    Staleness::TemplateChanged
                } else {
                    Staleness::Fresh
                },
                None => Staleness::Fresh,
            }
        },
    }
}

/// How a document stands to its artifact, as the bulk pass finds it.
pub open spec fn document_staleness(document: Document, index: Map<Layout, u128>) -> Staleness {
    staleness_of(document.modified, document.artifact, document.layout, index)
}

/// The steps of a bulk pass over the documents from index `from` on: one for
/// each stale document, in the order of the documents, as its path and the
/// reason.
pub open spec fn steps_from(documents: Seq<Document>, from: int, index: Map<Layout, u128>) -> Seq<
    (Seq<char>, Staleness),
>
    decreases documents.len() - from,
{
    if from < 0 || from >= documents.len() {
        seq![]
    } else if document_staleness(documents[from], index) != Staleness::Fresh {
        seq![(documents[from].path@, document_staleness(documents[from], index))] + steps_from(
            documents,
            from + 1,
            index,
        )
    } else {
        steps_from(documents, from + 1, index)
    }
}

/// The paths and reasons of a sequence of steps.
pub open spec fn steps_view(steps: Seq<PublishStep>) -> Seq<(Seq<char>, Staleness)> {
    Seq::new(steps.len(), |i: int| (steps[i].path@, steps[i].reason))
}

/// Whether a document's artifact is up to date: there is one, it is not older
/// than the source, and the template of the document's layout, where the
/// index knows one, is not newer than it.
pub open spec fn up_to_date(document: Document, index: Map<Layout, u128>) -> bool {
    match document.artifact {
        Some(published) => document.modified <= published && match document.layout {
            Some(l) => index.contains_key(l) ==> index[l] <= published,
            None => true,
        },
        None => false,
    }
}

/// A document as a bulk pass leaves it: where it was stale, its artifact was
/// written at the time `at`.
pub open spec fn after_pass(document: Document, index: Map<Layout, u128>, at: u128) -> Document {
    if document_staleness(document, index) != Staleness::Fresh {
        Document {
            path: document.path,
            modified: document.modified,
            artifact: Some(at),
            layout: document.layout,
        }
    } else {
        document
    }
}

/// A stale document has its step in the bulk pass: a document without an
/// artifact is always published, and so is one whose source or template is
/// newer than its artifact.
pub proof fn lemma_stale_document_has_step(
    documents: Seq<Document>,
    index: Map<Layout, u128>,
    from: int,
    i: int,
)
    requires
        0 <= from <= i < documents.len(),
        document_staleness(documents[i], index) != Staleness::Fresh,
    ensures
        steps_from(documents, from, index).contains(
            (documents[i].path@, document_staleness(documents[i], index)),
        ),
        documents[i].artifact is None ==> steps_from(documents, from, index).contains(
            (documents[i].path@, Staleness::Unpublished),
        ),
    decreases i - from,
{
    let step = (documents[i].path@, document_staleness(documents[i], index));
    let all = steps_from(documents, from, index);
    let rest = steps_from(documents, from + 1, index);
    if from == i {
        assert(all == seq![step] + rest);
        assert(all[0] == step);
    } else {
        lemma_stale_document_has_step(documents, index, from + 1, i);
        let k = choose|k: int| 0 <= k < rest.len() && rest[k] == step;
        if document_staleness(documents[from], index) != Staleness::Fresh {
            assert(all[k + 1] == step);
        } else {
            assert(all[k] == step);
        }
    }
}

/// The step of a stale document: its path and the reason.
pub open spec fn step_of(document: Document, index: Map<Layout, u128>) -> (Seq<char>, Staleness) {
    (document.path@, document_staleness(document, index))
}

/// Whether the documents from index `from` on hold a stale one of which `step` is the
/// step.
pub open spec fn is_step_of_stale(
    documents: Seq<Document>,
    index: Map<Layout, u128>,
    from: int,
    step: (Seq<char>, Staleness),
) -> bool {
    exists|i: int|
        from <= i < documents.len() && !up_to_date(#[trigger] documents[i], index) && step_of(
            documents[i],
            index,
        ) == step
}

/// Each step of the bulk pass is the step of a stale document: a document
/// whose artifact is up to date is not written.
pub proof fn lemma_steps_are_of_stale_documents(
    documents: Seq<Document>,
    index: Map<Layout, u128>,
    from: int,
)
    requires
        0 <= from,
    ensures
        forall|k: int|
            0 <= k < steps_from(documents, from, index).len() ==> is_step_of_stale(
                documents,
                index,
                from,
                #[trigger] steps_from(documents, from, index)[k],
            ),
    decreases documents.len() - from,
{
    if from < documents.len() {
        lemma_steps_are_of_stale_documents(documents, index, from + 1);
        let all = steps_from(documents, from, index);
        let rest = steps_from(documents, from + 1, index);
        assert forall|k: int| 0 <= k < all.len() implies is_step_of_stale(
            documents,
            index,
            from,
            #[trigger] all[k],
        ) by {
            if document_staleness(documents[from], index) != Staleness::Fresh && k == 0 {
                assert(all[0] == step_of(documents[from], index));
                assert(!up_to_date(documents[from], index));
            } else {
                let earlier = if document_staleness(documents[from], index) != Staleness::Fresh {
                    k - 1
                } else {
                    k
                };
                assert(all[k] == rest[earlier]);
                assert(is_step_of_stale(documents, index, from + 1, rest[earlier]));
                let i = choose|i: int|
                    from + 1 <= i < documents.len() && !up_to_date(#[trigger] documents[i], index)
                        && step_of(documents[i], index) == rest[earlier];
                assert(!up_to_date(documents[i], index) && step_of(documents[i], index) == all[k]);
            }
        }
    }
}

/// A bulk pass over documents whose artifacts are all up to date has no
/// step.
pub proof fn lemma_up_to_date_gives_no_step(
    documents: Seq<Document>,
    index: Map<Layout, u128>,
    from: int,
)
    requires
        0 <= from,
        forall|i: int| from <= i < documents.len() ==> up_to_date(#[trigger] documents[i], index),
    ensures
        steps_from(documents, from, index) == Seq::<(Seq<char>, Staleness)>::empty(),
    decreases documents.len() - from,
{
    if from < documents.len() {
        assert(up_to_date(documents[from], index));
        lemma_up_to_date_gives_no_step(documents, index, from + 1);
    }
}

/// The bulk pass is idempotent: once every stale document has its artifact
/// written, at a time not before the last change of any source or template,
/// a second pass with nothing changed in between has no step.
pub proof fn lemma_second_pass_has_no_step(
    documents: Seq<Document>,
    index: Map<Layout, u128>,
    at: u128,
    after: Seq<Document>,
)
    requires
        after.len() == documents.len(),
        forall|i: int|
            0 <= i < documents.len() ==> #[trigger] after[i] == after_pass(documents[i], index, at),
        forall|i: int| 0 <= i < documents.len() ==> (#[trigger] documents[i]).modified <= at,
        forall|l: Layout| index.contains_key(l) ==> #[trigger] index[l] <= at,
    ensures
        steps_from(after, 0, index) == Seq::<(Seq<char>, Staleness)>::empty(),
{
    assert forall|i: int| 0 <= i < after.len() implies up_to_date(#[trigger] after[i], index) by {
        assert(after[i] == after_pass(documents[i], index, at));
        assert(documents[i].modified <= at);
        match documents[i].layout {
            Some(l) => {
                if index.contains_key(l) {
                    assert(index[l] <= at);
                }
            },
            None => {},
        }
    }
    lemma_up_to_date_gives_no_step(after, index, 0);
}

/// How a document stands to its artifact.
pub fn staleness(document: &Document, index: &TemplateTimestampIndex) -> (out: Staleness)
    ensures
        out == document_staleness(*document, index@),
{
    match document.artifact {
        None => Staleness::Unpublished,
        Some(published) => {
            if document.modified > published {
                Staleness::SourceChanged
            } else {
                match &document.layout {
                    Some(layout) => match index.get(layout) {
                        Some(changed) => if changed > published {
                            Staleness::TemplateChanged
                        } else {
                            Staleness::Fresh
                        },
                        None => Staleness::Fresh,
                    },
                    None => Staleness::Fresh,
                }
            }
        },
    }
}

/// The bulk pass: one step for each stale document, in the order of the
/// documents. With `dryrun` the steps are reports only; without, each is to
/// be rendered.
pub fn publish(documents: &Vec<Document>, index: &TemplateTimestampIndex, dryrun: bool) -> (steps:
    Vec<PublishStep>)
    ensures
        steps_view(steps@) == steps_from(documents@, 0, index@),
        forall|k: int| 0 <= k < steps@.len() ==> (#[trigger] steps@[k]).render == !dryrun,
{
    let mut steps: Vec<PublishStep> = Vec::new();
    let mut i: usize = 0;
    proof {
        assert(steps_view(steps@) =~= Seq::<(Seq<char>, Staleness)>::empty());
        assert(Seq::<(Seq<char>, Staleness)>::empty() + steps_from(documents@, 0, index@)
            =~= steps_from(documents@, 0, index@));
    }
    while i < documents.len()
        invariant
            i <= documents.len(),
            steps_view(steps@) + steps_from(documents@, i as int, index@) == steps_from(
                documents@,
                0,
                index@,
            ),
            forall|k: int| 0 <= k < steps@.len() ==> (#[trigger] steps@[k]).render == !dryrun,
        decreases documents.len() - i,
    {
        let ghost before = steps_view(steps@);
        let ghost rest = steps_from(documents@, i + 1, index@);
        let reason = staleness(&documents[i], index);
        if reason != Staleness::Fresh {
            steps.push(PublishStep { path: documents[i].path.clone(), reason, render: !dryrun });
            proof {
                let step = (documents@[i as int].path@, reason);
                assert(steps_view(steps@) =~= before + seq![step]);
                assert((before + seq![step]) + rest =~= before + (seq![step] + rest));
            }
        }
        i += 1;
    }
    proof {
        assert(steps_view(steps@) + Seq::<(Seq<char>, Staleness)>::empty() =~= steps_view(steps@));
    }
    steps
}

} // verus!
