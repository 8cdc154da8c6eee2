use micro::layout::Layout;
use micro::publish::{publish, staleness, Document, Staleness};
use micro::template::TemplateTimestampIndex;

fn document(path: &str, modified: u128, artifact: Option<u128>, layout: Option<Layout>) -> Document {
    Document { path: String::from(path), modified, artifact, layout }
}

fn index(article: Option<u128>, index: Option<u128>) -> TemplateTimestampIndex {
    let mut out = TemplateTimestampIndex::new();
    if let Some(at) = article {
        out.insert(Layout::Article, at);
    }
    if let Some(at) = index {
        out.insert(Layout::Index, at);
    }
    out
}

#[test]
fn a_document_without_artifact_is_unpublished() {
    let idx = index(Some(1), None);
    assert_eq!(staleness(&document("a.md", 10, None, Some(Layout::Article)), &idx), Staleness::Unpublished);
    assert_eq!(staleness(&document("a.md", 10, None, None), &idx), Staleness::Unpublished);
}

#[test]
fn a_newer_source_makes_a_document_stale() {
    let idx = index(Some(1), None);
    assert_eq!(
        staleness(&document("a.md", 11, Some(10), Some(Layout::Article)), &idx),
        Staleness::SourceChanged
    );
}

#[test]
fn a_source_as_old_as_the_artifact_is_fresh() {
    let idx = index(Some(1), None);
    assert_eq!(staleness(&document("a.md", 10, Some(10), Some(Layout::Article)), &idx), Staleness::Fresh);
    assert_eq!(staleness(&document("a.md", 9, Some(10), Some(Layout::Article)), &idx), Staleness::Fresh);
}

#[test]
fn a_newer_template_makes_a_document_stale() {
    let idx = index(Some(11), Some(5));
    assert_eq!(
        staleness(&document("a.md", 9, Some(10), Some(Layout::Article)), &idx),
        Staleness::TemplateChanged
    );
    assert_eq!(staleness(&document("b.md", 9, Some(10), Some(Layout::Index)), &idx), Staleness::Fresh);
}

#[test]
fn a_template_as_old_as_the_artifact_changes_nothing() {
    let idx = index(Some(10), None);
    assert_eq!(staleness(&document("a.md", 9, Some(10), Some(Layout::Article)), &idx), Staleness::Fresh);
}

#[test]
fn the_source_counts_before_the_template() {
    let idx = index(Some(30), None);
    assert_eq!(
        staleness(&document("a.md", 20, Some(10), Some(Layout::Article)), &idx),
        Staleness::SourceChanged
    );
}

#[test]
fn a_template_that_the_index_does_not_know_changes_nothing() {
    let idx = index(Some(100), None);
    assert_eq!(staleness(&document("a.md", 9, Some(10), Some(Layout::Index)), &idx), Staleness::Fresh);
    assert_eq!(staleness(&document("a.md", 9, Some(10), None), &idx), Staleness::Fresh);
}

#[test]
fn publish_plans_the_stale_documents_in_order() {
    let idx = index(Some(50), Some(5));
    let documents = vec![
        document("new.md", 10, None, Some(Layout::Article)),
        document("fresh.md", 10, Some(60), Some(Layout::Article)),
        document("edited.md", 70, Some(60), Some(Layout::Index)),
        document("restyled.md", 10, Some(40), Some(Layout::Article)),
        document("plain.md", 10, Some(40), None),
    ];
    let steps = publish(&documents, &idx, false);
    let planned: Vec<(&str, Staleness, bool)> =
        steps.iter().map(|s| (s.path.as_str(), s.reason, s.render)).collect();
    assert_eq!(
        planned,
        vec![
            ("new.md", Staleness::Unpublished, true),
            ("edited.md", Staleness::SourceChanged, true),
            ("restyled.md", Staleness::TemplateChanged, true),
        ]
    );
}

#[test]
fn publish_on_a_dry_run_only_reports() {
    let idx = index(None, None);
    let documents = vec![document("new.md", 10, None, None), document("old.md", 10, Some(10), None)];
    let steps = publish(&documents, &idx, true);
    assert_eq!(steps.len(), 1);
    assert_eq!(steps[0].path, "new.md");
    assert_eq!(steps[0].reason, Staleness::Unpublished);
    assert!(!steps[0].render);
}

#[test]
fn publish_renders_every_document_without_artifact() {
    let idx = index(Some(1), Some(1));
    let documents: Vec<Document> = (0..5)
        .map(|i| document(&format!("{}.md", i), i, None, Some(Layout::Index)))
        .collect();
    let steps = publish(&documents, &idx, false);
    assert_eq!(steps.len(), 5);
    for (i, step) in steps.iter().enumerate() {
        assert_eq!(step.path, format!("{}.md", i));
        assert_eq!(step.reason, Staleness::Unpublished);
        assert!(step.render);
    }
}

#[test]
fn publish_twice_with_nothing_changed_writes_nothing_the_second_time() {
    let idx = index(Some(50), Some(55));
    let documents = vec![
        document("new.md", 10, None, Some(Layout::Article)),
        document("fresh.md", 10, Some(60), Some(Layout::Article)),
        document("edited.md", 70, Some(60), Some(Layout::Index)),
        document("restyled.md", 10, Some(40), Some(Layout::Article)),
    ];
    let first = publish(&documents, &idx, false);
    assert_eq!(first.len(), 3);
    let written_at = 100;
    let after: Vec<Document> = documents
        .iter()
        .map(|d| {
            let rendered = first.iter().any(|s| s.path == d.path);
            document(&d.path, d.modified, if rendered { Some(written_at) } else { d.artifact }, d.layout)
        })
        .collect();
    assert!(publish(&after, &idx, false).is_empty());
}

#[test]
fn publish_of_nothing_is_nothing() {
    assert!(publish(&Vec::new(), &index(None, None), false).is_empty());
}
