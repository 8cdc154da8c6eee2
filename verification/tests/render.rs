use micro::clock::Timestamp;
use micro::layout::Layout;
use micro::render::{artifact_path, markdown_to_html, render_at, TemplateSet};
use micro::template::RenderError;

fn templates() -> TemplateSet {
    TemplateSet {
        article: Some(b"<article><h1>{{title}}</h1>{{content}}<time>{{published-on}}</time></article>".to_vec()),
        index: Some(b"<nav>{{content}}</nav>".to_vec()),
        undefined: None,
    }
}

fn source(text: &str) -> Option<Vec<u8>> {
    Some(text.as_bytes().to_vec())
}

const FALLBACK: Timestamp = Timestamp { secs: 0, nanos: 0 };

#[test]
fn markdown_to_html_renders_a_document_into_its_template() {
    let rendered = markdown_to_html(
        "site/posts/a.md",
        None,
        source("---\nlayout: article\ntitle: Hello\npublished-on: 2015-05-15T00:00:00Z\n---\nhello\n=====\n\n* alpha\n* beta\n"),
        &templates(),
        '/',
    )
    .ok()
    .unwrap();
    assert_eq!(rendered.target, "site/posts/a.html");
    assert_eq!(rendered.artifact, "site/posts/a.html");
    assert_eq!(
        rendered.document,
        "<article><h1>Hello</h1><h1>hello</h1>\n<ul>\n<li>alpha</li>\n<li>beta</li>\n</ul>\n<time>2015-05-15 00:00:00 UTC</time></article>"
    );
}

#[test]
fn markdown_to_html_writes_to_the_destination_where_one_is_given() {
    let rendered = markdown_to_html(
        "site/a.md",
        Some("out/page.txt"),
        source("---\nlayout: index\n---\n*x*"),
        &templates(),
        '/',
    )
    .ok()
    .unwrap();
    assert_eq!(rendered.target, "out/page.html");
    assert_eq!(rendered.artifact, "site/a.html");
    assert_eq!(rendered.document, "<nav><p><em>x</em></p>\n</nav>");
}

#[test]
fn markdown_to_html_wants_a_document() {
    assert_eq!(
        markdown_to_html("site/a.txt", None, source("---\nlayout: index\n---\n"), &templates(), '/').err(),
        Some(RenderError::NotADocument)
    );
    assert_eq!(
        markdown_to_html("site/a", None, None, &templates(), '/').err(),
        Some(RenderError::NotADocument)
    );
}

#[test]
fn markdown_to_html_wants_a_readable_source() {
    assert_eq!(
        markdown_to_html("site/a.md", None, None, &templates(), '/').err(),
        Some(RenderError::UnreadableSource)
    );
}

#[test]
fn markdown_to_html_wants_text() {
    assert_eq!(
        markdown_to_html("site/a.md", None, Some(vec![0xc3, 0x28]), &templates(), '/').err(),
        Some(RenderError::InvalidText)
    );
}

#[test]
fn markdown_to_html_wants_metadata_with_a_layout() {
    assert_eq!(
        markdown_to_html("site/a.md", None, source("# no header"), &templates(), '/').err(),
        Some(RenderError::MissingMetadata)
    );
    assert_eq!(
        markdown_to_html("site/a.md", None, source("---\ntitle: x\n---\n# body"), &templates(), '/').err(),
        Some(RenderError::MissingMetadata)
    );
}

#[test]
fn markdown_to_html_wants_the_template_of_the_layout() {
    assert_eq!(
        markdown_to_html("site/a.md", None, source("---\nlayout: gallery\n---\n# body"), &templates(), '/')
            .err(),
        Some(RenderError::TemplateNotFound)
    );
}

#[test]
fn markdown_to_html_reads_a_template_that_is_no_text_as_empty() {
    let broken = TemplateSet { article: Some(vec![0xff]), index: None, undefined: None };
    let rendered =
        markdown_to_html("a.md", None, source("---\nlayout: article\n---\n# body"), &broken, '/')
            .ok()
            .unwrap();
    assert_eq!(rendered.document, "");
}

#[test]
fn render_at_uses_the_fallback_instant() {
    let rendered = render_at(
        "a.md",
        None,
        source("---\nlayout: article\ntitle: T\n---\nbody"),
        &templates(),
        '/',
        FALLBACK,
    )
    .ok()
    .unwrap();
    assert_eq!(
        rendered.document,
        "<article><h1>T</h1><p>body</p>\n<time>1970-01-01 00:00:00 UTC</time></article>"
    );
    assert_eq!(
        render_at("a.md", None, source("nothing"), &templates(), '/', FALLBACK).err(),
        Some(RenderError::MissingMetadata)
    );
}

#[test]
fn template_set_gives_the_template_of_a_layout() {
    let set = templates();
    assert_eq!(set.get(&Layout::Index), &Some(b"<nav>{{content}}</nav>".to_vec()));
    assert_eq!(set.get(&Layout::Undefined), &None);
}

#[test]
fn artifact_path_substitutes_the_extension() {
    assert_eq!(artifact_path("site/posts/a.md", '/'), "site/posts/a.html");
    assert_eq!(artifact_path("a.b.md", '/'), "a.b.html");
    assert_eq!(artifact_path("c:\\site\\a.md", '\\'), "c:\\site\\a.html");
}

#[test]
fn two_documents_have_two_artifacts() {
    assert_ne!(artifact_path("site/a.md", '/'), artifact_path("site/b.md", '/'));
    assert_ne!(artifact_path("site/a.md", '/'), artifact_path("site/posts/a.md", '/'));
}
