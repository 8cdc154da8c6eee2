use micro::clock::Timestamp;
use micro::layout::Layout;
use micro::metadata::MarkdownMetaData;
use micro::template::{
    declared_layout, find_usage, last_changed, load_template, merge_template, template_layout,
    template_path, RenderError, SourceFile, TemplateFile, TemplateTimestampIndex,
};

fn metadata() -> MarkdownMetaData {
    MarkdownMetaData {
        layout: Layout::Article,
        title: Some(String::from("Hello")),
        description: Some(String::from("A post")),
        source: None,
        published: Timestamp { secs: 1431648000, nanos: 0 },
    }
}

fn file(path: &str, content: Option<&str>) -> SourceFile {
    SourceFile { path: String::from(path), content: content.map(|c| c.as_bytes().to_vec()) }
}

fn template(name: &str, modified: u128) -> TemplateFile {
    TemplateFile { name: String::from(name), modified }
}

#[test]
fn merge_template_fills_every_placeholder() {
    let page = merge_template(
        "<title>{{title}}</title><meta content=\"{{description}}\"><time>{{published-on}}</time><main>{{content}}</main><a href=\"{{source}}\">",
        &metadata(),
        "<p>body</p>",
    );
    assert_eq!(
        page,
        "<title>Hello</title><meta content=\"A post\"><time>2015-05-15 00:00:00 UTC</time><main><p>body</p></main><a href=\"\">"
    );
}

#[test]
fn merge_template_fills_each_occurrence() {
    let page = merge_template("{{title}} - {{title}}", &metadata(), "");
    assert_eq!(page, "Hello - Hello");
}

#[test]
fn merge_template_fills_placeholders_that_the_content_brings() {
    let page = merge_template("{{content}}", &metadata(), "about {{title}}");
    assert_eq!(page, "about Hello");
}

#[test]
fn merge_template_writes_missing_fields_as_nothing() {
    let bare = MarkdownMetaData {
        layout: Layout::Index,
        title: None,
        description: None,
        source: Some(String::from("a.md")),
        published: Timestamp { secs: 0, nanos: 0 },
    };
    let page = merge_template("[{{title}}][{{description}}][{{source}}][{{published-on}}]", &bare, "");
    assert_eq!(page, "[][][a.md][1970-01-01 00:00:00 UTC]");
}

#[test]
fn merge_template_writes_an_instant_out_of_range_as_nothing() {
    let far = MarkdownMetaData {
        layout: Layout::Index,
        title: None,
        description: None,
        source: None,
        published: Timestamp { secs: i64::MAX, nanos: 0 },
    };
    assert_eq!(merge_template("[{{published-on}}]", &far, ""), "[]");
}

#[test]
fn merge_template_leaves_a_template_without_placeholders() {
    assert_eq!(merge_template("<html></html>", &metadata(), "<p>x</p>"), "<html></html>");
}

#[test]
fn template_path_joins_root_name_and_extension() {
    assert_eq!(template_path("Article", "site/templates", '/'), "site/templates/Article.html");
    assert_eq!(template_path("Index", "site/templates/", '/'), "site/templates/Index.html");
    assert_eq!(template_path("Article", "c:\\t", '\\'), "c:\\t\\Article.html");
    assert_eq!(template_path("Article", "", '/'), "Article.html");
}

#[test]
fn load_template_adds_the_bytes_to_the_buffer() {
    let mut buffer = vec![1u8, 2];
    assert_eq!(load_template(Some(vec![3, 4, 5]), &mut buffer), Ok(3));
    assert_eq!(buffer, vec![1, 2, 3, 4, 5]);
    assert_eq!(load_template(Some(vec![]), &mut buffer), Ok(0));
    assert_eq!(buffer, vec![1, 2, 3, 4, 5]);
}

#[test]
fn load_template_fails_where_the_file_was_not_read() {
    let mut buffer = vec![9u8];
    assert_eq!(load_template(None, &mut buffer), Err(RenderError::TemplateNotFound));
    assert_eq!(buffer, vec![9]);
}

#[test]
fn declared_layout_reads_the_file() {
    assert_eq!(
        declared_layout(&file("a.md", Some("---\nlayout: article\n---\n"))),
        Some(Layout::Article)
    );
    assert_eq!(declared_layout(&file("a.md", Some("---\ntitle: x\n---\n"))), None);
    assert_eq!(declared_layout(&file("a.md", None)), None);
    let binary = SourceFile { path: String::from("a.png"), content: Some(vec![0xff, 0xfe]) };
    assert_eq!(declared_layout(&binary), None);
}

#[test]
fn find_usage_reports_the_documents_of_the_layout() {
    let files = vec![
        file("a.md", Some("---\nlayout: article\n---\nA")),
        file("b.md", Some("---\nlayout: index\n---\nB")),
        file("c.md", Some("---\nlayout: Article\n---\nC")),
        file("d.md", Some("no header")),
        file("e.md", None),
    ];
    let mut matches = vec![String::from("earlier")];
    find_usage(&files, &Layout::Article, &mut matches);
    assert_eq!(matches, vec!["earlier", "a.md", "c.md"]);
    let mut matches = Vec::new();
    find_usage(&files, &Layout::Index, &mut matches);
    assert_eq!(matches, vec!["b.md"]);
    let mut matches = Vec::new();
    find_usage(&files, &Layout::Undefined, &mut matches);
    assert!(matches.is_empty());
}

#[test]
fn find_usage_leaves_out_a_document_without_layout_for_every_layout() {
    let files = vec![file("a.md", Some("---\ntitle: No layout\n---\nA"))];
    for layout in [Layout::Article, Layout::Index, Layout::Undefined] {
        let mut matches = Vec::new();
        find_usage(&files, &layout, &mut matches);
        assert!(matches.is_empty());
    }
}

#[test]
fn template_layout_goes_by_the_file_stem() {
    assert_eq!(template_layout("templates/article.html", '/'), Layout::Article);
    assert_eq!(template_layout("templates/Index.html", '/'), Layout::Index);
    assert_eq!(template_layout("templates/footer.html", '/'), Layout::Undefined);
    assert_eq!(template_layout("article", '/'), Layout::Article);
}

#[test]
fn index_starts_empty_and_takes_entries() {
    let mut index = TemplateTimestampIndex::new();
    assert_eq!(index.get(&Layout::Article), None);
    index.insert(Layout::Article, 10);
    index.insert(Layout::Index, 20);
    index.insert(Layout::Article, 5);
    assert_eq!(index.get(&Layout::Article), Some(5));
    assert_eq!(index.get(&Layout::Index), Some(20));
    assert_eq!(index.get(&Layout::Undefined), None);
}

#[test]
fn last_changed_reads_the_directory() {
    let index = last_changed(
        &vec![template("article.html", 100), template("index.html", 200), template("notes.txt", 300)],
        '/',
    );
    assert_eq!(index.get(&Layout::Article), Some(100));
    assert_eq!(index.get(&Layout::Index), Some(200));
    assert_eq!(index.get(&Layout::Undefined), Some(300));
}

#[test]
fn last_changed_lets_the_later_entry_count() {
    let index = last_changed(&vec![template("article.html", 100), template("Article.htm", 50)], '/');
    assert_eq!(index.get(&Layout::Article), Some(50));
    assert_eq!(index.get(&Layout::Index), None);
    let index = last_changed(&Vec::new(), '/');
    assert_eq!(index.get(&Layout::Article), None);
}
