use micro::layout::Layout;

#[test]
fn layout_from_name_ignores_case() {
    assert_eq!(Layout::from("index"), Layout::Index);
    assert_eq!(Layout::from("Article"), Layout::Article);
    assert_eq!(Layout::from("ARTICLE"), Layout::Article);
    assert_eq!(Layout::from("post"), Layout::Undefined);
    assert_eq!(Layout::from(""), Layout::Undefined);
}

#[test]
fn layout_is_written_as_its_variant() {
    assert_eq!(Layout::Article.to_string(), "Article");
    assert_eq!(Layout::Index.to_string(), "Index");
    assert_eq!(Layout::Undefined.to_string(), "Undefined");
}
