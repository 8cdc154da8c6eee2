use std::path::Path;

use micro::paths::{
    begins_with, extension_of, file_name_of, file_stem_of, has_extension, join, last_index,
    lies_under, replace_extension, strip_root,
};

fn cs(s: &str) -> Vec<char> {
    s.chars().collect()
}

#[test]
fn last_index_gives_the_last_place() {
    assert_eq!(last_index(&cs("a/b/c"), '/'), Some(3));
    assert_eq!(last_index(&cs("abc"), '/'), None);
    assert_eq!(last_index(&cs(""), '/'), None);
    assert_eq!(last_index(&cs("/"), '/'), Some(0));
}

#[test]
fn file_name_is_what_follows_the_last_separator() {
    assert_eq!(file_name_of(&cs("posts/a.md"), '/'), cs("a.md"));
    assert_eq!(file_name_of(&cs("a.md"), '/'), cs("a.md"));
    assert_eq!(file_name_of(&cs("posts/"), '/'), cs(""));
    assert_eq!(file_name_of(&cs("c:\\site\\a.md"), '\\'), cs("a.md"));
}

#[test]
fn extension_follows_the_last_dot_of_the_file_name() {
    assert_eq!(extension_of(&cs("posts/a.md"), '/'), Some(cs("md")));
    assert_eq!(extension_of(&cs("a.tar.gz"), '/'), Some(cs("gz")));
    assert_eq!(extension_of(&cs("posts.d/readme"), '/'), None);
    assert_eq!(extension_of(&cs(".hidden"), '/'), None);
    assert_eq!(extension_of(&cs(".hidden.md"), '/'), Some(cs("md")));
    assert_eq!(extension_of(&cs("a."), '/'), Some(cs("")));
    assert_eq!(extension_of(&cs(".."), '/'), None);
    assert_eq!(extension_of(&cs("posts/.."), '/'), None);
    assert_eq!(extension_of(&cs(""), '/'), None);
}

#[test]
fn has_extension_compares_exactly() {
    assert!(has_extension(&cs("a.md"), '/', &cs("md")));
    assert!(!has_extension(&cs("a.MD"), '/', &cs("md")));
    assert!(!has_extension(&cs("a.mdx"), '/', &cs("md")));
    assert!(!has_extension(&cs("md"), '/', &cs("md")));
}

#[test]
fn file_stem_is_the_name_without_extension() {
    assert_eq!(file_stem_of(&cs("templates/article.html"), '/'), cs("article"));
    assert_eq!(file_stem_of(&cs("a.tar.gz"), '/'), cs("a.tar"));
    assert_eq!(file_stem_of(&cs("readme"), '/'), cs("readme"));
    assert_eq!(file_stem_of(&cs(".hidden"), '/'), cs(".hidden"));
}

#[test]
fn replace_extension_substitutes_or_adds() {
    assert_eq!(replace_extension(&cs("posts/a.md"), '/', &cs("html")), cs("posts/a.html"));
    assert_eq!(replace_extension(&cs("a"), '/', &cs("html")), cs("a.html"));
    assert_eq!(replace_extension(&cs("a.tar.gz"), '/', &cs("html")), cs("a.tar.html"));
    assert_eq!(replace_extension(&cs("x.d/a"), '/', &cs("html")), cs("x.d/a.html"));
    assert_eq!(replace_extension(&cs(".hidden"), '/', &cs("html")), cs(".hidden.html"));
}

#[test]
fn replace_extension_leaves_a_path_without_file_name() {
    assert_eq!(replace_extension(&cs("posts/"), '/', &cs("html")), cs("posts/"));
    assert_eq!(replace_extension(&cs(".."), '/', &cs("html")), cs(".."));
    assert_eq!(replace_extension(&cs(""), '/', &cs("html")), cs(""));
}

#[test]
fn join_parts_root_and_name_by_one_separator() {
    assert_eq!(join(&cs("templates"), &cs("Article"), '/'), cs("templates/Article"));
    assert_eq!(join(&cs("templates/"), &cs("Article"), '/'), cs("templates/Article"));
    assert_eq!(join(&cs(""), &cs("Article"), '/'), cs("Article"));
}

#[test]
fn begins_with_tests_a_prefix() {
    assert!(begins_with(&cs("abc"), &cs("ab")));
    assert!(begins_with(&cs("abc"), &cs("")));
    assert!(begins_with(&cs("abc"), &cs("abc")));
    assert!(!begins_with(&cs("abc"), &cs("abcd")));
    assert!(!begins_with(&cs("abc"), &cs("b")));
}

#[test]
fn lies_under_goes_by_whole_components() {
    assert!(lies_under(&cs("site/templates/a.html"), &cs("site/templates"), '/'));
    assert!(lies_under(&cs("site/templates"), &cs("site/templates"), '/'));
    assert!(lies_under(&cs("site/templates/a.html"), &cs("site/templates/"), '/'));
    assert!(!lies_under(&cs("site/templates2/a.html"), &cs("site/templates"), '/'));
    assert!(!lies_under(&cs("site/a.md"), &cs("site/templates"), '/'));
    assert!(!lies_under(&cs("site"), &cs("site/templates"), '/'));
}

#[test]
fn strip_root_gives_the_path_from_the_root() {
    assert_eq!(strip_root(&cs("site/posts/a.html"), &cs("site"), '/'), Some(cs("posts/a.html")));
    assert_eq!(strip_root(&cs("site/posts/a.html"), &cs("site/"), '/'), Some(cs("posts/a.html")));
    assert_eq!(strip_root(&cs("site//a.html"), &cs("site"), '/'), Some(cs("a.html")));
    assert_eq!(strip_root(&cs("site"), &cs("site"), '/'), Some(cs("")));
    assert_eq!(strip_root(&cs("other/a.html"), &cs("site"), '/'), None);
    assert_eq!(strip_root(&cs("sites/a.html"), &cs("site"), '/'), None);
}

#[test]
fn on_plain_paths_the_rules_agree_with_the_system() {
    let paths = [
        "site/posts/a.md",
        "a.md",
        "a.tar.gz",
        "site.d/readme",
        ".hidden",
        ".hidden.md",
        "site/templates/Article.html",
        "/abs/site/index.html",
        "name.",
    ];
    for p in paths.iter() {
        let path = Path::new(p);
        assert_eq!(
            extension_of(&cs(p), '/'),
            path.extension().map(|e| cs(e.to_str().unwrap()))
        );
        assert_eq!(file_stem_of(&cs(p), '/'), cs(path.file_stem().unwrap().to_str().unwrap()));
        assert_eq!(file_name_of(&cs(p), '/'), cs(path.file_name().unwrap().to_str().unwrap()));
        assert_eq!(
            replace_extension(&cs(p), '/', &cs("html")),
            cs(path.with_extension("html").to_str().unwrap())
        );
    }
    let pairs = [
        ("site/templates/a.html", "site/templates"),
        ("site/templates", "site/templates"),
        ("site/templates2/a.html", "site/templates"),
        ("site/posts/a.html", "site"),
        ("other/a.html", "site"),
        ("/abs/site/a.html", "/abs"),
    ];
    for (p, root) in pairs.iter() {
        assert_eq!(lies_under(&cs(p), &cs(root), '/'), Path::new(p).starts_with(root));
        assert_eq!(
            strip_root(&cs(p), &cs(root), '/'),
            Path::new(p).strip_prefix(root).ok().map(|r| cs(r.to_str().unwrap()))
        );
    }
    assert_eq!(
        join(&cs("site/templates"), &cs("Article"), '/'),
        cs(Path::new("site/templates").join("Article").to_str().unwrap())
    );
}
