use git_review::style::Color;
use git_review::syntax::loader::Loader;
use git_review::syntax::matcher::Matcher;
use git_review::syntax::theme::SyntaxTheme;

#[test]
fn matches_languages_by_extension() {
    let matcher = Matcher::default();
    assert_eq!(matcher.matches("src/main.rs"), Some("rust"));
    assert_eq!(matcher.matches("web/app.ts"), Some("typescript"));
    assert_eq!(matcher.matches("README.md"), None);
    assert_eq!(matcher.matches("Makefile"), None);
    assert_eq!(matcher.matches(".rs"), None);
    assert_eq!(matcher.language_for("rs"), Some("rust"));
}

#[test]
fn syntax_theme_reads_its_settings() {
    let settings = vec![
        (Some("git-review.tree-sitter.keyword".to_owned()), Some("magenta".to_owned())),
        (Some("git-review.tree-sitter.punctuation-bracket".to_owned()), Some("#010203".to_owned())),
        (Some("git-review.tree-sitter.bogus".to_owned()), Some("octarine".to_owned())),
        (None, Some("red".to_owned())),
        (Some("git-review.tree-sitter.string".to_owned()), None),
    ];
    let theme = SyntaxTheme::new(&settings);
    assert_eq!(theme.len(), 2);
    assert_eq!(theme.resolve(0), Color::Magenta);
    assert_eq!(theme.resolve(1), Color::Rgb(1, 2, 3));
    assert_eq!(theme.palette(), &[Color::Magenta, Color::Rgb(1, 2, 3)]);
}

#[test]
fn loader_search_path() {
    let loader = Loader::from_search_path(Some("/a:/b::/c"));
    assert_eq!(loader.paths(), &["/a", "/b", "", "/c"]);
    assert!(Loader::from_search_path(None).paths().is_empty());
    assert_eq!(Loader::library_names("rust"), vec!["rust.so", "rust.dylib", "rust.dll"]);
    assert_eq!(Loader::symbol_name("rust"), "tree_sitter_rust");
}

#[test]
fn extensions_follow_the_last_path_component() {
    let matcher = Matcher::default();
    assert_eq!(matcher.matches("lib.rs/"), Some("rust"));
    assert_eq!(matcher.matches("lib.rs//"), Some("rust"));
    assert_eq!(matcher.matches("lib.rs/."), Some("rust"));
    assert_eq!(matcher.matches("a.b.rs"), Some("rust"));
    assert_eq!(matcher.matches("src.rs/main"), None);
    assert_eq!(matcher.matches("dir.rs/.."), None);
    assert_eq!(matcher.matches("./.rs"), None);
    assert_eq!(matcher.matches("/"), None);
    assert_eq!(matcher.matches(""), None);
}
