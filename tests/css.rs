use mdsite::css::{eq_ignore_ascii_case, import_urls, import_urls_of, CssToken};
use mdsite::error::Error;

#[test]
fn imports_extracted_in_order() {
    let css = "@import url(\"a.css\");\n@import url(\"/b.css\");\nbody { color: red }";
    let (rest, urls) = import_urls(css).unwrap();
    assert_eq!(urls, vec!["a.css".to_string(), "/b.css".to_string()]);
    assert!(!rest.contains("@import"));
    assert!(rest.contains("body { color: red }"));
}

#[test]
fn import_keyword_case_ignored() {
    let (_, urls) = import_urls("@IMPORT URL(\"x.css\");").unwrap();
    assert_eq!(urls, vec!["x.css".to_string()]);
}

#[test]
fn unquoted_import_stripped_not_reported() {
    let (rest, urls) = import_urls("@import url(plain.css);\np { }").unwrap();
    assert!(urls.is_empty());
    assert!(!rest.contains("@import"));
}

#[test]
fn imports_inside_blocks_ignored() {
    let (_, urls) = import_urls("@media print { @import url(\"x.css\"); }").unwrap();
    assert!(urls.is_empty());
}

#[test]
fn bad_import_block_is_parse_error() {
    let r = import_urls("@import url(\"a.css\" \"b.css\");");
    assert!(matches!(r, Err(Error::CssParse(_))));
}

#[test]
fn tokens_scan_keeps_keyword_after_url() {
    let tokens = vec![
        CssToken::AtKeyword("import".to_string()),
        CssToken::Function("url".to_string(), Ok("a".to_string())),
        CssToken::Function("URL".to_string(), Ok("b".to_string())),
        CssToken::Other,
        CssToken::Function("url".to_string(), Ok("c".to_string())),
    ];
    assert_eq!(import_urls_of(&tokens).unwrap(), vec!["a".to_string(), "b".to_string()]);
}

#[test]
fn tokens_error_reported() {
    let tokens = vec![
        CssToken::AtKeyword("Import".to_string()),
        CssToken::Function("url".to_string(), Err("bad".to_string())),
    ];
    assert_eq!(import_urls_of(&tokens), Err(Error::CssParse("bad".to_string())));
}

#[test]
fn ascii_case() {
    assert!(eq_ignore_ascii_case("ImPoRt", "import"));
    assert!(!eq_ignore_ascii_case("import", "imports"));
    assert!(!eq_ignore_ascii_case("url", "urk"));
}
