//! Tests for the path resolver: directory extraction, joining, and the
//! treatment of root-relative references.

use cssinliner::resolve::{css_paths, join_path, parent_dir, resolve};

#[test]
fn root_relative_and_relative_agree() {
    assert_eq!(resolve("/site", "/css/a.css"), "/site/css/a.css");
    assert_eq!(resolve("/site", "css/a.css"), "/site/css/a.css");
}

#[test]
fn resolve_with_empty_directory() {
    assert_eq!(resolve("", "a.css"), "a.css");
    assert_eq!(resolve("", "/a.css"), "a.css");
}

#[test]
fn resolve_with_trailing_separator() {
    assert_eq!(resolve("/site/", "a.css"), "/site/a.css");
}

#[test]
fn join_path_cases() {
    assert_eq!(join_path("out", "index.html"), "out/index.html");
    assert_eq!(join_path("out/", "index.html"), "out/index.html");
    assert_eq!(join_path("", "index.html"), "index.html");
}

#[test]
fn parent_dir_cases() {
    assert_eq!(parent_dir("/site/index.html"), "/site");
    assert_eq!(parent_dir("site/index.html"), "site");
    assert_eq!(parent_dir("index.html"), "");
    assert_eq!(parent_dir("/index.html"), "/");
}

#[test]
fn css_paths_resolve_against_document_directory() {
    let hrefs = vec!["css/a.css".to_string(), "/b.css".to_string()];
    let paths = css_paths("/site/index.html", &hrefs);
    assert_eq!(paths, vec!["/site/css/a.css".to_string(), "/site/b.css".to_string()]);
}

#[test]
fn remote_url_resolves_to_local_path() {
    // a scheme-qualified reference is not special-cased: it resolves to a
    // (nonexistent) local path and is later skipped by the caller
    assert_eq!(
        resolve("/site", "https://cdn.example/a.css"),
        "/site/https://cdn.example/a.css"
    );
}
