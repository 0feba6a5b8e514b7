//! Edge shapes of the source-host recognizer.

use mdlink::config::{Config, ConfigLayer};
use mdlink::github;
use mdlink::url::Url;
use mdlink::render_markdown_url;

fn no_config() -> Config {
    Config {
        general: ConfigLayer { github: github::Config { orgs: vec![] } },
        profiles: vec![],
    }
}

fn github_url(segments: &[&str], text: &str) -> Url {
    Url {
        scheme: "https".to_string(),
        host: Some("github.com".to_string()),
        path_segments: segments.iter().map(|s| s.to_string()).collect(),
        query_pairs: vec![],
        fragment: None,
        text: text.to_string(),
    }
}

fn rendered(url: &Url) -> String {
    let config = no_config();
    let layers = config.layers_from_profile(None).unwrap();
    render_markdown_url(layers, url)
}

#[test]
fn blob_without_fragment_has_no_line_suffix() {
    let url = github_url(
        &["o", "r", "blob", "main", "src", "lib.rs"],
        "https://github.com/o/r/blob/main/src/lib.rs",
    );
    assert_eq!(
        rendered(&url),
        "[`o/r`:`main`:`src/lib.rs`](https://github.com/o/r/blob/main/src/lib.rs)"
    );
}

#[test]
fn blob_with_unrelated_fragment_has_no_line_suffix() {
    let mut url = github_url(
        &["o", "r", "blob", "main", "src", "lib.rs"],
        "https://github.com/o/r/blob/main/src/lib.rs#readme",
    );
    url.fragment = Some("readme".to_string());
    assert_eq!(
        rendered(&url),
        "[`o/r`:`main`:`src/lib.rs`](https://github.com/o/r/blob/main/src/lib.rs#readme)"
    );
}

#[test]
fn blob_without_file_path_renders_empty_backticks() {
    let url = github_url(&["o", "r", "blob", "main"], "https://github.com/o/r/blob/main");
    assert_eq!(
        rendered(&url),
        "[`o/r`:`main`:``](https://github.com/o/r/blob/main)"
    );
}

#[test]
fn repo_with_trailing_slash_declines() {
    let url = github_url(&["o", "r", ""], "https://github.com/o/r/");
    assert_eq!(rendered(&url), "<https://github.com/o/r/>");
}

#[test]
fn bare_org_declines() {
    let url = github_url(&["rust-lang"], "https://github.com/rust-lang");
    assert_eq!(rendered(&url), "<https://github.com/rust-lang>");
}

#[test]
fn issue_reference_ignores_extra_segments() {
    let url = github_url(
        &["o", "r", "issues", "55", "comments"],
        "https://github.com/o/r/issues/55/comments",
    );
    assert_eq!(
        rendered(&url),
        "[`o/r`#55](https://github.com/o/r/issues/55/comments)"
    );
}

#[test]
fn release_tag_tolerates_trailing_empty_segment() {
    let url = github_url(
        &["foo", "bar", "releases", "tag", "foo-v2.0", ""],
        "https://github.com/foo/bar/releases/tag/foo-v2.0/",
    );
    assert_eq!(
        rendered(&url),
        "[`foo` v2.0](https://github.com/foo/bar/releases/tag/foo-v2.0/)"
    );
}

#[test]
fn release_tag_with_extra_segment_declines() {
    let url = github_url(
        &["foo", "bar", "releases", "tag", "v1", "assets"],
        "https://github.com/foo/bar/releases/tag/v1/assets",
    );
    assert_eq!(
        rendered(&url),
        "<https://github.com/foo/bar/releases/tag/v1/assets>"
    );
}

#[test]
fn releases_without_tag_declines() {
    let url = github_url(&["o", "r", "releases"], "https://github.com/o/r/releases");
    assert_eq!(rendered(&url), "<https://github.com/o/r/releases>");
}

#[test]
fn unknown_keyword_declines() {
    let url = github_url(&["o", "r", "wiki", "Home"], "https://github.com/o/r/wiki/Home");
    assert_eq!(rendered(&url), "<https://github.com/o/r/wiki/Home>");
}
