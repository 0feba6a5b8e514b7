//! End-to-end scenarios: one URL in, one rendered line out.

use mdlink::config::{Config, ConfigLayer};
use mdlink::github;
use mdlink::github::{OrgEntry, RepoEntry, RepoPrefix};
use mdlink::url::Url;
use mdlink::{render_markdown_url, try_write_markdown_url, MatchOutcome};

fn empty_config() -> Config {
    Config {
        general: ConfigLayer { github: github::Config { orgs: vec![] } },
        profiles: vec![],
    }
}

fn plain_url(scheme: &str, host: &str, segments: &[&str], text: &str) -> Url {
    Url {
        scheme: scheme.to_string(),
        host: Some(host.to_string()),
        path_segments: segments.iter().map(|s| s.to_string()).collect(),
        query_pairs: vec![],
        fragment: None,
        text: text.to_string(),
    }
}

fn render(config: &Config, url: &Url) -> String {
    let layers = config.layers_from_profile(None).unwrap();
    render_markdown_url(layers, url)
}

#[test]
fn github_issue_reference() {
    let config = empty_config();
    let url = plain_url(
        "https",
        "github.com",
        &["rust-lang", "rust", "issues", "123"],
        "https://github.com/rust-lang/rust/issues/123",
    );
    assert_eq!(
        render(&config, &url),
        "[`rust-lang/rust`#123](https://github.com/rust-lang/rust/issues/123)"
    );
}

#[test]
fn github_pull_reference() {
    let config = empty_config();
    let url = plain_url(
        "https",
        "github.com",
        &["rust-lang", "rust", "pull", "999"],
        "https://github.com/rust-lang/rust/pull/999",
    );
    assert_eq!(
        render(&config, &url),
        "[`rust-lang/rust`#999](https://github.com/rust-lang/rust/pull/999)"
    );
}

#[test]
fn github_blob_with_line_range() {
    let config = empty_config();
    let mut url = plain_url(
        "https",
        "github.com",
        &["rust-lang", "rust", "blob", "main", "src", "lib.rs"],
        "https://github.com/rust-lang/rust/blob/main/src/lib.rs#L10-L20",
    );
    url.fragment = Some("L10-L20".to_string());
    assert_eq!(
        render(&config, &url),
        "[`rust-lang/rust`:`main`:`src/lib.rs`:10-20](https://github.com/rust-lang/rust/blob/main/src/lib.rs#L10-L20)"
    );
}

#[test]
fn github_blob_single_line() {
    let config = empty_config();
    let mut url = plain_url(
        "https",
        "github.com",
        &["o", "r", "blob", "abc123", "README.md"],
        "https://github.com/o/r/blob/abc123/README.md#L7",
    );
    url.fragment = Some("L7".to_string());
    assert_eq!(
        render(&config, &url),
        "[`o/r`:`abc123`:`README.md`:7](https://github.com/o/r/blob/abc123/README.md#L7)"
    );
}

#[test]
fn github_bare_repo() {
    let config = empty_config();
    let url = plain_url(
        "https",
        "github.com",
        &["rust-lang", "rust"],
        "https://github.com/rust-lang/rust",
    );
    assert_eq!(
        render(&config, &url),
        "[`rust-lang/rust`](https://github.com/rust-lang/rust)"
    );
}

#[test]
fn github_commit_reference() {
    let config = empty_config();
    let url = plain_url(
        "https",
        "github.com",
        &["o", "r", "commit", "deadbeef"],
        "https://github.com/o/r/commit/deadbeef",
    );
    assert_eq!(
        render(&config, &url),
        "[`o/r`:`deadbeef`](https://github.com/o/r/commit/deadbeef)"
    );
}

#[test]
fn github_commit_with_file() {
    let config = empty_config();
    let url = plain_url(
        "https",
        "github.com",
        &["o", "r", "commit", "deadbeef", "src", "main.rs"],
        "https://github.com/o/r/commit/deadbeef/src/main.rs",
    );
    assert_eq!(
        render(&config, &url),
        "[`o/r`:`deadbeef`:`src/main.rs`](https://github.com/o/r/commit/deadbeef/src/main.rs)"
    );
}

#[test]
fn bugzilla_short_host() {
    let config = empty_config();
    let url = plain_url(
        "https",
        "bugzil.la",
        &["1234567"],
        "https://bugzil.la/1234567",
    );
    assert_eq!(render(&config, &url), "[bug 1234567](https://bugzil.la/1234567)");
}

#[test]
fn bugzilla_query_with_comment() {
    let config = empty_config();
    let mut url = plain_url(
        "https",
        "bugzilla.mozilla.org",
        &["show_bug.cgi"],
        "https://bugzilla.mozilla.org/show_bug.cgi?id=42#c3",
    );
    url.query_pairs = vec![("id".to_string(), "42".to_string())];
    url.fragment = Some("c3".to_string());
    assert_eq!(
        render(&config, &url),
        "[bug 42, comment 3](https://bugzilla.mozilla.org/show_bug.cgi?id=42#c3)"
    );
}

#[test]
fn bugzilla_non_numeric_id() {
    let config = empty_config();
    let url = plain_url("https", "bugzil.la", &["CVE-2024-0001"], "https://bugzil.la/CVE-2024-0001");
    assert_eq!(
        render(&config, &url),
        "[`CVE-2024-0001`](https://bugzil.la/CVE-2024-0001)"
    );
}

#[test]
fn crates_io_crate_version() {
    let config = empty_config();
    let url = plain_url(
        "https",
        "crates.io",
        &["crates", "serde", "1.0.0"],
        "https://crates.io/crates/serde/1.0.0",
    );
    assert_eq!(
        render(&config, &url),
        "[`serde` v1.0.0](https://crates.io/crates/serde/1.0.0)"
    );
}

#[test]
fn github_release_tag_with_version() {
    let config = empty_config();
    let url = plain_url(
        "https",
        "github.com",
        &["foo", "bar", "releases", "tag", "foo-v1.2.3"],
        "https://github.com/foo/bar/releases/tag/foo-v1.2.3",
    );
    assert_eq!(
        render(&config, &url),
        "[`foo` v1.2.3](https://github.com/foo/bar/releases/tag/foo-v1.2.3)"
    );
}

#[test]
fn github_release_tag_without_version() {
    let config = empty_config();
    let url = plain_url(
        "https",
        "github.com",
        &["foo", "bar", "releases", "tag", "nightly-build"],
        "https://github.com/foo/bar/releases/tag/nightly-build",
    );
    assert_eq!(
        render(&config, &url),
        "[`nightly-build` tag release](https://github.com/foo/bar/releases/tag/nightly-build)"
    );
}

#[test]
fn configured_no_prefix_renders_empty_label() {
    let config = Config {
        general: ConfigLayer {
            github: github::Config {
                orgs: vec![(
                    "org".to_string(),
                    OrgEntry {
                        unmatched_repo_prefix: None,
                        repos: vec![(
                            "special-repo".to_string(),
                            RepoEntry { prefix: Some(RepoPrefix::NoPrefix) },
                        )],
                    },
                )],
            },
        },
        profiles: vec![],
    };
    let url = plain_url(
        "https",
        "github.com",
        &["org", "special-repo"],
        "https://github.com/org/special-repo",
    );
    assert_eq!(render(&config, &url), "[](https://github.com/org/special-repo)");
}

#[test]
fn unknown_host_falls_back_to_autolink() {
    let config = empty_config();
    let url = plain_url(
        "https",
        "example.com",
        &["some", "path"],
        "https://example.com/some/path",
    );
    assert_eq!(render(&config, &url), "<https://example.com/some/path>");
}

#[test]
fn non_http_scheme_falls_back() {
    let config = empty_config();
    let url = plain_url("ftp", "github.com", &["o", "r"], "ftp://github.com/o/r");
    assert_eq!(render(&config, &url), "<ftp://github.com/o/r>");
}

#[test]
fn matched_outcome_wraps_original_text() {
    let config = empty_config();
    let url = plain_url(
        "https",
        "bugzil.la",
        &["77"],
        "https://bugzil.la/77",
    );
    let layers = config.layers_from_profile(None).unwrap();
    match try_write_markdown_url(layers, &url) {
        MatchOutcome::Matched(label) => {
            let layers = config.layers_from_profile(None).unwrap();
            let rendered = render_markdown_url(layers, &url);
            assert_eq!(rendered, format!("[{}]({})", label, url.text));
        }
        MatchOutcome::NotMatched => panic!("expected a match"),
    }
}

#[test]
fn classification_is_deterministic() {
    let config = empty_config();
    let mut url = plain_url(
        "https",
        "github.com",
        &["rust-lang", "rust", "issues", "123"],
        "https://github.com/rust-lang/rust/issues/123",
    );
    url.fragment = Some("L1".to_string());
    let first = try_write_markdown_url(config.layers_from_profile(None).unwrap(), &url);
    let second = try_write_markdown_url(config.layers_from_profile(None).unwrap(), &url);
    assert_eq!(first, second);
}
