//! The recognizers for hosts other than the source host, end to end.

use mdlink::config::{Config, ConfigLayer};
use mdlink::github;
use mdlink::url::Url;
use mdlink::render_markdown_url;

fn bare_config() -> Config {
    Config {
        general: ConfigLayer { github: github::Config { orgs: vec![] } },
        profiles: vec![],
    }
}

fn make_url(host: &str, segments: &[&str], text: &str) -> Url {
    Url {
        scheme: "https".to_string(),
        host: Some(host.to_string()),
        path_segments: segments.iter().map(|s| s.to_string()).collect(),
        query_pairs: vec![],
        fragment: None,
        text: text.to_string(),
    }
}

fn render_url(url: &Url) -> String {
    let config = bare_config();
    let layers = config.layers_from_profile(None).unwrap();
    render_markdown_url(layers, url)
}

#[test]
fn phabricator_differential_diff() {
    let url = make_url(
        "phabricator.services.mozilla.com",
        &["differential", "diff", "12345"],
        "https://phabricator.services.mozilla.com/differential/diff/12345",
    );
    assert_eq!(
        render_url(&url),
        "[diff 12345](https://phabricator.services.mozilla.com/differential/diff/12345)"
    );
}

#[test]
fn phabricator_diff_tolerates_trailing_slash() {
    let url = make_url(
        "phabricator.services.mozilla.com",
        &["differential", "diff", "12345", ""],
        "https://phabricator.services.mozilla.com/differential/diff/12345/",
    );
    assert_eq!(
        render_url(&url),
        "[diff 12345](https://phabricator.services.mozilla.com/differential/diff/12345/)"
    );
}

#[test]
fn phabricator_revision_id_verbatim() {
    let url = make_url(
        "phabricator.services.mozilla.com",
        &["D12345"],
        "https://phabricator.services.mozilla.com/D12345",
    );
    assert_eq!(
        render_url(&url),
        "[D12345](https://phabricator.services.mozilla.com/D12345)"
    );
}

#[test]
fn phabricator_declines_other_ids() {
    let url = make_url(
        "phabricator.services.mozilla.com",
        &["T12345"],
        "https://phabricator.services.mozilla.com/T12345",
    );
    assert_eq!(
        render_url(&url),
        "<https://phabricator.services.mozilla.com/T12345>"
    );
}

#[test]
fn phabricator_declines_mixed_revision_id() {
    let url = make_url(
        "phabricator.services.mozilla.com",
        &["D12x45"],
        "https://phabricator.services.mozilla.com/D12x45",
    );
    assert_eq!(
        render_url(&url),
        "<https://phabricator.services.mozilla.com/D12x45>"
    );
}

#[test]
fn phabricator_bare_marker_still_matches() {
    let url = make_url(
        "phabricator.services.mozilla.com",
        &["D"],
        "https://phabricator.services.mozilla.com/D",
    );
    assert_eq!(
        render_url(&url),
        "[D](https://phabricator.services.mozilla.com/D)"
    );
}

#[test]
fn docs_rs_trait_page() {
    let url = make_url(
        "docs.rs",
        &["serde", "1.0.0", "serde", "trait.Serialize.html"],
        "https://docs.rs/serde/1.0.0/serde/trait.Serialize.html",
    );
    assert_eq!(
        render_url(&url),
        "[`serde::Serialize`](https://docs.rs/serde/1.0.0/serde/trait.Serialize.html)"
    );
}

#[test]
fn docs_rs_dashed_package_name() {
    let url = make_url(
        "docs.rs",
        &["lazy-format", "1.0.0", "lazy_format", "index.html"],
        "https://docs.rs/lazy-format/1.0.0/lazy_format/index.html",
    );
    assert_eq!(
        render_url(&url),
        "[`lazy_format`](https://docs.rs/lazy-format/1.0.0/lazy_format/index.html)"
    );
}

#[test]
fn docs_rs_module_mismatch_declines() {
    let url = make_url(
        "docs.rs",
        &["serde", "1.0.0", "other", "index.html"],
        "https://docs.rs/serde/1.0.0/other/index.html",
    );
    assert_eq!(
        render_url(&url),
        "<https://docs.rs/serde/1.0.0/other/index.html>"
    );
}

#[test]
fn docs_rs_method_fragment() {
    let mut url = make_url(
        "docs.rs",
        &["serde", "1.0.0", "serde", "trait.Serializer.html"],
        "https://docs.rs/serde/1.0.0/serde/trait.Serializer.html#tymethod.serialize_bool",
    );
    url.fragment = Some("tymethod.serialize_bool".to_string());
    assert_eq!(
        render_url(&url),
        "[`serde::Serializer::serialize_bool`](https://docs.rs/serde/1.0.0/serde/trait.Serializer.html#tymethod.serialize_bool)"
    );
}

#[test]
fn std_docs_with_channel() {
    let url = make_url(
        "doc.rust-lang.org",
        &["stable", "std", "vec", "struct.Vec.html"],
        "https://doc.rust-lang.org/stable/std/vec/struct.Vec.html",
    );
    assert_eq!(
        render_url(&url),
        "[`std::vec::Vec`](https://doc.rust-lang.org/stable/std/vec/struct.Vec.html)"
    );
}

#[test]
fn std_docs_without_channel() {
    let url = make_url(
        "doc.rust-lang.org",
        &["std", "vec", "struct.Vec.html"],
        "https://doc.rust-lang.org/std/vec/struct.Vec.html",
    );
    assert_eq!(
        render_url(&url),
        "[`std::vec::Vec`](https://doc.rust-lang.org/std/vec/struct.Vec.html)"
    );
}

#[test]
fn std_docs_primitive_omits_crate() {
    let url = make_url(
        "doc.rust-lang.org",
        &["std", "primitive.str.html"],
        "https://doc.rust-lang.org/std/primitive.str.html",
    );
    assert_eq!(
        render_url(&url),
        "[`str`](https://doc.rust-lang.org/std/primitive.str.html)"
    );
}

#[test]
fn std_docs_unknown_root_declines() {
    let url = make_url(
        "doc.rust-lang.org",
        &["book", "ch01-00-getting-started.html"],
        "https://doc.rust-lang.org/book/ch01-00-getting-started.html",
    );
    assert_eq!(
        render_url(&url),
        "<https://doc.rust-lang.org/book/ch01-00-getting-started.html>"
    );
}

#[test]
fn clippy_lint_catalog_generic() {
    let url = make_url(
        "rust-lang.github.io",
        &["rust-clippy", "stable", "index.html"],
        "https://rust-lang.github.io/rust-clippy/stable/index.html",
    );
    assert_eq!(
        render_url(&url),
        "[`clippy` lints in `stable`](https://rust-lang.github.io/rust-clippy/stable/index.html)"
    );
}

#[test]
fn clippy_lint_catalog_empty_fragment_is_generic() {
    let mut url = make_url(
        "rust-lang.github.io",
        &["rust-clippy", "stable", "index.html"],
        "https://rust-lang.github.io/rust-clippy/stable/index.html#",
    );
    url.fragment = Some("".to_string());
    assert_eq!(
        render_url(&url),
        "[`clippy` lints in `stable`](https://rust-lang.github.io/rust-clippy/stable/index.html#)"
    );
}

#[test]
fn clippy_lint_name() {
    let mut url = make_url(
        "rust-lang.github.io",
        &["rust-clippy", "nightly", "index.html"],
        "https://rust-lang.github.io/rust-clippy/nightly/index.html#needless_bool",
    );
    url.fragment = Some("needless_bool".to_string());
    assert_eq!(
        render_url(&url),
        "[`clippy::needless_bool` in `nightly`](https://rust-lang.github.io/rust-clippy/nightly/index.html#needless_bool)"
    );
}

#[test]
fn clippy_search_fragment() {
    let mut url = make_url(
        "rust-lang.github.io",
        &["rust-clippy", "beta", "index.html"],
        "https://rust-lang.github.io/rust-clippy/beta/index.html#/let_underscore",
    );
    url.fragment = Some("/let_underscore".to_string());
    assert_eq!(
        render_url(&url),
        "[search for `let_underscore` in `beta`](https://rust-lang.github.io/rust-clippy/beta/index.html#/let_underscore)"
    );
}

#[test]
fn clippy_unknown_stage_declines() {
    let url = make_url(
        "rust-lang.github.io",
        &["rust-clippy", "dev", "index.html"],
        "https://rust-lang.github.io/rust-clippy/dev/index.html",
    );
    assert_eq!(
        render_url(&url),
        "<https://rust-lang.github.io/rust-clippy/dev/index.html>"
    );
}

#[test]
fn searchfox_source_path_with_fragment() {
    let mut url = make_url(
        "searchfox.org",
        &["mozilla-central", "source", "dom", "base", "Document.cpp"],
        "https://searchfox.org/mozilla-central/source/dom/base/Document.cpp#123",
    );
    url.fragment = Some("123".to_string());
    assert_eq!(
        render_url(&url),
        "[`dom/base/Document.cpp`:123](https://searchfox.org/mozilla-central/source/dom/base/Document.cpp#123)"
    );
}

#[test]
fn searchfox_rev_consumes_revision() {
    let url = make_url(
        "searchfox.org",
        &["firefox-main", "rev", "abcdef", "widget", "nsWidget.cpp"],
        "https://searchfox.org/firefox-main/rev/abcdef/widget/nsWidget.cpp",
    );
    assert_eq!(
        render_url(&url),
        "[`widget/nsWidget.cpp`:](https://searchfox.org/firefox-main/rev/abcdef/widget/nsWidget.cpp)"
    );
}

#[test]
fn searchfox_unknown_repo_declines() {
    let url = make_url(
        "searchfox.org",
        &["comm-central", "source", "mail.cpp"],
        "https://searchfox.org/comm-central/source/mail.cpp",
    );
    assert_eq!(
        render_url(&url),
        "<https://searchfox.org/comm-central/source/mail.cpp>"
    );
}

#[test]
fn treeherder_jobs_truncates_revision() {
    let mut url = make_url(
        "treeherder.mozilla.org",
        &["jobs"],
        "https://treeherder.mozilla.org/jobs?repo=autoland&revision=0123456789abcdef",
    );
    url.query_pairs = vec![
        ("repo".to_string(), "autoland".to_string()),
        ("revision".to_string(), "0123456789abcdef".to_string()),
    ];
    assert_eq!(
        render_url(&url),
        "[`autoland:0123456789ab`](https://treeherder.mozilla.org/jobs?repo=autoland&revision=0123456789abcdef)"
    );
}

#[test]
fn treeherder_short_revision_kept_whole() {
    let mut url = make_url(
        "treeherder.mozilla.org",
        &["jobs"],
        "https://treeherder.mozilla.org/jobs?repo=try&revision=abc",
    );
    url.query_pairs = vec![
        ("repo".to_string(), "try".to_string()),
        ("revision".to_string(), "abc".to_string()),
    ];
    assert_eq!(
        render_url(&url),
        "[`try:abc`](https://treeherder.mozilla.org/jobs?repo=try&revision=abc)"
    );
}

#[test]
fn treeherder_first_duplicate_parameter_wins() {
    let mut url = make_url(
        "treeherder.mozilla.org",
        &["jobs"],
        "https://treeherder.mozilla.org/jobs?repo=first&repo=second&revision=abc",
    );
    url.query_pairs = vec![
        ("repo".to_string(), "first".to_string()),
        ("repo".to_string(), "second".to_string()),
        ("revision".to_string(), "abc".to_string()),
    ];
    assert_eq!(
        render_url(&url),
        "[`first:abc`](https://treeherder.mozilla.org/jobs?repo=first&repo=second&revision=abc)"
    );
}

#[test]
fn treeherder_missing_revision_declines() {
    let mut url = make_url(
        "treeherder.mozilla.org",
        &["jobs"],
        "https://treeherder.mozilla.org/jobs?repo=autoland",
    );
    url.query_pairs = vec![("repo".to_string(), "autoland".to_string())];
    assert_eq!(
        render_url(&url),
        "<https://treeherder.mozilla.org/jobs?repo=autoland>"
    );
}

#[test]
fn gpuweb_cts_query() {
    let mut url = make_url(
        "gpuweb.github.io",
        &["cts", "standalone", ""],
        "https://gpuweb.github.io/cts/standalone/?q=webgpu:api,validation:*",
    );
    url.query_pairs = vec![("q".to_string(), "webgpu:api,validation:*".to_string())];
    assert_eq!(
        render_url(&url),
        "[`webgpu:api,validation:*`](https://gpuweb.github.io/cts/standalone/?q=webgpu:api,validation:*)"
    );
}

#[test]
fn gpuweb_requires_trailing_slash() {
    let mut url = make_url(
        "gpuweb.github.io",
        &["cts", "standalone"],
        "https://gpuweb.github.io/cts/standalone?q=webgpu:api",
    );
    url.query_pairs = vec![("q".to_string(), "webgpu:api".to_string())];
    assert_eq!(
        render_url(&url),
        "<https://gpuweb.github.io/cts/standalone?q=webgpu:api>"
    );
}

#[test]
fn hg_revision_reference() {
    let url = make_url(
        "hg.mozilla.org",
        &["mozilla-central", "rev", "f956d7e03a82"],
        "https://hg.mozilla.org/mozilla-central/rev/f956d7e03a82",
    );
    assert_eq!(
        render_url(&url),
        "[`mozilla-central`:`f956d7e03a82`](https://hg.mozilla.org/mozilla-central/rev/f956d7e03a82)"
    );
}

#[test]
fn hg_edge_alias_maps_to_same_recognizer() {
    let url = make_url(
        "hg-edge.mozilla.org",
        &["mozilla-central", "rev", "f956d7e03a82"],
        "https://hg-edge.mozilla.org/mozilla-central/rev/f956d7e03a82",
    );
    assert_eq!(
        render_url(&url),
        "[`mozilla-central`:`f956d7e03a82`](https://hg-edge.mozilla.org/mozilla-central/rev/f956d7e03a82)"
    );
}

#[test]
fn bugzilla_empty_fragment_has_no_comment() {
    let mut url = make_url("bugzil.la", &["999"], "https://bugzil.la/999#other");
    url.fragment = Some("other".to_string());
    assert_eq!(render_url(&url), "[bug 999](https://bugzil.la/999#other)");
}

#[test]
fn bugzilla_comment_needs_digits() {
    let mut url = make_url("bugzil.la", &["1"], "https://bugzil.la/1#cx");
    url.fragment = Some("cx".to_string());
    assert_eq!(render_url(&url), "[bug 1](https://bugzil.la/1#cx)");
}

#[test]
fn bugzilla_bare_comment_marker_ignored() {
    let mut url = make_url("bugzil.la", &["1"], "https://bugzil.la/1#c");
    url.fragment = Some("c".to_string());
    assert_eq!(render_url(&url), "[bug 1](https://bugzil.la/1#c)");
}

#[test]
fn bugzilla_comment_with_trailing_text_ignored() {
    let mut url = make_url("bugzil.la", &["1"], "https://bugzil.la/1#c3x");
    url.fragment = Some("c3x".to_string());
    assert_eq!(render_url(&url), "[bug 1](https://bugzil.la/1#c3x)");
}

#[test]
fn bugzilla_missing_id_parameter_declines() {
    let url = make_url(
        "bugzilla.mozilla.org",
        &["show_bug.cgi"],
        "https://bugzilla.mozilla.org/show_bug.cgi",
    );
    assert_eq!(
        render_url(&url),
        "<https://bugzilla.mozilla.org/show_bug.cgi>"
    );
}
