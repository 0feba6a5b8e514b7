//! The recognizers for every known host other than the source host: bug
//! trackers, the package registry, documentation sites, the lint catalog,
//! code search, the CI dashboard, the GPU conformance suite, and the
//! version-control viewer.

use vstd::prelude::*;

use crate::extract::spec_symbol_path;
use crate::extract::extract_rust_symbol_path;
use crate::text::{
    all_digits, eq_replace_dash, first_query_value, first_value, join, join_range, replace_dash,
    spec_truncate, str_all_digits, str_eq, truncate_chars,
};
use crate::url::{Url, UrlView};

verus! {

/// The label rendered for a bug: `bug <id>` for an all-digit id, the id in
/// backticks otherwise, and `, comment <n>` appended exactly when the
/// fragment has the form `c<digits>` with at least one digit. Any other
/// fragment contributes nothing.
pub open spec fn spec_bugzilla_label(bug_id: Seq<char>, frag: Option<Seq<char>>) -> Seq<char> {
    let base = if all_digits(bug_id) {
        "bug "@ + bug_id
    } else {
        "`"@ + bug_id + "`"@
    };
    let comment = match frag {
        None => Seq::<char>::empty(),
        Some(f) => if f.len() >= 2 && f[0] == 'c' && all_digits(f.drop_first()) {
            ", comment "@ + f.drop_first()
        } else {
            Seq::<char>::empty()
        },
    };
    base + comment
}

/// Renders a bug label from its id and the URL's fragment.
pub fn render_bugzilla(bug_id: &str, fragment: Option<&str>) -> (r: String)
    ensures
        r@ == spec_bugzilla_label(bug_id@, fragment.deep_view()),
{
    let mut out = String::new();
    if str_all_digits(bug_id) {
        out.append("bug ");
        out.append(bug_id);
    } else {
        out.append("`");
        out.append(bug_id);
        out.append("`");
    }
    match fragment {
        None => {},
        Some(f) => {
            let fn_len = f.unicode_len();
            if fn_len >= 2 && f.get_char(0) == 'c' {
                let comment_id = f.substring_char(1, fn_len);
                proof {
                    assert(comment_id@ =~= f@.drop_first());
                }
                if str_all_digits(comment_id) {
                    out.append(", comment ");
                    out.append(comment_id);
                }
            }
        },
    }
    proof {
        assert(out@ =~= spec_bugzilla_label(bug_id@, fragment.deep_view()));
    }
    out
}

/// The short bug-tracker host: a single path segment is the bug id.
pub open spec fn spec_bugzil_la(url: UrlView) -> Option<Seq<char>> {
    if url.path_segments.len() == 1 {
        Some(spec_bugzilla_label(url.path_segments[0], url.fragment))
    } else {
        None
    }
}

/// Classifies a URL on the short bug-tracker host.
pub fn try_bugzil_la(url: &Url) -> (r: Option<String>)
    ensures
        match r {
            Some(label) => spec_bugzil_la(url@) == Some(label@),
            None => spec_bugzil_la(url@) is None,
        },
{
    if url.path_segments.len() == 1 {
        Some(render_bugzilla(url.path_segments[0].as_str(), fragment_ref(url)))
    } else {
        None
    }
}

/// The long bug-tracker host: a `show_bug.cgi` path with an `id` query
/// parameter.
pub open spec fn spec_bugzilla_mozilla(url: UrlView) -> Option<Seq<char>> {
    if url.path_segments.len() == 1 && url.path_segments[0] == "show_bug.cgi"@ {
        match first_value(url.query_pairs, "id"@) {
            Some(id) => Some(spec_bugzilla_label(id, url.fragment)),
            None => None,
        }
    } else {
        None
    }
}

/// Classifies a URL on the long bug-tracker host.
pub fn try_bugzilla_mozilla(url: &Url) -> (r: Option<String>)
    ensures
        match r {
            Some(label) => spec_bugzilla_mozilla(url@) == Some(label@),
            None => spec_bugzilla_mozilla(url@) is None,
        },
{
    if url.path_segments.len() == 1 && str_eq(url.path_segments[0].as_str(), "show_bug.cgi") {
        match first_query_value(&url.query_pairs, "id") {
            Some(id) => Some(render_bugzilla(id.as_str(), fragment_ref(url))),
            None => None,
        }
    } else {
        None
    }
}

/// The code-review host: a `differential/diff/<id>` form (one trailing
/// empty segment tolerated), or a bare `D`-prefixed all-digit revision id
/// rendered verbatim.
pub open spec fn spec_phabricator(url: UrlView) -> Option<Seq<char>> {
    let segs = url.path_segments;
    if (segs.len() == 3 || (segs.len() == 4 && segs[3] == ""@)) && segs[0] == "differential"@
        && segs[1] == "diff"@ {
        Some("diff "@ + segs[2])
    } else if segs.len() == 1 && segs[0].len() >= 1 && segs[0][0] == 'D' && all_digits(
        segs[0].drop_first(),
    ) {
        Some(segs[0])
    } else {
        None
    }
}

/// Classifies a URL on the code-review host.
pub fn try_phabricator(url: &Url) -> (r: Option<String>)
    ensures
        match r {
            Some(label) => spec_phabricator(url@) == Some(label@),
            None => spec_phabricator(url@) is None,
        },
{
    let segs = &url.path_segments;
    let n = segs.len();
    if (n == 3 || (n == 4 && str_eq(segs[3].as_str(), ""))) && str_eq(
        segs[0].as_str(),
        "differential",
    ) && str_eq(segs[1].as_str(), "diff") {
        let mut out = String::new();
        out.append("diff ");
        out.append(segs[2].as_str());
        proof {
            assert(out@ =~= "diff "@ + url@.path_segments[2]);
        }
        return Some(out);
    }
    if n == 1 {
        let id = segs[0].as_str();
        let id_len = id.unicode_len();
        if id_len >= 1 && id.get_char(0) == 'D' {
            let digits = id.substring_char(1, id_len);
            proof {
                assert(digits@ =~= id@.drop_first());
            }
            if str_all_digits(digits) {
                return Some(String::from_str(id));
            }
        }
    }
    None
}

/// The package-registry host: exactly `crates/<name>/<version>`.
pub open spec fn spec_crates_io(url: UrlView) -> Option<Seq<char>> {
    let segs = url.path_segments;
    if segs.len() == 3 && segs[0] == "crates"@ {
        Some("`"@ + segs[1] + "` v"@ + segs[2])
    } else {
        None
    }
}

/// Classifies a URL on the package-registry host.
pub fn try_crates_io(url: &Url) -> (r: Option<String>)
    ensures
        match r {
            Some(label) => spec_crates_io(url@) == Some(label@),
            None => spec_crates_io(url@) is None,
        },
{
    let segs = &url.path_segments;
    if segs.len() == 3 && str_eq(segs[0].as_str(), "crates") {
        let mut out = String::new();
        out.append("`");
        out.append(segs[1].as_str());
        out.append("` v");
        out.append(segs[2].as_str());
        proof {
            assert(out@ =~= "`"@ + url@.path_segments[1] + "` v"@ + url@.path_segments[2]);
        }
        Some(out)
    } else {
        None
    }
}

/// The crate-documentation host: `<package>/<version>/<module>` where the
/// module repeats the package name with `-` as `_`, then a symbol path.
pub open spec fn spec_docs_rs(url: UrlView) -> Option<Seq<char>> {
    let segs = url.path_segments;
    if segs.len() >= 3 && replace_dash(segs[0]) == segs[2] {
        match spec_symbol_path(segs[2], segs.skip(3), url.fragment) {
            Some(p) => Some("`"@ + p + "`"@),
            None => None,
        }
    } else {
        None
    }
}

/// Classifies a URL on the crate-documentation host.
pub fn try_docs_rs(url: &Url) -> (r: Option<String>)
    ensures
        match r {
            Some(label) => spec_docs_rs(url@) == Some(label@),
            None => spec_docs_rs(url@) is None,
        },
{
    let segs = &url.path_segments;
    if segs.len() >= 3 && eq_replace_dash(segs[0].as_str(), segs[2].as_str()) {
        let module = segs[2].as_str();
        match extract_rust_symbol_path(module, segs, 3, fragment_ref(url)) {
            Some(p) => {
                let mut out = String::new();
                out.append("`");
                out.append(p.as_str());
                out.append("`");
                proof {
                    assert(out@ =~= "`"@ + p@ + "`"@);
                }
                Some(out)
            },
            None => None,
        }
    } else {
        None
    }
}

/// A release channel segment.
pub open spec fn is_channel(s: Seq<char>) -> bool {
    s == "stable"@ || s == "beta"@ || s == "nightly"@
}

/// A standard-library root crate name.
pub open spec fn is_root_crate(s: Seq<char>) -> bool {
    s == "core"@ || s == "alloc"@ || s == "std"@
}

/// Whether the segment is a release channel name.
fn is_channel_exec(s: &str) -> (r: bool)
    ensures
        r == is_channel(s@),
{
    str_eq(s, "stable") || str_eq(s, "beta") || str_eq(s, "nightly")
}

/// Whether the segment is a standard-library root crate name.
fn is_root_crate_exec(s: &str) -> (r: bool)
    ensures
        r == is_root_crate(s@),
{
    str_eq(s, "core") || str_eq(s, "alloc") || str_eq(s, "std")
}

/// The standard-library documentation host: an optional release channel
/// segment, a root crate name, then a symbol path.
pub open spec fn spec_doc_rust_lang(url: UrlView) -> Option<Seq<char>> {
    let segs = url.path_segments;
    if segs.len() >= 2 && is_channel(segs[0]) && is_root_crate(segs[1]) {
        match spec_symbol_path(segs[1], segs.skip(2), url.fragment) {
            Some(p) => Some("`"@ + p + "`"@),
            None => None,
        }
    } else if segs.len() >= 1 && is_root_crate(segs[0]) {
        match spec_symbol_path(segs[0], segs.skip(1), url.fragment) {
            Some(p) => Some("`"@ + p + "`"@),
            None => None,
        }
    } else {
        None
    }
}

/// Classifies a URL on the standard-library documentation host.
pub fn try_doc_rust_lang(url: &Url) -> (r: Option<String>)
    ensures
        match r {
            Some(label) => spec_doc_rust_lang(url@) == Some(label@),
            None => spec_doc_rust_lang(url@) is None,
        },
{
    let segs = &url.path_segments;
    let n = segs.len();
    let found: Option<String> = if n >= 2 && is_channel_exec(segs[0].as_str())
        && is_root_crate_exec(segs[1].as_str()) {
        extract_rust_symbol_path(segs[1].as_str(), segs, 2, fragment_ref(url))
    } else if n >= 1 && is_root_crate_exec(segs[0].as_str()) {
        extract_rust_symbol_path(segs[0].as_str(), segs, 1, fragment_ref(url))
    } else {
        return None;
    };
    match found {
        Some(p) => {
            let mut out = String::new();
            out.append("`");
            out.append(p.as_str());
            out.append("`");
            proof {
                assert(out@ =~= "`"@ + p@ + "`"@);
            }
            Some(out)
        },
        None => None,
    }
}

/// The lint-catalog host: `rust-clippy/<stage>/index.html` with the stage
/// restricted to the release channels. An absent or empty fragment renders
/// the generic catalog label, a fragment starting with `/` a search label,
/// and any other fragment a lint name.
pub open spec fn spec_clippy(url: UrlView) -> Option<Seq<char>> {
    let segs = url.path_segments;
    if segs.len() == 3 && segs[0] == "rust-clippy"@ && segs[2] == "index.html"@ && is_channel(
        segs[1],
    ) {
        let stage = segs[1];
        match url.fragment {
            None => Some("`clippy` lints in `"@ + stage + "`"@),
            Some(f) => if f.len() == 0 {
                Some("`clippy` lints in `"@ + stage + "`"@)
            } else if f[0] == '/' {
                Some("search for `"@ + f.drop_first() + "` in `"@ + stage + "`"@)
            } else {
                Some("`clippy::"@ + f + "` in `"@ + stage + "`"@)
            },
        }
    } else {
        None
    }
}

/// Classifies a URL on the lint-catalog host.
pub fn try_clippy(url: &Url) -> (r: Option<String>)
    ensures
        match r {
            Some(label) => spec_clippy(url@) == Some(label@),
            None => spec_clippy(url@) is None,
        },
{
    let segs = &url.path_segments;
    if !(segs.len() == 3 && str_eq(segs[0].as_str(), "rust-clippy") && str_eq(
        segs[2].as_str(),
        "index.html",
    ) && is_channel_exec(segs[1].as_str())) {
        return None;
    }
    let stage = segs[1].as_str();
    let mut out = String::new();
    match &url.fragment {
        None => {
            out.append("`clippy` lints in `");
            out.append(stage);
            out.append("`");
        },
        Some(f) => {
            let fl = f.unicode_len();
            if fl == 0 {
                out.append("`clippy` lints in `");
                out.append(stage);
                out.append("`");
            } else if f.as_str().get_char(0) == '/' {
                let term = f.as_str().substring_char(1, fl);
                proof {
                    assert(term@ =~= f@.drop_first());
                }
                out.append("search for `");
                out.append(term);
                out.append("` in `");
                out.append(stage);
                out.append("`");
            } else {
                out.append("`clippy::");
                out.append(f.as_str());
                out.append("` in `");
                out.append(stage);
                out.append("`");
            }
        },
    }
    proof {
        assert(spec_clippy(url@) == Some(out@)) by {
            assert(spec_clippy(url@)->Some_0 =~= out@);
        }
    }
    Some(out)
}

/// The code-search host: an accepted repository alias, then `source` or
/// `rev` (the latter consuming one revision segment), the remaining path
/// joined with `/`, and any fragment appended verbatim after a colon.
pub open spec fn spec_searchfox(url: UrlView) -> Option<Seq<char>> {
    let segs = url.path_segments;
    if segs.len() >= 2 && (segs[0] == "mozilla-central"@ || segs[0] == "firefox-main"@) {
        if segs[1] == "source"@ {
            Some(spec_searchfox_label(segs.skip(2), url.fragment))
        } else if segs[1] == "rev"@ {
            let rest = if segs.len() <= 3 {
                Seq::<Seq<char>>::empty()
            } else {
                segs.skip(3)
            };
            Some(spec_searchfox_label(rest, url.fragment))
        } else {
            None
        }
    } else {
        None
    }
}

/// A code-search label: the backticked file path, a colon, and the
/// fragment, if any.
pub open spec fn spec_searchfox_label(rest: Seq<Seq<char>>, frag: Option<Seq<char>>) -> Seq<
    char,
> {
    "`"@ + join(rest, "/"@) + "`:"@ + match frag {
        Some(f) => f,
        None => Seq::<char>::empty(),
    }
}

/// Classifies a URL on the code-search host.
pub fn try_searchfox(url: &Url) -> (r: Option<String>)
    ensures
        match r {
            Some(label) => spec_searchfox(url@) == Some(label@),
            None => spec_searchfox(url@) is None,
        },
{
    let segs = &url.path_segments;
    let n = segs.len();
    if !(n >= 2 && (str_eq(segs[0].as_str(), "mozilla-central") || str_eq(
        segs[0].as_str(),
        "firefox-main",
    ))) {
        return None;
    }
    let from: usize = if str_eq(segs[1].as_str(), "source") {
        2
    } else if str_eq(segs[1].as_str(), "rev") {
        if n <= 3 {
            n
        } else {
            3
        }
    } else {
        return None;
    };
    let file = join_range(segs, from, n, "/");
    let mut out = String::new();
    out.append("`");
    out.append(file.as_str());
    out.append("`:");
    match &url.fragment {
        None => {},
        Some(f) => {
            out.append(f.as_str());
        },
    }
    proof {
        let segsv = url@.path_segments;
        if from == 2 {
            assert(segsv.skip(2) =~= segsv.subrange(2, n as int));
        } else {
            let rest = if segsv.len() <= 3 {
                Seq::<Seq<char>>::empty()
            } else {
                segsv.skip(3)
            };
            assert(rest =~= segsv.subrange(from as int, n as int));
        }
        assert(spec_searchfox(url@) == Some(out@)) by {
            assert(spec_searchfox(url@)->Some_0 =~= out@);
        }
    }
    Some(out)
}

/// The CI-dashboard host: the single segment `jobs`, with both a `repo`
/// and a `revision` query parameter; the revision is shown truncated to
/// its first twelve characters.
pub open spec fn spec_treeherder(url: UrlView) -> Option<Seq<char>> {
    let segs = url.path_segments;
    if segs.len() == 1 && segs[0] == "jobs"@ {
        match (first_value(url.query_pairs, "repo"@), first_value(url.query_pairs, "revision"@)) {
            (Some(repo), Some(rev)) => Some("`"@ + repo + ":"@ + spec_truncate(rev, 12) + "`"@),
            _ => None,
        }
    } else {
        None
    }
}

/// Classifies a URL on the CI-dashboard host.
pub fn try_treeherder(url: &Url) -> (r: Option<String>)
    ensures
        match r {
            Some(label) => spec_treeherder(url@) == Some(label@),
            None => spec_treeherder(url@) is None,
        },
{
    let segs = &url.path_segments;
    if !(segs.len() == 1 && str_eq(segs[0].as_str(), "jobs")) {
        return None;
    }
    let repo = match first_query_value(&url.query_pairs, "repo") {
        Some(v) => v,
        None => {
            return None;
        },
    };
    let revision = match first_query_value(&url.query_pairs, "revision") {
        Some(v) => v,
        None => {
            return None;
        },
    };
    let shown = truncate_chars(revision.as_str(), 12);
    let mut out = String::new();
    out.append("`");
    out.append(repo.as_str());
    out.append(":");
    out.append(shown);
    out.append("`");
    proof {
        assert(spec_treeherder(url@) == Some(out@)) by {
            assert(spec_treeherder(url@)->Some_0 =~= out@);
        }
    }
    Some(out)
}

/// The GPU conformance-suite host: `cts/standalone/` with a trailing empty
/// segment, and a `q` query parameter naming the test path.
pub open spec fn spec_gpuweb(url: UrlView) -> Option<Seq<char>> {
    let segs = url.path_segments;
    if segs.len() == 3 && segs[0] == "cts"@ && segs[1] == "standalone"@ && segs[2] == ""@ {
        match first_value(url.query_pairs, "q"@) {
            Some(t) => Some("`"@ + t + "`"@),
            None => None,
        }
    } else {
        None
    }
}

/// Classifies a URL on the GPU conformance-suite host.
pub fn try_gpuweb(url: &Url) -> (r: Option<String>)
    ensures
        match r {
            Some(label) => spec_gpuweb(url@) == Some(label@),
            None => spec_gpuweb(url@) is None,
        },
{
    let segs = &url.path_segments;
    if !(segs.len() == 3 && str_eq(segs[0].as_str(), "cts") && str_eq(
        segs[1].as_str(),
        "standalone",
    ) && str_eq(segs[2].as_str(), "")) {
        return None;
    }
    match first_query_value(&url.query_pairs, "q") {
        Some(t) => {
            let mut out = String::new();
            out.append("`");
            out.append(t.as_str());
            out.append("`");
            proof {
                assert(spec_gpuweb(url@) == Some(out@)) by {
                    assert(spec_gpuweb(url@)->Some_0 =~= out@);
                }
            }
            Some(out)
        },
        None => None,
    }
}

/// The version-control viewer hosts: exactly `<repo>/rev/<hash>`.
pub open spec fn spec_hg(url: UrlView) -> Option<Seq<char>> {
    let segs = url.path_segments;
    if segs.len() == 3 && segs[1] == "rev"@ {
        Some("`"@ + segs[0] + "`:`"@ + segs[2] + "`"@)
    } else {
        None
    }
}

/// Classifies a URL on a version-control viewer host.
pub fn try_hg(url: &Url) -> (r: Option<String>)
    ensures
        match r {
            Some(label) => spec_hg(url@) == Some(label@),
            None => spec_hg(url@) is None,
        },
{
    let segs = &url.path_segments;
    if segs.len() == 3 && str_eq(segs[1].as_str(), "rev") {
        let mut out = String::new();
        out.append("`");
        out.append(segs[0].as_str());
        out.append("`:`");
        out.append(segs[2].as_str());
        out.append("`");
        proof {
            assert(spec_hg(url@) == Some(out@)) by {
                assert(spec_hg(url@)->Some_0 =~= out@);
            }
        }
        Some(out)
    } else {
        None
    }
}

/// The URL's fragment as a borrowed slice.
pub fn fragment_ref(url: &Url) -> (r: Option<&str>)
    ensures
        r.deep_view() == url@.fragment,
{
    match &url.fragment {
        None => None,
        Some(f) => Some(f.as_str()),
    }
}

} // verus!
