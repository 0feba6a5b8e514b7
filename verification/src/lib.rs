//! Classifies a URL against a fixed registry of well-known hosts and renders a
//! compact Markdown label for the resource it points at, falling back to an
//! angle-bracketed autolink for anything it does not recognize.

use vstd::prelude::*;

pub mod config;
pub mod extract;
pub mod github;
pub mod hosts;
pub mod text;
pub mod url;

use crate::config::{wf_layers, ConfigLayer, Layered};
use crate::hosts::{
    spec_bugzil_la, spec_bugzilla_mozilla, spec_clippy, spec_crates_io, spec_doc_rust_lang,
    spec_docs_rs, spec_gpuweb, spec_hg, spec_phabricator, spec_searchfox, spec_treeherder,
    try_bugzil_la, try_bugzilla_mozilla, try_clippy, try_crates_io, try_doc_rust_lang,
    try_docs_rs, try_gpuweb, try_hg, try_phabricator, try_searchfox, try_treeherder,
};
use crate::github::{spec_github, try_github};
use crate::text::str_eq;
use crate::url::{Url, UrlView};

verus! {

/// The result of classifying one URL: a rendered label, or a decline.
#[derive(Clone, Debug, PartialEq, Eq)]
pub enum MatchOutcome {
    Matched(String),
    NotMatched,
}

impl View for MatchOutcome {
    type V = Option<Seq<char>>;

    open spec fn view(&self) -> Option<Seq<char>> {
        match self {
            MatchOutcome::Matched(label) => Some(label@),
            MatchOutcome::NotMatched => None,
        }
    }
}

/// The host strings the recognizer registry dispatches on.
pub open spec fn known_host(h: Seq<char>) -> bool {
    ||| h == "github.com"@
    ||| h == "bugzil.la"@
    ||| h == "bugzilla.mozilla.org"@
    ||| h == "phabricator.services.mozilla.com"@
    ||| h == "crates.io"@
    ||| h == "docs.rs"@
    ||| h == "doc.rust-lang.org"@
    ||| h == "rust-lang.github.io"@
    ||| h == "searchfox.org"@
    ||| h == "treeherder.mozilla.org"@
    ||| h == "gpuweb.github.io"@
    ||| h == "hg.mozilla.org"@
    ||| h == "hg-edge.mozilla.org"@
}

/// The source-host layers denoted by a resolved configuration chain, most
/// specific first.
pub open spec fn spec_layers_github(l: Layered<&ConfigLayer>) -> Seq<github::OrgsView> {
    match l.profile {
        Some(p) => seq![p.github@, l.general.github@],
        None => seq![l.general.github@],
    }
}

/// The label classification produces for a URL under the given source-host
/// configuration layers: the scheme must be `http` or `https`, a host must
/// be present and in the registry, and the host's recognizer must accept
/// the path, query and fragment shape. Everything else is unmatched.
pub open spec fn spec_classify(gh: Seq<github::OrgsView>, url: UrlView) -> Option<Seq<char>> {
    if !(url.scheme == "http"@ || url.scheme == "https"@) {
        None
    } else {
        match url.host {
            None => None,
            Some(h) => if h == "github.com"@ {
                spec_github(gh, url)
            } else if h == "bugzil.la"@ {
                spec_bugzil_la(url)
            } else if h == "bugzilla.mozilla.org"@ {
                spec_bugzilla_mozilla(url)
            } else if h == "phabricator.services.mozilla.com"@ {
                spec_phabricator(url)
            } else if h == "crates.io"@ {
                spec_crates_io(url)
            } else if h == "docs.rs"@ {
                spec_docs_rs(url)
            } else if h == "doc.rust-lang.org"@ {
                spec_doc_rust_lang(url)
            } else if h == "rust-lang.github.io"@ {
                spec_clippy(url)
            } else if h == "searchfox.org"@ {
                spec_searchfox(url)
            } else if h == "treeherder.mozilla.org"@ {
                spec_treeherder(url)
            } else if h == "gpuweb.github.io"@ {
                spec_gpuweb(url)
            } else if h == "hg.mozilla.org"@ || h == "hg-edge.mozilla.org"@ {
                spec_hg(url)
            } else {
                None
            },
        }
    }
}

/// A URL whose host is not in the recognizer registry is never matched,
/// whatever its path, query, fragment or configuration say.
pub proof fn lemma_unknown_host_not_matched(gh: Seq<github::OrgsView>, url: UrlView)
    requires
        match url.host {
            None => true,
            Some(h) => !known_host(h),
        },
    ensures
        spec_classify(gh, url) is None,
{
}

/// Classification is deterministic: any two outcomes obtained for the same
/// URL under the same configuration layers are the same outcome.
pub proof fn lemma_classify_deterministic(
    gh: Seq<github::OrgsView>,
    url: UrlView,
    a: Option<Seq<char>>,
    b: Option<Seq<char>>,
)
    requires
        a == spec_classify(gh, url),
        b == spec_classify(gh, url),
    ensures
        a == b,
{
}

/// Classifies one URL against the recognizer registry, under a resolved
/// configuration chain.
pub fn try_write_markdown_url(layers: Layered<&ConfigLayer>, url: &Url) -> (m: MatchOutcome)
    requires
        wf_layers(layers),
    ensures
        m@ == spec_classify(spec_layers_github(layers), url@),
{
    if !(str_eq(url.scheme.as_str(), "http") || str_eq(url.scheme.as_str(), "https")) {
        return MatchOutcome::NotMatched;
    }
    let host = match &url.host {
        None => {
            return MatchOutcome::NotMatched;
        },
        Some(h) => h.as_str(),
    };
    let r: Option<String> = if str_eq(host, "github.com") {
        let gh = Layered::<&github::Config> {
            general: &layers.general.github,
            profile: match layers.profile {
                Some(l) => Some(&l.github),
                None => None,
            },
        };
        proof {
            assert(github::github_layers(gh) =~= spec_layers_github(layers));
        }
        try_github(gh, url)
    } else if str_eq(host, "bugzil.la") {
        try_bugzil_la(url)
    } else if str_eq(host, "bugzilla.mozilla.org") {
        try_bugzilla_mozilla(url)
    } else if str_eq(host, "phabricator.services.mozilla.com") {
        try_phabricator(url)
    } else if str_eq(host, "crates.io") {
        try_crates_io(url)
    } else if str_eq(host, "docs.rs") {
        try_docs_rs(url)
    } else if str_eq(host, "doc.rust-lang.org") {
        try_doc_rust_lang(url)
    } else if str_eq(host, "rust-lang.github.io") {
        try_clippy(url)
    } else if str_eq(host, "searchfox.org") {
        try_searchfox(url)
    } else if str_eq(host, "treeherder.mozilla.org") {
        try_treeherder(url)
    } else if str_eq(host, "gpuweb.github.io") {
        try_gpuweb(url)
    } else if str_eq(host, "hg.mozilla.org") || str_eq(host, "hg-edge.mozilla.org") {
        try_hg(url)
    } else {
        None
    };
    match r {
        Some(label) => MatchOutcome::Matched(label),
        None => MatchOutcome::NotMatched,
    }
}

/// Renders the output line for one URL: `[label](url)` when a recognizer
/// matched, and the URL in an angle-bracket autolink otherwise. A matched
/// label wraps the URL's serialization reproduced verbatim.
pub fn render_markdown_url(layers: Layered<&ConfigLayer>, url: &Url) -> (out: String)
    requires
        wf_layers(layers),
    ensures
        spec_classify(spec_layers_github(layers), url@) matches Some(label) ==> out@ == "["@
            + label + "]("@ + url@.text + ")"@,
        spec_classify(spec_layers_github(layers), url@) is None ==> out@ == "<"@ + url@.text
            + ">"@,
{
    match try_write_markdown_url(layers, url) {
        MatchOutcome::Matched(label) => {
            let mut out = String::new();
            out.append("[");
            out.append(label.as_str());
            out.append("](");
            out.append(url.text.as_str());
            out.append(")");
            proof {
                assert(out@ =~= "["@ + label@ + "]("@ + url@.text + ")"@);
            }
            out
        },
        MatchOutcome::NotMatched => {
            let mut out = String::new();
            out.append("<");
            out.append(url.text.as_str());
            out.append(">");
            proof {
                assert(out@ =~= "<"@ + url@.text + ">"@);
            }
            out
        },
    }
}

} // verus!
