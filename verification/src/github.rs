//! Source-host configuration: which prefix a repository reference is
//! rendered with, resolved per repository, per organization, or by the
//! global default, across the configuration layers.

use vstd::prelude::*;

use crate::config::Layered;
use crate::extract::{
    parse_line_number_spec, spec_component_version, spec_line_number_spec, split_component_version,
    LineNumberSpec, LineNumberSpecView,
};
use crate::text::{assoc_find, join, join_range, str_eq, unique_keys};
use crate::url::{Url, UrlView};

verus! {

/// How a repository reference is prefixed in a rendered label.
#[derive(Clone, Copy, Debug, PartialEq, Eq, Structural)]
pub enum RepoPrefix {
    /// Show `org/repo`.
    OrgAndRepo,
    /// Show only `repo`.
    RepoOnly,
    /// Show no prefix text at all.
    NoPrefix,
}

/// Per-repository rendering choices.
#[derive(Clone, Copy, Debug, PartialEq, Eq, Structural)]
pub struct RepoEntry {
    /// The prefix this repository's references are rendered with.
    pub prefix: Option<RepoPrefix>,
}

/// Per-organization rendering choices.
pub struct OrgEntry {
    /// The prefix used for this organization's repositories that have no
    /// entry of their own.
    pub unmatched_repo_prefix: Option<RepoPrefix>,
    /// Choices for single repositories, keyed by repository name.
    pub repos: Vec<(String, RepoEntry)>,
}

/// The source-host part of one configuration layer.
pub struct Config {
    /// Choices per organization, keyed by organization name.
    pub orgs: Vec<(String, OrgEntry)>,
}

/// The mathematical value of an [`OrgEntry`].
pub struct OrgEntryView {
    pub unmatched_repo_prefix: Option<RepoPrefix>,
    pub repos: Seq<(Seq<char>, RepoEntry)>,
}

/// The mathematical value of a [`Config`]: its organization table.
pub type OrgsView = Seq<(Seq<char>, OrgEntryView)>;

impl View for OrgEntry {
    type V = OrgEntryView;

    open spec fn view(&self) -> OrgEntryView {
        OrgEntryView {
            unmatched_repo_prefix: self.unmatched_repo_prefix,
            repos: self.repos@.map_values(|p: (String, RepoEntry)| (p.0@, p.1)),
        }
    }
}

impl View for Config {
    type V = OrgsView;

    open spec fn view(&self) -> OrgsView {
        self.orgs@.map_values(|p: (String, OrgEntry)| (p.0@, p.1@))
    }
}

/// The entry of the first pair of `repos` whose key is `name`. With
/// distinct keys this is map lookup ([`crate::text::lemma_assoc_find_unique`]).
pub open spec fn spec_find_repo(repos: Seq<(Seq<char>, RepoEntry)>, name: Seq<char>) -> Option<
    RepoEntry,
> {
    assoc_find(repos, name)
}

/// The entry of the first pair of `orgs` whose key is `name`. With
/// distinct keys this is map lookup ([`crate::text::lemma_assoc_find_unique`]).
pub open spec fn spec_find_org(orgs: OrgsView, name: Seq<char>) -> Option<OrgEntryView> {
    assoc_find(orgs, name)
}

/// The organization table keys each entry by a distinct name, and so does
/// every repository table inside it: lookup order is then irrelevant.
pub open spec fn wf_orgs(orgs: OrgsView) -> bool {
    unique_keys(orgs) && forall|i: int|
        0 <= i < orgs.len() ==> unique_keys((#[trigger] orgs[i]).1.repos)
}

/// The repository-specific prefix one layer supplies, if any.
pub open spec fn spec_layer_repo_prefix(
    orgs: OrgsView,
    org: Seq<char>,
    repo: Seq<char>,
) -> Option<RepoPrefix> {
    match spec_find_org(orgs, org) {
        Some(oe) => match spec_find_repo(oe.repos, repo) {
            Some(re) => re.prefix,
            None => None,
        },
        None => None,
    }
}

/// The organization-level fallback prefix one layer supplies, if any.
pub open spec fn spec_layer_org_default(orgs: OrgsView, org: Seq<char>) -> Option<RepoPrefix> {
    match spec_find_org(orgs, org) {
        Some(oe) => oe.unmatched_repo_prefix,
        None => None,
    }
}

/// The repository-specific prefix of the most specific layer that supplies
/// one.
pub open spec fn spec_repo_override(
    layers: Seq<OrgsView>,
    org: Seq<char>,
    repo: Seq<char>,
) -> Option<RepoPrefix>
    decreases layers.len(),
{
    if layers.len() == 0 {
        None
    } else {
        match spec_layer_repo_prefix(layers[0], org, repo) {
            Some(p) => Some(p),
            None => spec_repo_override(layers.drop_first(), org, repo),
        }
    }
}

/// The organization-level fallback prefix of the most specific layer that
/// supplies one.
pub open spec fn spec_org_default(layers: Seq<OrgsView>, org: Seq<char>) -> Option<RepoPrefix>
    decreases layers.len(),
{
    if layers.len() == 0 {
        None
    } else {
        match spec_layer_org_default(layers[0], org) {
            Some(p) => Some(p),
            None => spec_org_default(layers.drop_first(), org),
        }
    }
}

/// The prefix a repository reference is rendered with: the repository's own
/// setting wins over the organization's fallback, which wins over the
/// global default of showing `org/repo`.
pub open spec fn spec_effective_prefix(
    layers: Seq<OrgsView>,
    org: Seq<char>,
    repo: Seq<char>,
) -> RepoPrefix {
    match spec_repo_override(layers, org, repo) {
        Some(p) => p,
        None => match spec_org_default(layers, org) {
            Some(p) => p,
            None => RepoPrefix::OrgAndRepo,
        },
    }
}

/// However deep in the chain a layer sits, a repository-specific prefix it
/// supplies guarantees that the override lookup succeeds: no organization
/// fallback or global default can then become effective.
pub proof fn lemma_layer_override_reaches_chain(
    layers: Seq<OrgsView>,
    org: Seq<char>,
    repo: Seq<char>,
    i: int,
)
    requires
        0 <= i < layers.len(),
        spec_layer_repo_prefix(layers[i], org, repo) is Some,
    ensures
        spec_repo_override(layers, org, repo) is Some,
    decreases layers.len(),
{
    if i > 0 && spec_layer_repo_prefix(layers[0], org, repo) is None {
        lemma_layer_override_reaches_chain(layers.drop_first(), org, repo, i - 1);
    }
}

/// A repository setting always wins: whenever some layer supplies a
/// repository-specific prefix, the effective prefix is the most specific
/// such setting, whatever any organization fallback says.
pub proof fn lemma_repo_override_wins(
    layers: Seq<OrgsView>,
    org: Seq<char>,
    repo: Seq<char>,
    p: RepoPrefix,
)
    requires
        spec_repo_override(layers, org, repo) == Some(p),
    ensures
        spec_effective_prefix(layers, org, repo) == p,
{
}

/// An organization fallback beats the global default: when no layer
/// supplies a repository-specific prefix but some layer supplies an
/// organization fallback, the most specific fallback is effective.
pub proof fn lemma_org_default_wins(
    layers: Seq<OrgsView>,
    org: Seq<char>,
    repo: Seq<char>,
    p: RepoPrefix,
)
    requires
        spec_repo_override(layers, org, repo) is None,
        spec_org_default(layers, org) == Some(p),
    ensures
        spec_effective_prefix(layers, org, repo) == p,
{
}

/// With no configured setting at any layer, the default shows `org/repo`.
pub proof fn lemma_default_prefix(layers: Seq<OrgsView>, org: Seq<char>, repo: Seq<char>)
    requires
        spec_repo_override(layers, org, repo) is None,
        spec_org_default(layers, org) is None,
    ensures
        spec_effective_prefix(layers, org, repo) == RepoPrefix::OrgAndRepo,
{
}

/// Finds the entry of the first pair of `repos` whose key is `name`.
fn find_repo<'a>(repos: &'a Vec<(String, RepoEntry)>, name: &str) -> (r: Option<&'a RepoEntry>)
    ensures
        match r {
            Some(e) => spec_find_repo(
                repos@.map_values(|p: (String, RepoEntry)| (p.0@, p.1)),
                name@,
            ) == Some(*e),
            None => spec_find_repo(
                repos@.map_values(|p: (String, RepoEntry)| (p.0@, p.1)),
                name@,
            ) is None,
        },
{
    let ghost rv = repos@.map_values(|p: (String, RepoEntry)| (p.0@, p.1));
    let n = repos.len();
    let mut i: usize = 0;
    proof {
        assert(rv.skip(0) =~= rv);
    }
    while i < n
        invariant
            n == repos@.len(),
            rv == repos@.map_values(|p: (String, RepoEntry)| (p.0@, p.1)),
            rv.len() == n,
            i <= n,
            spec_find_repo(rv, name@) == spec_find_repo(rv.skip(i as int), name@),
        decreases n - i,
    {
        if str_eq(repos[i].0.as_str(), name) {
            proof {
                assert(rv.skip(i as int)[0] == rv[i as int]);
            }
            return Some(&repos[i].1);
        }
        proof {
            assert(rv.skip(i as int)[0] == rv[i as int]);
            assert(rv.skip(i as int).drop_first() =~= rv.skip(i + 1));
        }
        i += 1;
    }
    proof {
        assert(rv.skip(n as int).len() == 0);
    }
    None
}

/// Finds the entry of the first pair of `orgs` whose key is `name`.
fn find_org<'a>(orgs: &'a Vec<(String, OrgEntry)>, name: &str) -> (r: Option<&'a OrgEntry>)
    ensures
        match r {
            Some(e) => spec_find_org(
                orgs@.map_values(|p: (String, OrgEntry)| (p.0@, p.1@)),
                name@,
            ) == Some(e@),
            None => spec_find_org(
                orgs@.map_values(|p: (String, OrgEntry)| (p.0@, p.1@)),
                name@,
            ) is None,
        },
{
    let ghost ov = orgs@.map_values(|p: (String, OrgEntry)| (p.0@, p.1@));
    let n = orgs.len();
    let mut i: usize = 0;
    proof {
        assert(ov.skip(0) =~= ov);
    }
    while i < n
        invariant
            n == orgs@.len(),
            ov == orgs@.map_values(|p: (String, OrgEntry)| (p.0@, p.1@)),
            ov.len() == n,
            i <= n,
            spec_find_org(ov, name@) == spec_find_org(ov.skip(i as int), name@),
        decreases n - i,
    {
        if str_eq(orgs[i].0.as_str(), name) {
            proof {
                assert(ov.skip(i as int)[0] == ov[i as int]);
            }
            return Some(&orgs[i].1);
        }
        proof {
            assert(ov.skip(i as int)[0] == ov[i as int]);
            assert(ov.skip(i as int).drop_first() =~= ov.skip(i + 1));
        }
        i += 1;
    }
    proof {
        assert(ov.skip(n as int).len() == 0);
    }
    None
}

/// The repository-specific prefix this layer supplies, if any.
fn layer_repo_prefix(c: &Config, org: &str, repo: &str) -> (r: Option<RepoPrefix>)
    ensures
        r == spec_layer_repo_prefix(c@, org@, repo@),
{
    match find_org(&c.orgs, org) {
        Some(oe) => match find_repo(&oe.repos, repo) {
            Some(re) => re.prefix,
            None => None,
        },
        None => None,
    }
}

/// The organization-level fallback prefix this layer supplies, if any.
fn layer_org_default(c: &Config, org: &str) -> (r: Option<RepoPrefix>)
    ensures
        r == spec_layer_org_default(c@, org@),
{
    match find_org(&c.orgs, org) {
        Some(oe) => oe.unmatched_repo_prefix,
        None => None,
    }
}

impl Config {
    /// The tables key each entry by a distinct name, so lookup order is
    /// irrelevant.
    pub open spec fn wf(&self) -> bool {
        wf_orgs(self@)
    }

    /// Whether the tables key each entry by a distinct name.
    pub fn wf_check(&self) -> (r: bool)
        ensures
            r == self.wf(),
    {
        if !org_keys_distinct(&self.orgs) {
            return false;
        }
        let n = self.orgs.len();
        let mut i: usize = 0;
        while i < n
            invariant
                n == self.orgs@.len(),
                self@.len() == n,
                i <= n,
                unique_keys(self@),
                forall|k: int| 0 <= k < i ==> unique_keys((#[trigger] self@[k]).1.repos),
            decreases n - i,
        {
            if !repo_keys_distinct(&self.orgs[i].1.repos) {
                proof {
                    assert(self@[i as int].1 == self.orgs@[i as int].1@);
                    assert(!wf_orgs(self@));
                }
                return false;
            }
            proof {
                assert(self@[i as int].1 == self.orgs@[i as int].1@);
            }
            i += 1;
        }
        true
    }
}

/// Whether the repository table keys each entry by a distinct name.
fn repo_keys_distinct(repos: &Vec<(String, RepoEntry)>) -> (r: bool)
    ensures
        r == unique_keys(repos@.map_values(|p: (String, RepoEntry)| (p.0@, p.1))),
{
    let ghost rv = repos@.map_values(|p: (String, RepoEntry)| (p.0@, p.1));
    let n = repos.len();
    let mut i: usize = 0;
    while i < n
        invariant
            n == repos@.len(),
            rv == repos@.map_values(|p: (String, RepoEntry)| (p.0@, p.1)),
            rv.len() == n,
            i <= n,
            forall|a: int, b: int| 0 <= a < b < n && a < i ==> rv[a].0 != rv[b].0,
        decreases n - i,
    {
        let mut j: usize = i + 1;
        while j < n
            invariant
                n == repos@.len(),
                rv == repos@.map_values(|p: (String, RepoEntry)| (p.0@, p.1)),
                rv.len() == n,
                i < j <= n,
                forall|b: int| i < b < j ==> rv[i as int].0 != rv[b].0,
            decreases n - j,
        {
            if str_eq(repos[i].0.as_str(), repos[j].0.as_str()) {
                proof {
                    assert(rv[i as int].0 == rv[j as int].0);
                }
                return false;
            }
            j += 1;
        }
        i += 1;
    }
    true
}

/// Whether the organization table keys each entry by a distinct name.
fn org_keys_distinct(orgs: &Vec<(String, OrgEntry)>) -> (r: bool)
    ensures
        r == unique_keys(orgs@.map_values(|p: (String, OrgEntry)| (p.0@, p.1@))),
{
    let ghost ov = orgs@.map_values(|p: (String, OrgEntry)| (p.0@, p.1@));
    let n = orgs.len();
    let mut i: usize = 0;
    while i < n
        invariant
            n == orgs@.len(),
            ov == orgs@.map_values(|p: (String, OrgEntry)| (p.0@, p.1@)),
            ov.len() == n,
            i <= n,
            forall|a: int, b: int| 0 <= a < b < n && a < i ==> ov[a].0 != ov[b].0,
        decreases n - i,
    {
        let mut j: usize = i + 1;
        while j < n
            invariant
                n == orgs@.len(),
                ov == orgs@.map_values(|p: (String, OrgEntry)| (p.0@, p.1@)),
                ov.len() == n,
                i < j <= n,
                forall|b: int| i < b < j ==> ov[i as int].0 != ov[b].0,
            decreases n - j,
        {
            if str_eq(orgs[i].0.as_str(), orgs[j].0.as_str()) {
                proof {
                    assert(ov[i as int].0 == ov[j as int].0);
                }
                return false;
            }
            j += 1;
        }
        i += 1;
    }
    true
}

/// The source-host layers a configuration chain supplies, most specific
/// first.
pub open spec fn github_layers(gh: Layered<&Config>) -> Seq<OrgsView> {
    match gh.profile {
        Some(p) => seq![p@, gh.general@],
        None => seq![gh.general@],
    }
}

/// Every layer of the chain has well-formed tables.
pub open spec fn wf_github_layers(gh: Layered<&Config>) -> bool {
    gh.general.wf() && match gh.profile {
        Some(p) => p.wf(),
        None => true,
    }
}

/// Resolves the effective prefix for `org`/`repo` across the layers.
pub fn resolve_prefix(gh: Layered<&Config>, org: &str, repo: &str) -> (p: RepoPrefix)
    requires
        wf_github_layers(gh),
    ensures
        p == spec_effective_prefix(github_layers(gh), org@, repo@),
{
    let ghost layers = github_layers(gh);
    proof {
        let g = seq![gh.general@];
        assert(g.drop_first() =~= Seq::<OrgsView>::empty());
        assert(spec_repo_override(Seq::<OrgsView>::empty(), org@, repo@) is None);
        assert(spec_org_default(Seq::<OrgsView>::empty(), org@) is None);
        assert(spec_repo_override(g, org@, repo@) == spec_layer_repo_prefix(
            gh.general@,
            org@,
            repo@,
        ));
        assert(spec_org_default(g, org@) == spec_layer_org_default(gh.general@, org@));
        if gh.profile is Some {
            assert(layers.drop_first() =~= g);
        }
    }
    let over = match gh.profile {
        Some(c) => layer_repo_prefix(c, org, repo),
        None => None,
    };
    let over = match over {
        Some(p) => Some(p),
        None => layer_repo_prefix(gh.general, org, repo),
    };
    if let Some(p) = over {
        return p;
    }
    let fallback = match gh.profile {
        Some(c) => layer_org_default(c, org),
        None => None,
    };
    let fallback = match fallback {
        Some(p) => Some(p),
        None => layer_org_default(gh.general, org),
    };
    match fallback {
        Some(p) => p,
        None => RepoPrefix::OrgAndRepo,
    }
}

/// The text a prefix choice contributes in front of a reference.
pub open spec fn spec_prefix_text(p: RepoPrefix, org: Seq<char>, repo: Seq<char>) -> Seq<char> {
    match p {
        RepoPrefix::OrgAndRepo => "`"@ + org + "/"@ + repo + "`"@,
        RepoPrefix::RepoOnly => "`"@ + repo + "`"@,
        RepoPrefix::NoPrefix => Seq::empty(),
    }
}

/// Renders the text a prefix choice contributes in front of a reference.
fn prefix_text(p: RepoPrefix, org: &str, repo: &str) -> (r: String)
    ensures
        r@ == spec_prefix_text(p, org@, repo@),
{
    let mut out = String::new();
    match p {
        RepoPrefix::OrgAndRepo => {
            out.append("`");
            out.append(org);
            out.append("/");
            out.append(repo);
            out.append("`");
        },
        RepoPrefix::RepoOnly => {
            out.append("`");
            out.append(repo);
            out.append("`");
        },
        RepoPrefix::NoPrefix => {},
    }
    proof {
        assert(out@ =~= spec_prefix_text(p, org@, repo@));
    }
    out
}

/// The suffix a fragment's line-number spec contributes to a file label.
pub open spec fn spec_line_suffix(fragment: Option<Seq<char>>) -> Seq<char> {
    match fragment {
        None => Seq::empty(),
        Some(f) => match spec_line_number_spec(f) {
            None => Seq::empty(),
            Some(LineNumberSpecView::Single(l)) => ":"@ + l,
            Some(LineNumberSpecView::Range(a, b)) => ":"@ + a + "-"@ + b,
        },
    }
}

/// The label the source-host recognizer produces for a URL whose host is
/// the source host, if its path fits one of the accepted shapes: a bare
/// `org/repo` reference, an issue or pull-request number, a file at a
/// commitish with an optional line suffix, a commit with an optional file
/// path, or a release tag.
pub open spec fn spec_github(layers: Seq<OrgsView>, url: UrlView) -> Option<Seq<char>> {
    let segs = url.path_segments;
    if segs.len() < 2 {
        None
    } else {
        let org = segs[0];
        let repo = segs[1];
        let rest = segs.skip(2);
        let prefix = spec_prefix_text(spec_effective_prefix(layers, org, repo), org, repo);
        if rest.len() == 0 {
            Some(prefix)
        } else if rest.len() >= 2 && (rest[0] == "issues"@ || rest[0] == "pull"@) {
            Some(prefix + "#"@ + rest[1])
        } else if rest.len() >= 2 && rest[0] == "blob"@ {
            Some(
                prefix + ":`"@ + rest[1] + "`:`"@ + join(rest.skip(2), "/"@) + "`"@
                    + spec_line_suffix(url.fragment),
            )
        } else if rest.len() >= 2 && rest[0] == "commit"@ {
            if rest.len() == 2 {
                Some("`"@ + org + "/"@ + repo + "`:`"@ + rest[1] + "`"@)
            } else {
                Some(
                    "`"@ + org + "/"@ + repo + "`:`"@ + rest[1] + "`:`"@ + join(
                        rest.skip(2),
                        "/"@,
                    ) + "`"@,
                )
            }
        } else if rest.len() >= 3 && rest[0] == "releases"@ && rest[1] == "tag"@ && (rest.len()
            == 3 || (rest.len() == 4 && rest[3] == ""@)) {
            match spec_component_version(rest[2]) {
                Some(cv) => Some("`"@ + cv.0 + "` "@ + cv.1),
                None => Some("`"@ + rest[2] + "` tag release"@),
            }
        } else {
            None
        }
    }
}

/// Classifies a URL against the source-host recognizer's accepted shapes.
pub fn try_github(gh: Layered<&Config>, url: &Url) -> (r: Option<String>)
    requires
        wf_github_layers(gh),
    ensures
        match r {
            Some(label) => spec_github(github_layers(gh), url@) == Some(label@),
            None => spec_github(github_layers(gh), url@) is None,
        },
{
    let segs = &url.path_segments;
    let n = segs.len();
    let ghost dv = url@.path_segments;
    let ghost rest = dv.skip(2);
    if n < 2 {
        return None;
    }
    proof {
        assert(rest.len() == n - 2);
        assert(forall|j: int| 0 <= j < rest.len() ==> rest[j] == dv[j + 2]);
    }
    let org = segs[0].as_str();
    let repo = segs[1].as_str();
    let p = resolve_prefix(gh, org, repo);
    let mut out = prefix_text(p, org, repo);
    let ghost prefix = spec_prefix_text(spec_effective_prefix(github_layers(gh), org@, repo@),
        org@, repo@);
    if n == 2 {
        return Some(out);
    }
    if n >= 4 && (str_eq(segs[2].as_str(), "issues") || str_eq(segs[2].as_str(), "pull")) {
        out.append("#");
        out.append(segs[3].as_str());
        proof {
            assert(out@ =~= prefix + "#"@ + rest[1]);
        }
        return Some(out);
    }
    if n >= 4 && str_eq(segs[2].as_str(), "blob") {
        let file = join_range(segs, 4, n, "/");
        proof {
            assert(rest.skip(2) =~= dv.subrange(4, n as int));
        }
        out.append(":`");
        out.append(segs[3].as_str());
        out.append("`:`");
        out.append(file.as_str());
        out.append("`");
        match &url.fragment {
            None => {},
            Some(f) => match parse_line_number_spec(f.as_str()) {
                None => {},
                Some(LineNumberSpec::Single(l)) => {
                    out.append(":");
                    out.append(l.as_str());
                },
                Some(LineNumberSpec::Range(a, b)) => {
                    out.append(":");
                    out.append(a.as_str());
                    out.append("-");
                    out.append(b.as_str());
                },
            },
        }
        proof {
            assert(out@ =~= prefix + ":`"@ + rest[1] + "`:`"@ + join(rest.skip(2), "/"@) + "`"@
                + spec_line_suffix(url@.fragment));
        }
        return Some(out);
    }
    if n >= 4 && str_eq(segs[2].as_str(), "commit") {
        let mut out = String::new();
        out.append("`");
        out.append(org);
        out.append("/");
        out.append(repo);
        out.append("`:`");
        out.append(segs[3].as_str());
        out.append("`");
        if n == 4 {
            proof {
                assert(out@ =~= "`"@ + org@ + "/"@ + repo@ + "`:`"@ + rest[1] + "`"@);
            }
            return Some(out);
        }
        let file = join_range(segs, 4, n, "/");
        proof {
            assert(rest.skip(2) =~= dv.subrange(4, n as int));
        }
        out.append(":`");
        out.append(file.as_str());
        out.append("`");
        proof {
            reveal_strlit("`");
            reveal_strlit(":`");
            reveal_strlit("`:`");
            assert(out@ =~= "`"@ + org@ + "/"@ + repo@ + "`:`"@ + rest[1] + "`:`"@ + join(
                rest.skip(2),
                "/"@,
            ) + "`"@);
        }
        return Some(out);
    }
    if n >= 5 && str_eq(segs[2].as_str(), "releases") && str_eq(segs[3].as_str(), "tag") && (n == 5
        || (n == 6 && str_eq(segs[5].as_str(), ""))) {
        let tag = segs[4].as_str();
        let mut out = String::new();
        match split_component_version(tag) {
            Some(cv) => {
                out.append("`");
                out.append(cv.0.as_str());
                out.append("` ");
                out.append(cv.1.as_str());
                proof {
                    let scv = spec_component_version(rest[2])->Some_0;
                    assert(out@ =~= "`"@ + scv.0 + "` "@ + scv.1);
                }
            },
            None => {
                out.append("`");
                out.append(tag);
                out.append("` tag release");
                proof {
                    assert(out@ =~= "`"@ + rest[2] + "` tag release"@);
                }
            },
        }
        return Some(out);
    }
    None
}

} // verus!
