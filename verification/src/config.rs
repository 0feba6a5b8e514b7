//! Layered configuration: a general layer that is always present, named
//! profile layers, and the two-level override chain a profile selection
//! produces.

use vstd::prelude::*;

use crate::github;
use crate::github::wf_orgs;
use crate::text::{assoc_find, lemma_assoc_find_some_exists, str_eq, unique_keys};

verus! {

/// One layer of configuration.
pub struct ConfigLayer {
    /// The source-host family's choices in this layer.
    pub github: github::Config,
}

/// The whole configuration: the general layer and the named profiles.
pub struct Config {
    /// The layer that applies to every profile selection.
    pub general: ConfigLayer,
    /// Profile layers, keyed by profile name.
    pub profiles: Vec<(String, ConfigLayer)>,
}

/// The mathematical value of a [`ConfigLayer`].
pub struct ConfigLayerView {
    pub github: github::OrgsView,
}

/// The mathematical value of a [`Config`].
pub struct ConfigView {
    pub general: ConfigLayerView,
    pub profiles: Seq<(Seq<char>, ConfigLayerView)>,
}

impl View for ConfigLayer {
    type V = ConfigLayerView;

    open spec fn view(&self) -> ConfigLayerView {
        ConfigLayerView { github: self.github@ }
    }
}

impl View for Config {
    type V = ConfigView;

    open spec fn view(&self) -> ConfigView {
        ConfigView {
            general: self.general@,
            profiles: self.profiles@.map_values(|p: (String, ConfigLayer)| (p.0@, p.1@)),
        }
    }
}

/// An error in resolving a profile selection.
#[derive(Clone, Copy, Debug, PartialEq, Eq, Structural)]
pub enum LayeredConfigError {
    /// The requested profile name has no entry in the configuration.
    InvalidProfileName,
}

/// A two-level override chain: the general layer, and at most one more
/// specific profile layer.
#[derive(Clone, Copy)]
pub struct Layered<T> {
    pub general: T,
    pub profile: Option<T>,
}

impl<T> Layered<T> {
    /// The layers from most to least specific: the profile layer when
    /// present, then the general layer.
    pub open spec fn inwards_seq(self) -> Seq<T> {
        match self.profile {
            Some(p) => seq![p, self.general],
            None => seq![self.general],
        }
    }

    /// Applies a projection to both layers, preserving the layer structure.
    pub fn map<U, F: Fn(T) -> U>(self, f: F) -> (r: Layered<U>)
        requires
            call_requires(f, (self.general,)),
            self.profile matches Some(p) ==> call_requires(f, (p,)),
        ensures
            call_ensures(f, (self.general,), r.general),
            match (self.profile, r.profile) {
                (Some(p), Some(q)) => call_ensures(f, (p,), q),
                (None, None) => true,
                _ => false,
            },
    {
        let Layered { general, profile } = self;
        Layered {
            general: f(general),
            profile: match profile {
                Some(p) => Some(f(p)),
                None => None,
            },
        }
    }

    /// The layers in order from most to least specific.
    pub fn inwards(self) -> (r: Vec<T>)
        ensures
            r@ == self.inwards_seq(),
    {
        let Layered { general, profile } = self;
        let mut v: Vec<T> = Vec::new();
        if let Some(p) = profile {
            v.push(p);
        }
        v.push(general);
        proof {
            assert(v@ =~= self.inwards_seq());
        }
        v
    }
}

/// The layer of the first pair of `profiles` whose key is `name`. With
/// distinct keys this is map lookup ([`crate::text::lemma_assoc_find_unique`]).
pub open spec fn spec_find_layer(
    profiles: Seq<(Seq<char>, ConfigLayerView)>,
    name: Seq<char>,
) -> Option<ConfigLayerView> {
    assoc_find(profiles, name)
}

impl ConfigLayer {
    /// The layer's tables key each entry by a distinct name.
    pub open spec fn wf(&self) -> bool {
        wf_orgs(self.github@)
    }
}

/// Every layer of a resolved chain has well-formed tables.
pub open spec fn wf_layers(l: Layered<&ConfigLayer>) -> bool {
    l.general.wf() && match l.profile {
        Some(p) => p.wf(),
        None => true,
    }
}

/// Whether the profile table keys each entry by a distinct name.
fn profile_keys_distinct(profiles: &Vec<(String, ConfigLayer)>) -> (r: bool)
    ensures
        r == unique_keys(profiles@.map_values(|p: (String, ConfigLayer)| (p.0@, p.1@))),
{
    let ghost pv = profiles@.map_values(|p: (String, ConfigLayer)| (p.0@, p.1@));
    let n = profiles.len();
    let mut i: usize = 0;
    while i < n
        invariant
            n == profiles@.len(),
            pv == profiles@.map_values(|p: (String, ConfigLayer)| (p.0@, p.1@)),
            pv.len() == n,
            i <= n,
            forall|a: int, b: int| 0 <= a < b < n && a < i ==> pv[a].0 != pv[b].0,
        decreases n - i,
    {
        let mut j: usize = i + 1;
        while j < n
            invariant
                n == profiles@.len(),
                pv == profiles@.map_values(|p: (String, ConfigLayer)| (p.0@, p.1@)),
                pv.len() == n,
                i < j <= n,
                forall|b: int| i < b < j ==> pv[i as int].0 != pv[b].0,
            decreases n - j,
        {
            if str_eq(profiles[i].0.as_str(), profiles[j].0.as_str()) {
                proof {
                    assert(pv[i as int].0 == pv[j as int].0);
                }
                return false;
            }
            j += 1;
        }
        i += 1;
    }
    true
}

/// Finds the layer of the first pair of `profiles` whose key is `name`.
fn find_layer<'a>(profiles: &'a Vec<(String, ConfigLayer)>, name: &str) -> (r: Option<
    &'a ConfigLayer,
>)
    ensures
        match r {
            Some(l) => spec_find_layer(
                profiles@.map_values(|p: (String, ConfigLayer)| (p.0@, p.1@)),
                name@,
            ) == Some(l@),
            None => spec_find_layer(
                profiles@.map_values(|p: (String, ConfigLayer)| (p.0@, p.1@)),
                name@,
            ) is None,
        },
{
    let ghost pv = profiles@.map_values(|p: (String, ConfigLayer)| (p.0@, p.1@));
    let n = profiles.len();
    let mut i: usize = 0;
    proof {
        assert(pv.skip(0) =~= pv);
    }
    while i < n
        invariant
            n == profiles@.len(),
            pv == profiles@.map_values(|p: (String, ConfigLayer)| (p.0@, p.1@)),
            pv.len() == n,
            i <= n,
            spec_find_layer(pv, name@) == spec_find_layer(pv.skip(i as int), name@),
        decreases n - i,
    {
        if str_eq(profiles[i].0.as_str(), name) {
            proof {
                assert(pv.skip(i as int)[0] == pv[i as int]);
            }
            return Some(&profiles[i].1);
        }
        proof {
            assert(pv.skip(i as int)[0] == pv[i as int]);
            assert(pv.skip(i as int).drop_first() =~= pv.skip(i + 1));
        }
        i += 1;
    }
    proof {
        assert(pv.skip(n as int).len() == 0);
    }
    None
}

impl Config {
    /// Every table of the configuration keys each entry by a distinct
    /// name: profile names, organization names, and repository names. All
    /// lookups are then map lookups, and table order is irrelevant.
    pub open spec fn wf(&self) -> bool {
        &&& unique_keys(self@.profiles)
        &&& self.general.wf()
        &&& forall|i: int|
            0 <= i < self@.profiles.len() ==> wf_orgs((#[trigger] self@.profiles[i]).1.github)
    }

    /// Whether every table of the configuration keys each entry by a
    /// distinct name.
    pub fn wf_check(&self) -> (r: bool)
        ensures
            r == self.wf(),
    {
        if !profile_keys_distinct(&self.profiles) {
            return false;
        }
        if !self.general.github.wf_check() {
            return false;
        }
        let n = self.profiles.len();
        let mut i: usize = 0;
        while i < n
            invariant
                n == self.profiles@.len(),
                self@.profiles.len() == n,
                i <= n,
                unique_keys(self@.profiles),
                self.general.wf(),
                forall|k: int| 0 <= k < i ==> wf_orgs((#[trigger] self@.profiles[k]).1.github),
            decreases n - i,
        {
            if !self.profiles[i].1.github.wf_check() {
                proof {
                    assert(self@.profiles[i as int].1 == self.profiles@[i as int].1@);
                }
                return false;
            }
            proof {
                assert(self@.profiles[i as int].1 == self.profiles@[i as int].1@);
            }
            i += 1;
        }
        true
    }

    /// Resolves a profile selection into the override chain it denotes:
    /// the named profile's layer first when one is requested, then the
    /// general layer. An unknown profile name is an error; no profile
    /// selection succeeds trivially. Every layer of a returned chain is
    /// well formed.
    pub fn layers_from_profile<'a>(&'a self, profile: Option<&str>) -> (r: Result<
        Layered<&'a ConfigLayer>,
        LayeredConfigError,
    >)
        requires
            self.wf(),
        ensures
            r matches Ok(l) ==> wf_layers(l),
            match r {
                Ok(l) => {
                    &&& l.general == &self.general
                    &&& match (profile, l.profile) {
                        (None, None) => true,
                        (Some(name), Some(p)) => spec_find_layer(self@.profiles, name@) == Some(
                            p@,
                        ),
                        _ => false,
                    }
                },
                Err(e) => {
                    &&& e == LayeredConfigError::InvalidProfileName
                    &&& profile matches Some(name) && spec_find_layer(
                        self@.profiles,
                        name@,
                    ) is None
                },
            },
    {
        let found: Option<&ConfigLayer> = match profile {
            Some(name) => match find_layer(&self.profiles, name) {
                Some(l) => {
                    proof {
                        lemma_assoc_find_some_exists(self@.profiles, name@);
                        let i = choose|i: int|
                            0 <= i < self@.profiles.len() && (#[trigger] self@.profiles[i]).0
                                == name@ && self@.profiles[i].1 == assoc_find(
                                self@.profiles,
                                name@,
                            )->Some_0;
                        assert(wf_orgs(self@.profiles[i].1.github));
                    }
                    Some(l)
                },
                None => {
                    return Err(LayeredConfigError::InvalidProfileName);
                },
            },
            None => None,
        };
        Ok(Layered { general: &self.general, profile: found })
    }
}

} // verus!
