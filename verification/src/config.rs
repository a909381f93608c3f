//! The project configuration (`spora.toml`) and the decisions it drives.

use vstd::prelude::*;
use vstd::string::*;
use crate::resolver::{MavenCoords, parse_coords, glue, opt_view};
use crate::text::{str_eq, has_char, lemma_split_three};

verus! {

/// `[workspace]`: the member directories.
pub struct WorkspaceConfig {
    pub members: Vec<String>,
}

/// A dependency's entry: a version, or a version and a repository.
pub enum DependencyConfig {
    Simple(String),
    Full { version: String, repo: Option<String> },
}

/// `[pack]`: `fat`, `flat` or anything else for a plain jar.
pub struct PackConfig {
    pub mode: String,
}

/// `[runtime]`: the JDK (or compiler) to use.
pub struct RuntimeConfig {
    pub lang: String,
    pub vendor: String,
    pub version: String,
    pub platform: Option<String>,
    pub checksum: Option<String>,
    pub auto_verify: Option<bool>,
    pub accept_oracle_licence_terms: Option<bool>,
}

/// The whole configuration. Dependencies are `group:artifact` names with
/// their entries.
pub struct SporaConfig {
    pub workspace: Option<WorkspaceConfig>,
    pub project: Option<Project>,
    pub toolchain: ToolchainConfig,
    pub dependencies: Vec<(String, DependencyConfig)>,
    pub pack: Option<PackConfig>,
    pub runtime: Option<RuntimeConfig>,
}

/// `[project]`.
pub struct Project {
    pub name: String,
    pub lang: String,
    pub version: String,
    pub java_version: Option<String>,
    pub kotlin_version: Option<String>,
    pub main: String,
}

/// `[toolchain]`.
pub struct ToolchainConfig {
    pub java: String,
    pub kotlin: Option<String>,
}

/// How the build output is packaged.
#[derive(PartialEq, Eq, Structural, Clone, Copy, Debug)]
pub enum PackMode {
    Fat,
    Flat,
    Simple,
}

/// The version and repository of a dependency entry.
pub open spec fn entry_of(d: DependencyConfig) -> (Seq<char>, Option<Seq<char>>) {
    match d {
        DependencyConfig::Simple(v) => (v@, None),
        DependencyConfig::Full { version, repo } => (version@, opt_view(repo)),
    }
}

/// What resolution starts from for the entry `name` = `d`: the coordinates
/// read from `name:version` and the entry's repository, when they read.
pub open spec fn request_of(name: Seq<char>, d: DependencyConfig) -> Option<
    ((Seq<char>, Seq<char>, Seq<char>), Option<Seq<char>>),
> {
    match parse_coords(glue(name, ':', entry_of(d).0)) {
        Some(c) => Some((c, entry_of(d).1)),
        None => None,
    }
}

/// The requests for all entries, in order; entries whose coordinates do not
/// read are left out.
pub open spec fn requests_of(deps: Seq<(String, DependencyConfig)>) -> Seq<
    ((Seq<char>, Seq<char>, Seq<char>), Option<Seq<char>>),
>
    decreases deps.len(),
{
    if deps.len() == 0 {
        Seq::empty()
    } else {
        let rest = requests_of(deps.drop_last());
        match request_of(deps.last().0@, deps.last().1) {
            Some(q) => rest.push(q),
            None => rest,
        }
    }
}

/// The pack mode a `[pack]` section selects.
pub open spec fn pack_mode_of(pack: Option<PackConfig>) -> PackMode {
    match pack {
        Some(p) => if p.mode@ == "fat"@ {
            PackMode::Fat
        } else if p.mode@ == "flat"@ {
            PackMode::Flat
        } else {
            PackMode::Simple
        },
        None => PackMode::Simple,
    }
}

/// Every dependency entry named `group:artifact`, with a version, where none
/// of the three holds `:`, is resolved: at the coordinates of that group,
/// artifact and version, from the entry's repository.
pub proof fn law_entry_resolves(group: Seq<char>, artifact: Seq<char>, d: DependencyConfig)
    requires
        !has_char(group, ':'),
        !has_char(artifact, ':'),
        !has_char(entry_of(d).0, ':'),
    ensures
        request_of(glue(group, ':', artifact), d) == Some(
            (
                (crate::text::replace_char(group, '.', '/'), artifact, entry_of(d).0),
                entry_of(d).1,
            ),
        ),
{
    lemma_split_three(group, artifact, entry_of(d).0, ':');
    assert(glue(glue(group, ':', artifact), ':', entry_of(d).0) =~= group + seq![':'] + artifact
        + seq![':'] + entry_of(d).0);
}

impl DependencyConfig {
    /// The entry's version and repository.
    pub fn version_and_repo(&self) -> (r: (&String, Option<&String>))
        ensures
            r.0@ == entry_of(*self).0,
            match r.1 {
                Some(s) => entry_of(*self).1 == Some(s@),
                None => entry_of(*self).1 is None,
            },
    {
        match self {
            DependencyConfig::Simple(v) => (v, None),
            DependencyConfig::Full { version, repo } => (version, repo.as_ref()),
        }
    }
}

impl RuntimeConfig {
    /// The Oracle JDK is selected but its licence terms are not accepted.
    pub fn licence_blocked(&self) -> (r: bool)
        ensures
            r == (self.vendor@ == "oracle"@ && self.accept_oracle_licence_terms != Some(true)),
    {
        let accepted = match self.accept_oracle_licence_terms {
            Some(b) => b,
            None => false,
        };
        str_eq(self.vendor.as_str(), "oracle") && !accepted
    }

    /// The runtime platform: the configured one, or `jvm`.
    pub fn runtime_platform(&self) -> (r: &str)
        ensures
            r@ == match self.platform {
                Some(p) => p@,
                None => "jvm"@,
            },
    {
        match &self.platform {
            Some(p) => p.as_str(),
            None => "jvm",
        }
    }
}

impl SporaConfig {
    /// The coordinates and repositories to resolve, one per dependency entry
    /// whose `name:version` reads as coordinates, in order.
    pub fn dependency_requests(&self) -> (r: Vec<(MavenCoords, Option<String>)>)
        ensures
            r@.map_values(|q: (MavenCoords, Option<String>)| (q.0@, opt_view(q.1))) == requests_of(
                self.dependencies@,
            ),
    {
        let deps = &self.dependencies;
        let mut out: Vec<(MavenCoords, Option<String>)> = Vec::new();
        let mut i: usize = 0;
        while i < deps.len()
            invariant
                deps == &self.dependencies,
                i <= deps@.len(),
                out@.map_values(|q: (MavenCoords, Option<String>)| (q.0@, opt_view(q.1)))
                    == requests_of(deps@.take(i as int)),
            decreases deps@.len() - i,
        {
            let (name, dep) = (&deps[i].0, &deps[i].1);
            assert(deps@.take(i + 1).drop_last() =~= deps@.take(i as int));
            assert(deps@.take(i + 1).last() == deps@[i as int]);
            let (version, repo) = dep.version_and_repo();
            let mut full = name.clone();
            full.append(":");
            full.append(version.as_str());
            proof {
                reveal_strlit(":");
            }
            assert(full@ =~= glue(name@, ':', version@));
            let ghost before = out@;
            match MavenCoords::parse(full.as_str()) {
                Some(c) => {
                    let r = match repo {
                        Some(s) => Some(s.clone()),
                        None => None,
                    };
                    out.push((c, r));
                    assert(out@.map_values(|q: (MavenCoords, Option<String>)| (q.0@, opt_view(q.1)))
                        =~= before.map_values(
                        |q: (MavenCoords, Option<String>)| (q.0@, opt_view(q.1)),
                    ).push((c@, opt_view(r))));
                },
                None => {},
            }
            i = i + 1;
        }
        assert(deps@.take(deps@.len() as int) =~= deps@);
        out
    }

    /// The pack mode of the `[pack]` section: `fat`, `flat`, else a plain jar.
    pub fn pack_mode(&self) -> (r: PackMode)
        ensures
            r == pack_mode_of(self.pack),
    {
        match &self.pack {
            Some(p) => if str_eq(p.mode.as_str(), "fat") {
                PackMode::Fat
            } else if str_eq(p.mode.as_str(), "flat") {
                PackMode::Flat
            } else {
                PackMode::Simple
            },
            None => PackMode::Simple,
        }
    }
}

} // verus!
