//! Maven coordinates and the decisions of dependency resolution: identifiers,
//! repository URLs, jar names, which dependencies of a POM are followed, which
//! coordinates are new, and what the lock file records.

use vstd::prelude::*;
use vstd::string::*;
use crate::store::StoreIndex;
use crate::strmap::map_get;
use crate::text::{
    chars_of, string_of, split_chars, replace_chars, trim_end_chars, str_eq, split_seq,
    replace_char, trim_end_char, char_views, has_char, lemma_split_three,
    lemma_split_join, lemma_replace_back, lemma_replace_chars_in, join_with,
};

verus! {

/// Maven coordinates; the group is kept with `/` in place of `.`, as it
/// appears in repository paths.
pub struct MavenCoords {
    pub group: String,
    pub artifact: String,
    pub version: String,
}

impl View for MavenCoords {
    type V = (Seq<char>, Seq<char>, Seq<char>);

    open spec fn view(&self) -> (Seq<char>, Seq<char>, Seq<char>) {
        (self.group@, self.artifact@, self.version@)
    }
}

/// The coordinates that `MavenCoords::new` builds.
pub open spec fn coords_new(g: Seq<char>, a: Seq<char>, v: Seq<char>) -> (
    Seq<char>,
    Seq<char>,
    Seq<char>,
) {
    (replace_char(g, '.', '/'), a, v)
}

/// The coordinates that `MavenCoords::parse` reads from `group:artifact:version`.
pub open spec fn parse_coords(s: Seq<char>) -> Option<(Seq<char>, Seq<char>, Seq<char>)> {
    let p = split_seq(s, ':');
    if p.len() == 3 {
        Some(coords_new(p[0], p[1], p[2]))
    } else {
        None
    }
}

/// `x`, `c`, `y` concatenated.
pub open spec fn glue(x: Seq<char>, c: char, y: Seq<char>) -> Seq<char> {
    x + seq![c] + y
}

/// The identifier under which resolution remembers coordinates:
/// the group with `.` separators, the artifact and the version, joined by `:`.
pub open spec fn identifier_of(c: (Seq<char>, Seq<char>, Seq<char>)) -> Seq<char> {
    glue(glue(replace_char(c.0, '/', '.'), ':', c.1), ':', c.2)
}

/// The key under which the store indexes the jar: group (with `/`),
/// artifact and version joined by `:`.
pub open spec fn store_key_of(c: (Seq<char>, Seq<char>, Seq<char>)) -> Seq<char> {
    glue(glue(c.0, ':', c.1), ':', c.2)
}

/// `artifact-version`.
pub open spec fn base_name_of(artifact: Seq<char>, version: Seq<char>) -> Seq<char> {
    glue(artifact, '-', version)
}

/// `artifact-version.jar`, the name of the jar in a module's `lib` directory.
pub open spec fn jar_file_of(artifact: Seq<char>, version: Seq<char>) -> Seq<char> {
    base_name_of(artifact, version) + ".jar"@
}

/// The repository used when a dependency names none.
pub open spec fn default_repository() -> Seq<char> {
    "https://repo1.maven.org/maven2/"@
}

/// The URL of an artifact file with extension `ext` (such as `.pom`) in the
/// repository `repo` (or the default one): the repository without trailing
/// `/`, then group, artifact, version and `artifact-version` + `ext`.
pub open spec fn artifact_url_of(
    repo: Option<Seq<char>>,
    c: (Seq<char>, Seq<char>, Seq<char>),
    ext: Seq<char>,
) -> Seq<char> {
    let base = match repo {
        Some(r) => r,
        None => default_repository(),
    };
    glue(glue(glue(glue(trim_end_char(base, '/'), '/', c.0), '/', c.1), '/', c.2), '/', base_name_of(c.1, c.2))
        + ext
}

fn push_all(v: &mut Vec<char>, s: &[char])
    ensures
        final(v)@ == old(v)@ + s@,
{
    let mut i: usize = 0;
    let ghost start = v@;
    while i < s.len()
        invariant
            i <= s@.len(),
            v@ == start + s@.take(i as int),
        decreases s@.len() - i,
    {
        v.push(s[i]);
        assert(v@ =~= start + s@.take(i + 1));
        i = i + 1;
    }
    assert(s@.take(s@.len() as int) =~= s@);
}

fn glue_chars(x: &[char], c: char, y: &[char]) -> (r: Vec<char>)
    ensures
        r@ == glue(x@, c, y@),
{
    let mut r: Vec<char> = Vec::new();
    push_all(&mut r, x);
    r.push(c);
    push_all(&mut r, y);
    assert(r@ =~= glue(x@, c, y@));
    r
}

impl MavenCoords {
    /// Coordinates from a group (with `.` separators), artifact and version.
    pub fn new(g: &str, a: &str, v: &str) -> (r: MavenCoords)
        ensures
            r@ == coords_new(g@, a@, v@),
    {
        let gc = chars_of(g);
        let group = replace_chars(gc.as_slice(), '.', '/');
        MavenCoords { group: string_of(group.as_slice()), artifact: a.to_owned(), version: v.to_owned() }
    }

    /// Reads `group:artifact:version`; anything with other than three
    /// `:`-separated parts gives `None`.
    pub fn parse(s: &str) -> (r: Option<MavenCoords>)
        ensures
            match r {
                Some(c) => parse_coords(s@) == Some(c@),
                None => parse_coords(s@) is None,
            },
    {
        let cs = chars_of(s);
        let parts = split_chars(cs.as_slice(), ':');
        if parts.len() == 3 {
            let g = string_of(parts[0].as_slice());
            let a = string_of(parts[1].as_slice());
            let v = string_of(parts[2].as_slice());
            assert(char_views(parts@)[0] == parts@[0]@);
            assert(char_views(parts@)[1] == parts@[1]@);
            assert(char_views(parts@)[2] == parts@[2]@);
            Some(MavenCoords::new(g.as_str(), a.as_str(), v.as_str()))
        } else {
            None
        }
    }

    /// The identifier under which resolution remembers these coordinates.
    pub fn identifier(&self) -> (r: String)
        ensures
            r@ == identifier_of(self@),
    {
        let g = chars_of(self.group.as_str());
        let dotted = replace_chars(g.as_slice(), '/', '.');
        let a = chars_of(self.artifact.as_str());
        let v = chars_of(self.version.as_str());
        let first = glue_chars(dotted.as_slice(), ':', a.as_slice());
        let all = glue_chars(first.as_slice(), ':', v.as_slice());
        string_of(all.as_slice())
    }

    /// The key under which the store indexes this jar.
    pub fn store_key(&self) -> (r: String)
        ensures
            r@ == store_key_of(self@),
    {
        let g = chars_of(self.group.as_str());
        let a = chars_of(self.artifact.as_str());
        let v = chars_of(self.version.as_str());
        let first = glue_chars(g.as_slice(), ':', a.as_slice());
        let all = glue_chars(first.as_slice(), ':', v.as_slice());
        string_of(all.as_slice())
    }

    /// `artifact-version`, the name shown while the jar is fetched.
    pub fn display_name(&self) -> (r: String)
        ensures
            r@ == base_name_of(self.artifact@, self.version@),
    {
        let a = chars_of(self.artifact.as_str());
        let v = chars_of(self.version.as_str());
        let all = glue_chars(a.as_slice(), '-', v.as_slice());
        string_of(all.as_slice())
    }

    /// `artifact-version.jar`, the jar's name in the module's `lib` directory.
    pub fn jar_file_name(&self) -> (r: String)
        ensures
            r@ == jar_file_of(self.artifact@, self.version@),
    {
        let mut r = self.display_name();
        r.append(".jar");
        r
    }

    /// `spora_artifact.jar`, the temporary file a download is written to.
    pub fn temp_file_name(&self) -> (r: String)
        ensures
            r@ == "spora_"@ + self.artifact@ + ".jar"@,
    {
        let mut r = String::from_str("spora_");
        r.append(self.artifact.as_str());
        r.append(".jar");
        r
    }

    /// The URL of this artifact's file with extension `ext` in `repo`, or in
    /// the default repository when `repo` is `None`.
    pub fn artifact_url(&self, repo: Option<&str>, ext: &str) -> (r: String)
        ensures
            r@ == artifact_url_of(
                match repo {
                    Some(s) => Some(s@),
                    None => None,
                },
                self@,
                ext@,
            ),
    {
        let base = match repo {
            Some(s) => chars_of(s),
            None => chars_of(default_repository_url()),
        };
        let trimmed = trim_end_chars(base.as_slice(), '/');
        let g = chars_of(self.group.as_str());
        let a = chars_of(self.artifact.as_str());
        let v = chars_of(self.version.as_str());
        let name = glue_chars(a.as_slice(), '-', v.as_slice());
        let p1 = glue_chars(trimmed.as_slice(), '/', g.as_slice());
        let p2 = glue_chars(p1.as_slice(), '/', a.as_slice());
        let p3 = glue_chars(p2.as_slice(), '/', v.as_slice());
        let p4 = glue_chars(p3.as_slice(), '/', name.as_slice());
        let mut r = string_of(p4.as_slice());
        r.append(ext);
        r
    }

    /// The URL of this artifact's POM.
    pub fn pom_url(&self, repo: Option<&str>) -> (r: String)
        ensures
            r@ == artifact_url_of(
                match repo {
                    Some(s) => Some(s@),
                    None => None,
                },
                self@,
                ".pom"@,
            ),
    {
        self.artifact_url(repo, ".pom")
    }

    /// The URL of this artifact's jar.
    pub fn jar_url(&self, repo: Option<&str>) -> (r: String)
        ensures
            r@ == artifact_url_of(
                match repo {
                    Some(s) => Some(s@),
                    None => None,
                },
                self@,
                ".jar"@,
            ),
    {
        self.artifact_url(repo, ".jar")
    }
}

/// The repository used when a dependency names none.
pub fn default_repository_url() -> (r: &'static str)
    ensures
        r@ == default_repository(),
{
    "https://repo1.maven.org/maven2/"
}


/// The identifiers of the coordinates resolution has taken up, each once, in
/// the order they were first seen.
pub struct ResolvedSet {
    ids: Vec<String>,
}

impl View for ResolvedSet {
    type V = Seq<Seq<char>>;

    closed spec fn view(&self) -> Seq<Seq<char>> {
        self.ids@.map_values(|s: String| s@)
    }
}

impl ResolvedSet {
    #[verifier::type_invariant]
    closed spec fn inv(self) -> bool {
        self@.no_duplicates()
    }

    /// An empty set.
    pub fn new() -> (r: ResolvedSet)
        ensures
            r@ == Seq::<Seq<char>>::empty(),
            r@.no_duplicates(),
    {
        ResolvedSet { ids: Vec::new() }
    }

    /// Whether `id` has been taken up.
    pub fn contains(&self, id: &str) -> (r: bool)
        ensures
            r == self@.contains(id@),
    {
        let mut i: usize = 0;
        while i < self.ids.len()
            invariant
                i <= self.ids@.len(),
                forall|k: int| 0 <= k < i ==> self@[k] != id@,
            decreases self.ids@.len() - i,
        {
            if str_eq(self.ids[i].as_str(), id) {
                assert(self@[i as int] == id@);
                return true;
            }
            i = i + 1;
        }
        false
    }

    /// Takes up `id`: true, and `id` is added at the end, when it was not
    /// there yet; false, and nothing changes, when it was.
    pub fn insert(&mut self, id: String) -> (r: bool)
        ensures
            r == !old(self)@.contains(id@),
            final(self)@.no_duplicates(),
            final(self)@ == (if r {
                old(self)@.push(id@)
            } else {
                old(self)@
            }),
    {
        proof {
            use_type_invariant(&*self);
        }
        if self.contains(id.as_str()) {
            false
        } else {
            let ghost before = self@;
            let mut ids: Vec<String> = Vec::new();
            std::mem::swap(&mut ids, &mut self.ids);
            ids.push(id);
            assert(ids@.map_values(|s: String| s@) =~= before.push(id@));
            self.ids = ids;
            true
        }
    }

    /// The number of identifiers taken up.
    pub fn len(&self) -> (r: usize)
        ensures
            r == self@.len(),
            self@.no_duplicates(),
    {
        proof {
            use_type_invariant(self);
        }
        self.ids.len()
    }

    /// The identifier taken up in position `i`.
    pub fn get(&self, i: usize) -> (r: &String)
        requires
            i < self@.len(),
        ensures
            r@ == self@[i as int],
    {
        &self.ids[i]
    }
}

/// A dependency recorded in the lock file: its coordinates and jar hash.
pub struct LockedDependency {
    pub coords: String,
    pub hash: String,
}

/// The lock file: the dependencies a resolution fetched.
pub struct LockFile {
    pub dependencies: Vec<LockedDependency>,
}

/// The lock entries for the identifiers `ids`, in order, each with the hash
/// the index holds for it; identifiers the index does not hold are left out.
pub open spec fn lock_entries(ids: Seq<Seq<char>>, index: Map<Seq<char>, Seq<char>>) -> Seq<
    (Seq<char>, Seq<char>),
>
    decreases ids.len(),
{
    if ids.len() == 0 {
        Seq::empty()
    } else {
        let rest = lock_entries(ids.drop_last(), index);
        match map_get(index, ids.last()) {
            Some(h) => rest.push((ids.last(), h)),
            None => rest,
        }
    }
}

/// The name of the jar a lock entry restores: `artifact-version.jar` when
/// its coordinates have three `:`-separated parts.
pub open spec fn lock_jar_of(coords: Seq<char>) -> Option<Seq<char>> {
    let p = split_seq(coords, ':');
    if p.len() == 3 {
        Some(jar_file_of(p[1], p[2]))
    } else {
        None
    }
}

impl LockedDependency {
    /// The jar name this entry restores into `lib`, if its coordinates have
    /// three parts.
    pub fn jar_file_name(&self) -> (r: Option<String>)
        ensures
            match r {
                Some(n) => lock_jar_of(self.coords@) == Some(n@),
                None => lock_jar_of(self.coords@) is None,
            },
    {
        let cs = chars_of(self.coords.as_str());
        let parts = split_chars(cs.as_slice(), ':');
        if parts.len() == 3 {
            assert(char_views(parts@)[1] == parts@[1]@);
            assert(char_views(parts@)[2] == parts@[2]@);
            let name = glue_chars(parts[1].as_slice(), '-', parts[2].as_slice());
            let mut r = string_of(name.as_slice());
            r.append(".jar");
            Some(r)
        } else {
            None
        }
    }
}

impl LockFile {
    /// The lock file for the identifiers taken up, in order: each with the
    /// hash the store index holds for it, those it holds none for left out.
    pub fn from_resolved(resolved: &ResolvedSet, index: &StoreIndex) -> (r: LockFile)
        ensures
            r.dependencies@.map_values(|d: LockedDependency| (d.coords@, d.hash@)) == lock_entries(
                resolved@,
                index@,
            ),
            r.dependencies@.map_values(|d: LockedDependency| d.coords@).no_duplicates(),
    {
        let mut deps: Vec<LockedDependency> = Vec::new();
        let mut i: usize = 0;
        while i < resolved.len()
            invariant
                i <= resolved@.len(),
                deps@.map_values(|d: LockedDependency| (d.coords@, d.hash@)) == lock_entries(
                    resolved@.take(i as int),
                    index@,
                ),
            decreases resolved@.len() - i,
        {
            let id = resolved.get(i);
            assert(resolved@.take(i + 1).drop_last() =~= resolved@.take(i as int));
            let ghost before = deps@;
            match index.entries.get(id.as_str()) {
                Some(h) => {
                    deps.push(LockedDependency { coords: id.clone(), hash: h });
                    assert(deps@.map_values(|d: LockedDependency| (d.coords@, d.hash@)) =~= before.map_values(
                        |d: LockedDependency| (d.coords@, d.hash@),
                    ).push((id@, h@)));
                },
                None => {},
            }
            i = i + 1;
        }
        assert(resolved@.take(resolved@.len() as int) =~= resolved@);
        proof {
            law_lock_entries_distinct(resolved@, index@);
            assert(deps@.map_values(|d: LockedDependency| d.coords@) =~= lock_entries(
                resolved@,
                index@,
            ).map_values(|e: (Seq<char>, Seq<char>)| e.0));
        }
        LockFile { dependencies: deps }
    }
}

/// A `<dependency>` of a POM: the texts of its `groupId`, `artifactId`,
/// `version` and `scope` children, where present.
pub struct PomDependency {
    pub group: Option<String>,
    pub artifact: Option<String>,
    pub version: Option<String>,
    pub scope: Option<String>,
}

/// The view of an optional string.
pub open spec fn opt_view(o: Option<String>) -> Option<Seq<char>> {
    match o {
        Some(s) => Some(s@),
        None => None,
    }
}

/// What a POM dependency element gives: its `groupId`, `artifactId`,
/// `version` and `scope` texts.
pub type PomDependencyView = (Option<Seq<char>>, Option<Seq<char>>, Option<Seq<char>>, Option<Seq<char>>);

/// The view of a `PomDependency`.
pub open spec fn pom_dependency_view(d: PomDependency) -> PomDependencyView {
    (opt_view(d.group), opt_view(d.artifact), opt_view(d.version), opt_view(d.scope))
}

/// The views of POM dependencies.
pub open spec fn pom_dependency_views(deps: Seq<PomDependency>) -> Seq<PomDependencyView> {
    deps.map_values(|d: PomDependency| pom_dependency_view(d))
}

/// The coordinates a POM dependency leads to: when group, artifact and
/// version are all given and the scope is neither `test` nor `provided`.
pub open spec fn followed_coords(d: PomDependencyView) -> Option<(Seq<char>, Seq<char>, Seq<char>)> {
    match (d.0, d.1, d.2) {
        (Some(g), Some(a), Some(v)) => if d.3 != Some("test"@) && d.3 != Some("provided"@) {
            Some(coords_new(g, a, v))
        } else {
            None
        },
        _ => None,
    }
}

/// The coordinates that the dependencies `deps` lead to, in order.
pub open spec fn followed_all(deps: Seq<PomDependencyView>) -> Seq<(Seq<char>, Seq<char>, Seq<char>)>
    decreases deps.len(),
{
    if deps.len() == 0 {
        Seq::empty()
    } else {
        let rest = followed_all(deps.drop_last());
        match followed_coords(deps.last()) {
            Some(c) => rest.push(c),
            None => rest,
        }
    }
}

fn is_excluded_scope(scope: &Option<String>) -> (r: bool)
    ensures
        r == (opt_view(*scope) == Some("test"@) || opt_view(*scope) == Some("provided"@)),
{
    match scope {
        Some(s) => str_eq(s.as_str(), "test") || str_eq(s.as_str(), "provided"),
        None => false,
    }
}

/// The coordinates to resolve next from a POM's dependencies, in order.
pub fn followed_dependencies(deps: &Vec<PomDependency>) -> (r: Vec<MavenCoords>)
    ensures
        r@.map_values(|c: MavenCoords| c@) == followed_all(pom_dependency_views(deps@)),
{
    let mut out: Vec<MavenCoords> = Vec::new();
    let mut i: usize = 0;
    while i < deps.len()
        invariant
            i <= deps@.len(),
            out@.map_values(|c: MavenCoords| c@) == followed_all(
                pom_dependency_views(deps@.take(i as int)),
            ),
        decreases deps@.len() - i,
    {
        let d = &deps[i];
        assert(pom_dependency_views(deps@.take(i + 1)).drop_last() =~= pom_dependency_views(
            deps@.take(i as int),
        ));
        assert(pom_dependency_views(deps@.take(i + 1)).last() == pom_dependency_view(
            deps@[i as int],
        ));
        let ghost before = out@;
        match (&d.group, &d.artifact, &d.version) {
            (Some(g), Some(a), Some(v)) => {
                if !is_excluded_scope(&d.scope) {
                    let c = MavenCoords::new(g.as_str(), a.as_str(), v.as_str());
                    out.push(c);
                    assert(out@.map_values(|c: MavenCoords| c@) =~= before.map_values(
                        |c: MavenCoords| c@,
                    ).push(c@));
                }
            },
            _ => {},
        }
        i = i + 1;
    }
    assert(deps@.take(deps@.len() as int) =~= deps@);
    out
}


/// Coordinates whose parts hold no `:`, and whose group holds no `.` (as
/// every group that `MavenCoords::new` builds from a `:`-free group).
pub open spec fn plain_coords(c: (Seq<char>, Seq<char>, Seq<char>)) -> bool {
    !has_char(c.0, ':') && !has_char(c.1, ':') && !has_char(c.2, ':') && !has_char(c.0, '.')
}

/// Reading back the identifier of plain coordinates gives the same
/// coordinates.
pub proof fn law_parse_identifier(c: (Seq<char>, Seq<char>, Seq<char>))
    requires
        plain_coords(c),
    ensures
        parse_coords(identifier_of(c)) == Some(c),
{
    let dotted = replace_char(c.0, '/', '.');
    lemma_replace_chars_in(c.0, '/', '.', ':');
    lemma_split_three(dotted, c.1, c.2, ':');
    assert(identifier_of(c) =~= dotted + seq![':'] + c.1 + seq![':'] + c.2);
    lemma_replace_back(c.0, '/', '.');
}

/// The identifier of coordinates read from `group:artifact:version` is that
/// text again, when its group part holds no `/`.
pub proof fn law_identifier_parse(s: Seq<char>)
    requires
        parse_coords(s) is Some,
        !has_char(split_seq(s, ':')[0], '/'),
    ensures
        identifier_of(parse_coords(s)->0) == s,
{
    let p = split_seq(s, ':');
    lemma_replace_back(p[0], '.', '/');
    lemma_split_join(s, ':');
    assert(p.drop_last().drop_last() =~= seq![p[0]]);
    assert(p.drop_last().len() == 2);
    assert(join_with(p.drop_last(), seq![':']) == join_with(p.drop_last().drop_last(), seq![':'])
        + seq![':'] + p[1]);
    assert(identifier_of(parse_coords(s)->0) =~= p[0] + seq![':'] + p[1] + seq![':'] + p[2]);
}

/// The jar that restoring from the lock file links for an identifier is the
/// jar that resolving the coordinates puts into `lib`.
pub proof fn law_lock_restores_same_jar(c: (Seq<char>, Seq<char>, Seq<char>))
    requires
        plain_coords(c),
    ensures
        lock_jar_of(identifier_of(c)) == Some(jar_file_of(c.1, c.2)),
{
    let dotted = replace_char(c.0, '/', '.');
    lemma_replace_chars_in(c.0, '/', '.', ':');
    lemma_split_three(dotted, c.1, c.2, ':');
    assert(identifier_of(c) =~= dotted + seq![':'] + c.1 + seq![':'] + c.2);
}

/// Coordinates are taken up once: after an identifier is taken up, the set
/// holds it, so taking it up again reports it as known and changes nothing.
pub proof fn law_taken_up_once(ids: Seq<Seq<char>>, id: Seq<char>)
    ensures
        ({
            let after = if !ids.contains(id) {
                ids.push(id)
            } else {
                ids
            };
            after.contains(id)
        }),
{
    if !ids.contains(id) {
        assert(ids.push(id)[ids.len() as int] == id);
    }
}

/// Every lock entry names an identifier that was taken up, with the hash the
/// store index holds for it.
pub proof fn law_lock_entries_match_index(
    ids: Seq<Seq<char>>,
    index: Map<Seq<char>, Seq<char>>,
    i: int,
)
    requires
        0 <= i < lock_entries(ids, index).len(),
    ensures
        ids.contains(lock_entries(ids, index)[i].0),
        map_get(index, lock_entries(ids, index)[i].0) == Some(lock_entries(ids, index)[i].1),
    decreases ids.len(),
{
    let init = ids.drop_last();
    let rest = lock_entries(init, index);
    if i < rest.len() {
        law_lock_entries_match_index(init, index, i);
        let k = choose|k: int| 0 <= k < init.len() && init[k] == rest[i].0;
        assert(ids[k] == rest[i].0);
    } else {
        assert(ids[ids.len() - 1] == ids.last());
    }
}


/// A lock file names each identifier at most once, when the identifiers it is
/// made from are distinct (as those a `ResolvedSet` holds are).
pub proof fn law_lock_entries_distinct(ids: Seq<Seq<char>>, index: Map<Seq<char>, Seq<char>>)
    requires
        ids.no_duplicates(),
    ensures
        lock_entries(ids, index).map_values(|e: (Seq<char>, Seq<char>)| e.0).no_duplicates(),
    decreases ids.len(),
{
    if ids.len() > 0 {
        let init = ids.drop_last();
        let rest = lock_entries(init, index);
        law_lock_entries_distinct(init, index);
        match map_get(index, ids.last()) {
            Some(h) => {
                let keys = lock_entries(ids, index).map_values(|e: (Seq<char>, Seq<char>)| e.0);
                let rk = rest.map_values(|e: (Seq<char>, Seq<char>)| e.0);
                assert(keys =~= rk.push(ids.last()));
                assert forall|a: int, b: int|
                    0 <= a < keys.len() && 0 <= b < keys.len() && a != b implies keys[a]
                    != keys[b] by {
                    if a < rk.len() && b < rk.len() {
                    } else {
                        let k = if a < rk.len() { a } else { b };
                        if k < rk.len() {
                            law_lock_entries_match_index(init, index, k);
                            let m = choose|m: int| 0 <= m < init.len() && init[m] == rest[k].0;
                            assert(ids[m] == init[m]);
                            assert(ids[ids.len() - 1] == ids.last());
                        }
                    }
                }
            },
            None => {},
        }
    }
}


/// Where the Maven repository layout puts an artifact file: the repository
/// (the default one when none is given) without its trailing `/`, then the
/// group with each `.` turned into `/`, the artifact, the version, and
/// `artifact-version` followed by the extension, separated by `/`.
pub proof fn law_artifact_url_layout(
    repo: Option<Seq<char>>,
    g: Seq<char>,
    a: Seq<char>,
    v: Seq<char>,
    ext: Seq<char>,
)
    ensures
        artifact_url_of(repo, coords_new(g, a, v), ext) == trim_end_char(
            match repo {
                Some(r) => r,
                None => "https://repo1.maven.org/maven2/"@,
            },
            '/',
        ) + seq!['/'] + g.map_values(|c: char| if c == '.' { '/' } else { c }) + seq!['/'] + a
            + seq!['/'] + v + seq!['/'] + a + seq!['-'] + v + ext,
        forall|c: (Seq<char>, Seq<char>, Seq<char>)|
            artifact_url_of(repo, c, ext) == trim_end_char(
                match repo {
                    Some(r) => r,
                    None => "https://repo1.maven.org/maven2/"@,
                },
                '/',
            ) + seq!['/'] + c.0 + seq!['/'] + c.1 + seq!['/'] + c.2 + seq!['/'] + c.1 + seq!['-']
                + c.2 + ext,
{
    let base = match repo {
        Some(r) => r,
        None => "https://repo1.maven.org/maven2/"@,
    };
    let t = trim_end_char(base, '/');
    assert(replace_char(g, '.', '/') =~= g.map_values(|c: char| if c == '.' { '/' } else { c }));
    assert(artifact_url_of(repo, coords_new(g, a, v), ext) =~= t + seq!['/'] + replace_char(
        g,
        '.',
        '/',
    ) + seq!['/'] + a + seq!['/'] + v + seq!['/'] + a + seq!['-'] + v + ext);
    assert forall|c: (Seq<char>, Seq<char>, Seq<char>)|
        artifact_url_of(repo, c, ext) == t + seq!['/'] + c.0 + seq!['/'] + c.1 + seq!['/'] + c.2
            + seq!['/'] + c.1 + seq!['-'] + c.2 + ext by {
        assert(artifact_url_of(repo, c, ext) =~= t + seq!['/'] + c.0 + seq!['/'] + c.1 + seq!['/']
            + c.2 + seq!['/'] + c.1 + seq!['-'] + c.2 + ext);
    }
}

/// Trimming trailing `c` keeps a prefix of `s`: what is cut off is all `c`,
/// and what is kept does not end in `c`.
pub proof fn law_trim_end_char(s: Seq<char>, c: char)
    ensures
        trim_end_char(s, c).len() <= s.len(),
        trim_end_char(s, c) == s.subrange(0, trim_end_char(s, c).len() as int),
        forall|i: int| trim_end_char(s, c).len() <= i < s.len() ==> s[i] == c,
        trim_end_char(s, c).len() > 0 ==> trim_end_char(s, c).last() != c,
    decreases s.len(),
{
    if s.len() > 0 && s.last() == c {
        law_trim_end_char(s.drop_last(), c);
        let t = trim_end_char(s.drop_last(), c);
        assert(s.drop_last().subrange(0, t.len() as int) =~= s.subrange(0, t.len() as int));
        assert forall|i: int| t.len() <= i < s.len() implies s[i] == c by {
            if i < s.len() - 1 {
                assert(s.drop_last()[i] == s[i]);
            }
        }
    } else {
        assert(s.subrange(0, s.len() as int) =~= s);
    }
}

/// A POM dependency that gives group, artifact and version is followed, at
/// the coordinates `MavenCoords::new` builds from them, unless its scope is
/// `test` or `provided`; any other scope is followed just as an absent one.
pub proof fn law_followed_scopes(g: Seq<char>, a: Seq<char>, v: Seq<char>, scope: Seq<char>)
    ensures
        followed_coords((Some(g), Some(a), Some(v), None)) == Some(
            (g.map_values(|c: char| if c == '.' { '/' } else { c }), a, v),
        ),
        scope != "test"@ && scope != "provided"@ ==> followed_coords(
            (Some(g), Some(a), Some(v), Some(scope)),
        ) == followed_coords((Some(g), Some(a), Some(v), None)),
        followed_coords((Some(g), Some(a), Some(v), Some("test"@))) is None,
        followed_coords((Some(g), Some(a), Some(v), Some("provided"@))) is None,
        forall|s: Option<Seq<char>>|
            followed_coords((None, Some(a), Some(v), s)) is None && followed_coords(
                (Some(g), None, Some(v), s),
            ) is None && followed_coords((Some(g), Some(a), None, s)) is None,
{
    assert(replace_char(g, '.', '/') =~= g.map_values(|c: char| if c == '.' { '/' } else { c }));
}

/// The coordinates followed from a list of POM dependencies are exactly those
/// that some dependency of the list leads to.
pub proof fn law_followed_all_members(
    deps: Seq<PomDependencyView>,
    c: (Seq<char>, Seq<char>, Seq<char>),
)
    ensures
        followed_all(deps).contains(c) <==> exists|i: int|
            0 <= i < deps.len() && followed_coords(#[trigger] deps[i]) == Some(c),
    decreases deps.len(),
{
    if deps.len() > 0 {
        let init = deps.drop_last();
        law_followed_all_members(init, c);
        let rest = followed_all(init);
        if followed_all(deps).contains(c) {
            let k = choose|k: int| 0 <= k < followed_all(deps).len() && followed_all(deps)[k] == c;
            if k < rest.len() {
                assert(rest[k] == c);
                assert(rest.contains(c));
                let i = choose|i: int| 0 <= i < init.len() && followed_coords(#[trigger] init[i]) == Some(c);
                assert(deps[i] == init[i]);
            } else {
                assert(followed_coords(deps[deps.len() - 1]) == Some(c));
            }
        }
        if exists|i: int| 0 <= i < deps.len() && followed_coords(#[trigger] deps[i]) == Some(c) {
            let i = choose|i: int| 0 <= i < deps.len() && followed_coords(#[trigger] deps[i]) == Some(c);
            if i < init.len() {
                assert(init[i] == deps[i]);
                assert(rest.contains(c));
                let k = choose|k: int| 0 <= k < rest.len() && rest[k] == c;
                assert(followed_all(deps)[k] == c);
            } else {
                assert(followed_all(deps) == rest.push(c));
                assert(followed_all(deps)[rest.len() as int] == c);
            }
        }
    }
}

/// The lock file is complete: every identifier taken up that the store index
/// holds is in it, with the index's hash.
pub proof fn law_lock_entries_complete(
    ids: Seq<Seq<char>>,
    index: Map<Seq<char>, Seq<char>>,
    i: int,
)
    requires
        0 <= i < ids.len(),
        index.dom().contains(ids[i]),
    ensures
        lock_entries(ids, index).contains((ids[i], index[ids[i]])),
    decreases ids.len(),
{
    let init = ids.drop_last();
    let rest = lock_entries(init, index);
    let last = ids.len() - 1;
    if i < last {
        law_lock_entries_complete(init, index, i);
        assert(init[i] == ids[i]);
        let k = choose|k: int| 0 <= k < rest.len() && rest[k] == (ids[i], index[ids[i]]);
        assert(map_get(index, ids.last()) is Some ==> lock_entries(ids, index) == rest.push(
            (ids.last(), index[ids.last()]),
        ));
        assert(lock_entries(ids, index)[k] == (ids[i], index[ids[i]]));
    } else {
        assert(ids.last() == ids[i]);
        let e = lock_entries(ids, index);
        assert(e == rest.push((ids[i], index[ids[i]])));
        assert(e[rest.len() as int] == (ids[i], index[ids[i]]));
    }
}

} // verus!
