//! Incremental compilation planning: which sources to recompile, the class
//! path, and the fingerprints to record after a successful build.

use vstd::prelude::*;
use vstd::string::*;
use crate::strmap::{StringMap, map_get, pairs_to_map, keys_unique, lemma_pairs_dom, lemma_pairs_value};
use crate::text::{join_with, views, join_strings, str_eq};
use crate::digest::{content_hash, content_hash_of};

verus! {

/// Compiles and packages a module.
pub struct Builder;

/// A `.jar` file found in the module's `lib` directory.
pub struct LibraryJar {
    /// The file name, such as `guava-33.0.jar`.
    pub file_name: String,
    /// The path handed to the compiler's class path.
    pub path: String,
    /// The hex SHA-256 of the file's content.
    pub hash: String,
}

/// A source file of the module.
pub struct SourceFile {
    /// The path, which is also its fingerprint key.
    pub path: String,
    /// The hex SHA-256 of the file's content.
    pub hash: String,
    /// Whether the class file compiled from it exists in the output directory.
    pub class_exists: bool,
}

/// What a build has to do.
pub struct BuildPlan {
    /// The compiler's class path: the library jars, then the output directory.
    pub classpath: String,
    /// The fingerprint keys of libraries whose hash differs from the recorded one.
    pub changed_libraries: Vec<String>,
    /// Whether a library changed, so that every source is recompiled.
    pub needs_full_rebuild: bool,
    /// The sources to hand to the compiler, in the order given.
    pub to_compile: Vec<String>,
    /// The fingerprints to record once the compiler succeeds.
    pub new_fingerprints: StringMap,
}

/// The fingerprint key of a library jar: `lib:` and its file name.
pub open spec fn lib_key(name: Seq<char>) -> Seq<char> {
    seq!['l', 'i', 'b', ':'] + name
}

/// The fingerprints of the library jars; a later jar wins on a repeated key.
pub open spec fn library_fingerprints(libs: Seq<LibraryJar>) -> Map<Seq<char>, Seq<char>>
    decreases libs.len(),
{
    if libs.len() == 0 {
        Map::empty()
    } else {
        library_fingerprints(libs.drop_last()).insert(
            lib_key(libs.last().file_name@),
            libs.last().hash@,
        )
    }
}

/// The fingerprints of the sources; a later source wins on a repeated path.
pub open spec fn source_fingerprints(srcs: Seq<SourceFile>) -> Map<Seq<char>, Seq<char>>
    decreases srcs.len(),
{
    if srcs.len() == 0 {
        Map::empty()
    } else {
        source_fingerprints(srcs.drop_last()).insert(srcs.last().path@, srcs.last().hash@)
    }
}

/// Library key `k` has a hash other than the one recorded in `old`.
pub open spec fn library_changed(
    old: Map<Seq<char>, Seq<char>>,
    libs: Map<Seq<char>, Seq<char>>,
    k: Seq<char>,
) -> bool {
    libs.dom().contains(k) && map_get(old, k) != Some(libs[k])
}

/// Some library has a hash other than the one recorded in `old`.
pub open spec fn any_library_changed(
    old: Map<Seq<char>, Seq<char>>,
    libs: Map<Seq<char>, Seq<char>>,
) -> bool {
    exists|k: Seq<char>| library_changed(old, libs, k)
}

/// A source must be recompiled: everything is, or its hash is not the recorded
/// one, or its class file is missing.
pub open spec fn source_stale(old: Map<Seq<char>, Seq<char>>, s: SourceFile, full: bool) -> bool {
    full || map_get(old, s.path@) != Some(s.hash@) || !s.class_exists
}

/// The paths of the stale sources, in order.
pub open spec fn stale_sources(
    srcs: Seq<SourceFile>,
    old: Map<Seq<char>, Seq<char>>,
    full: bool,
) -> Seq<Seq<char>>
    decreases srcs.len(),
{
    if srcs.len() == 0 {
        Seq::empty()
    } else {
        let rest = stale_sources(srcs.drop_last(), old, full);
        if source_stale(old, srcs.last(), full) {
            rest.push(srcs.last().path@)
        } else {
            rest
        }
    }
}

/// The class path elements: each library jar's path, then the output directory.
pub open spec fn classpath_elements(libs: Seq<LibraryJar>, out_dir: Seq<char>) -> Seq<Seq<char>> {
    libs.map_values(|l: LibraryJar| l.path@).push(out_dir)
}

proof fn lemma_union_insert(
    a: Map<Seq<char>, Seq<char>>,
    b: Map<Seq<char>, Seq<char>>,
    k: Seq<char>,
    v: Seq<char>,
)
    ensures
        a.union_prefer_right(b.insert(k, v)) =~= a.union_prefer_right(b).insert(k, v),
{
}


proof fn lemma_source_fingerprint(srcs: Seq<SourceFile>, i: int)
    requires
        0 <= i < srcs.len(),
    ensures
        source_fingerprints(srcs).dom().contains(srcs[i].path@),
        exists|j: int|
            0 <= j < srcs.len() && srcs[j].path@ == srcs[i].path@ && source_fingerprints(srcs)[srcs[i].path@]
                == #[trigger] srcs[j].hash@,
    decreases srcs.len(),
{
    let init = srcs.drop_last();
    let last = srcs.len() - 1;
    if i < last && srcs[last].path@ != srcs[i].path@ {
        lemma_source_fingerprint(init, i);
        assert(init[i] == srcs[i]);
        let j = choose|j: int|
            0 <= j < init.len() && init[j].path@ == init[i].path@ && source_fingerprints(init)[init[i].path@]
                == #[trigger] init[j].hash@;
        assert(srcs[j] == init[j]);
    } else {
        assert(srcs[last].path@ == srcs[i].path@);
        assert(source_fingerprints(srcs)[srcs[i].path@] == srcs[last].hash@);
    }
}

proof fn lemma_nothing_stale(srcs: Seq<SourceFile>, old: Map<Seq<char>, Seq<char>>)
    requires
        forall|i: int| 0 <= i < srcs.len() ==> !source_stale(old, #[trigger] srcs[i], false),
    ensures
        stale_sources(srcs, old, false) == Seq::<Seq<char>>::empty(),
    decreases srcs.len(),
{
    if srcs.len() > 0 {
        let init = srcs.drop_last();
        assert forall|i: int| 0 <= i < init.len() implies !source_stale(
            old,
            #[trigger] init[i],
            false,
        ) by {
            assert(init[i] == srcs[i]);
        }
        lemma_nothing_stale(init, old);
        assert(!source_stale(old, srcs[srcs.len() - 1], false));
    }
}

/// A build right after a successful one, with the same libraries and sources
/// and every class file in place, finds no library changed and nothing to
/// recompile: the fingerprints the first build records are exactly what the
/// second one checks against. Left out are the inputs on which a source's
/// recorded fingerprint is not its own hash: two sources at one path with
/// different hashes, or a source path that is also a library key with another
/// hash (a directory walk gives neither).
pub proof fn law_rebuild_is_noop(libs: Seq<LibraryJar>, sources: Seq<SourceFile>)
    requires
        forall|i: int| 0 <= i < sources.len() ==> (#[trigger] sources[i]).class_exists,
        forall|a: int, b: int|
            0 <= a < sources.len() && 0 <= b < sources.len() && #[trigger] sources[a].path@
                == #[trigger] sources[b].path@ && !library_fingerprints(libs).dom().contains(
                sources[a].path@,
            ) ==> sources[a].hash@ == sources[b].hash@,
        forall|i: int|
            0 <= i < sources.len() && library_fingerprints(libs).dom().contains(
                (#[trigger] sources[i]).path@,
            ) ==> library_fingerprints(libs)[sources[i].path@] == sources[i].hash@,
    ensures
        ({
            let recorded = source_fingerprints(sources).union_prefer_right(
                library_fingerprints(libs),
            );
            &&& !any_library_changed(recorded, library_fingerprints(libs))
            &&& stale_sources(sources, recorded, false) == Seq::<Seq<char>>::empty()
        }),
{
    let lib_map = library_fingerprints(libs);
    let recorded = source_fingerprints(sources).union_prefer_right(lib_map);
    assert forall|i: int| 0 <= i < sources.len() implies !source_stale(
        recorded,
        #[trigger] sources[i],
        false,
    ) by {
        lemma_source_fingerprint(sources, i);
        if !lib_map.dom().contains(sources[i].path@) {
            let j = choose|j: int|
                0 <= j < sources.len() && sources[j].path@ == sources[i].path@ && source_fingerprints(
                    sources,
                )[sources[i].path@] == #[trigger] sources[j].hash@;
            assert(sources[i].hash@ == sources[j].hash@);
        }
    }
    lemma_nothing_stale(sources, recorded);
}

/// When a library has changed, every source is recompiled, in order.
pub proof fn law_full_rebuild_compiles_all(sources: Seq<SourceFile>, old: Map<Seq<char>, Seq<char>>)
    ensures
        stale_sources(sources, old, true) == sources.map_values(|s: SourceFile| s.path@),
    decreases sources.len(),
{
    if sources.len() > 0 {
        law_full_rebuild_compiles_all(sources.drop_last(), old);
        assert(sources.map_values(|s: SourceFile| s.path@) =~= sources.drop_last().map_values(
            |s: SourceFile| s.path@,
        ).push(sources.last().path@));
    } else {
        assert(sources.map_values(|s: SourceFile| s.path@) =~= Seq::<Seq<char>>::empty());
    }
}

/// What a build does once its plan is made.
#[derive(PartialEq, Eq, Structural, Clone, Copy, Debug)]
pub enum BuildStep {
    /// Nothing to compile: the build is done.
    UpToDate,
    /// Run the compiler on the planned sources.
    Compile,
    /// The compiler succeeded: record the new fingerprints and package.
    RecordAndPackage,
    /// The compiler failed: record nothing, package nothing.
    Stop,
}

/// The step after a plan, given the compiler's outcome once it has run.
pub open spec fn next_step_of(nothing_to_compile: bool, compiled: Option<bool>) -> BuildStep {
    if nothing_to_compile {
        BuildStep::UpToDate
    } else {
        match compiled {
            None => BuildStep::Compile,
            Some(true) => BuildStep::RecordAndPackage,
            Some(false) => BuildStep::Stop,
        }
    }
}

impl Builder {
    /// The directory under `src/main` that holds a language's sources.
    pub fn source_dir_name(lang: &str) -> (r: &'static str)
        ensures
            r@ == (if lang@ == "java"@ {
                "java"@
            } else if lang@ == "kotlin"@ {
                "kt"@
            } else {
                "unknown"@
            }),
    {
        if str_eq(lang, "java") {
            "java"
        } else if str_eq(lang, "kotlin") {
            "kt"
        } else {
            "unknown"
        }
    }

    /// The extension of a language's source files: `kt` for Kotlin, else `java`.
    pub fn source_extension(lang: &str) -> (r: &'static str)
        ensures
            r@ == (if lang@ == "kotlin"@ {
                "kt"@
            } else {
                "java"@
            }),
    {
        if str_eq(lang, "kotlin") {
            "kt"
        } else {
            "java"
        }
    }

    /// Whether the lock file is unchanged since its hash was last recorded:
    /// there is a lock file, a recorded hash, and the hash of the lock file's
    /// content equals it.
    pub fn is_lock_unchanged(lock_content: Option<&[u8]>, recorded: Option<&str>) -> (r: bool)
        ensures
            r == (match (lock_content, recorded) {
                (Some(c), Some(h)) => content_hash_of(c@) == h@,
                _ => false,
            }),
    {
        match (lock_content, recorded) {
            (Some(c), Some(h)) => {
                let current = content_hash(c);
                str_eq(current.as_str(), h)
            },
            _ => false,
        }
    }

    /// The step after `plan`: done when nothing is to be compiled; else
    /// compile, and once the compiler has run (`compiled` is its success),
    /// record and package on success only.
    pub fn next_step(plan: &BuildPlan, compiled: Option<bool>) -> (r: BuildStep)
        ensures
            r == next_step_of(plan.to_compile@.len() == 0, compiled),
    {
        if plan.to_compile.len() == 0 {
            BuildStep::UpToDate
        } else {
            match compiled {
                None => BuildStep::Compile,
                Some(true) => BuildStep::RecordAndPackage,
                Some(false) => BuildStep::Stop,
            }
        }
    }

    /// The fingerprint of a file's content: its lowercase hex SHA-256.
    pub fn hash_file(content: &[u8]) -> (r: String)
        ensures
            r@ == content_hash_of(content@),
            r@.len() == 64,
    {
        content_hash(content)
    }

    /// Decides what a build does: the class path, whether a library changed
    /// since the fingerprints `old` were recorded, which sources to recompile
    /// and which fingerprints to record afterwards.
    pub fn plan(
        libs: &Vec<LibraryJar>,
        out_dir: &str,
        separator: &str,
        old: &StringMap,
        sources: &Vec<SourceFile>,
    ) -> (r: BuildPlan)
        ensures
            r.classpath@ == join_with(classpath_elements(libs@, out_dir@), separator@),
            r.needs_full_rebuild == any_library_changed(old@, library_fingerprints(libs@)),
            forall|k: Seq<char>|
                views(r.changed_libraries@).contains(k) <==> library_changed(
                    old@,
                    library_fingerprints(libs@),
                    k,
                ),
            views(r.to_compile@) == stale_sources(sources@, old@, r.needs_full_rebuild),
            r.new_fingerprints@ == source_fingerprints(sources@).union_prefer_right(
                library_fingerprints(libs@),
            ),
    {
        let mut elements: Vec<String> = Vec::new();
        let mut lib_fps = StringMap::new();
        let mut i: usize = 0;
        while i < libs.len()
            invariant
                i <= libs@.len(),
                views(elements@) == libs@.take(i as int).map_values(|l: LibraryJar| l.path@),
                lib_fps@ == library_fingerprints(libs@.take(i as int)),
            decreases libs@.len() - i,
        {
            let lib = &libs[i];
            let ghost old_el = views(elements@);
            elements.push(lib.path.clone());
            assert(views(elements@) =~= old_el.push(lib.path@));
            let mut key = String::from_str("lib:");
            proof {
                reveal_strlit("lib:");
            }
            key.append(lib.file_name.as_str());
            assert(key@ =~= lib_key(lib.file_name@));
            lib_fps.insert(key, lib.hash.clone());
            assert(libs@.take(i + 1).drop_last() =~= libs@.take(i as int));
            assert(libs@.take(i + 1).last() == libs@[i as int]);
            assert(views(elements@) =~= libs@.take(i + 1).map_values(|l: LibraryJar| l.path@));
            i = i + 1;
        }
        assert(libs@.take(libs@.len() as int) =~= libs@);
        elements.push(String::from_str(out_dir));
        assert(views(elements@) =~= classpath_elements(libs@, out_dir@));
        let classpath = join_strings(&elements, separator);

        let ghost lib_map = library_fingerprints(libs@);
        let n = lib_fps.len();
        let ghost pairs = lib_fps.pairs();
        let mut changed: Vec<String> = Vec::new();
        let mut j: usize = 0;
        while j < n
            invariant
                n == pairs.len(),
                pairs == lib_fps.pairs(),
                keys_unique(pairs),
                lib_fps@ == pairs_to_map(pairs),
                lib_fps@ == lib_map,
                j <= n,
                forall|k: Seq<char>|
                    views(changed@).contains(k) <==> exists|m: int|
                        0 <= m < j && #[trigger] pairs[m].0@ == k && map_get(old@, k) != Some(
                            pairs[m].1@,
                        ),
            decreases n - j,
        {
            let (k, v) = lib_fps.entry(j);
            let differs = match old.get(k.as_str()) {
                Some(o) => !(o == *v),
                None => true,
            };
            let ghost before = views(changed@);
            if differs {
                changed.push(k.clone());
                assert(views(changed@) =~= before.push(k@));
            } else {
                assert(views(changed@) =~= before);
            }
            assert(differs == (map_get(old@, pairs[j as int].0@) != Some(pairs[j as int].1@)));
            assert forall|key: Seq<char>|
                views(changed@).contains(key) <==> exists|m: int|
                    0 <= m < j + 1 && #[trigger] pairs[m].0@ == key && map_get(old@, key) != Some(
                        pairs[m].1@,
                    ) by {
                if views(changed@).contains(key) {
                    let idx = choose|idx: int|
                        0 <= idx < views(changed@).len() && views(changed@)[idx] == key;
                    if idx < before.len() {
                        assert(before[idx] == key);
                        assert(before.contains(key));
                    } else {
                        assert(pairs[j as int].0@ == key);
                    }
                }
                if exists|m: int|
                    0 <= m < j + 1 && #[trigger] pairs[m].0@ == key && map_get(old@, key) != Some(
                        pairs[m].1@,
                    ) {
                    let m = choose|m: int|
                        0 <= m < j + 1 && #[trigger] pairs[m].0@ == key && map_get(old@, key)
                            != Some(pairs[m].1@);
                    if m < j {
                        assert(before.contains(key));
                        let idx = choose|idx: int| 0 <= idx < before.len() && before[idx] == key;
                        assert(views(changed@)[idx] == key);
                    } else {
                        assert(views(changed@)[views(changed@).len() - 1] == key);
                    }
                }
            }
            j = j + 1;
        }
        assert forall|k: Seq<char>|
            views(changed@).contains(k) <==> library_changed(old@, lib_map, k) by {
            lemma_pairs_dom(pairs, k);
            if exists|m: int| 0 <= m < pairs.len() && #[trigger] pairs[m].0@ == k {
                let m = choose|m: int| 0 <= m < pairs.len() && #[trigger] pairs[m].0@ == k;
                lemma_pairs_value(pairs, m);
                if views(changed@).contains(k) {
                    let m2 = choose|m2: int|
                        0 <= m2 < n && #[trigger] pairs[m2].0@ == k && map_get(old@, k) != Some(
                            pairs[m2].1@,
                        );
                    assert(m2 == m);
                }
            }
        }
        let full = changed.len() > 0;
        assert(full == any_library_changed(old@, lib_map)) by {
            if full {
                assert(views(changed@).contains(views(changed@)[0]));
            } else {
                if any_library_changed(old@, lib_map) {
                    let k = choose|k: Seq<char>| library_changed(old@, lib_map, k);
                    assert(views(changed@).contains(k));
                }
            }
        }

        let mut to_compile: Vec<String> = Vec::new();
        let mut fps = StringMap::new();
        let mut s: usize = 0;
        while s < sources.len()
            invariant
                s <= sources@.len(),
                views(to_compile@) == stale_sources(sources@.take(s as int), old@, full),
                fps@ == source_fingerprints(sources@.take(s as int)),
            decreases sources@.len() - s,
        {
            let src = &sources[s];
            let stale = full || match old.get(src.path.as_str()) {
                Some(o) => !(o == src.hash),
                None => true,
            } || !src.class_exists;
            assert(sources@.take(s + 1).drop_last() =~= sources@.take(s as int));
            if stale {
                to_compile.push(src.path.clone());
                assert(views(to_compile@) =~= stale_sources(sources@.take(s + 1), old@, full));
            }
            fps.insert(src.path.clone(), src.hash.clone());
            s = s + 1;
        }
        assert(sources@.take(sources@.len() as int) =~= sources@);

        let ghost src_map = source_fingerprints(sources@);
        let mut t: usize = 0;
        while t < n
            invariant
                n == pairs.len(),
                pairs == lib_fps.pairs(),
                lib_fps@ == lib_map,
                lib_map == pairs_to_map(pairs),
                t <= n,
                fps@ == src_map.union_prefer_right(pairs_to_map(pairs.take(t as int))),
            decreases n - t,
        {
            let (k, v) = lib_fps.entry(t);
            proof {
                assert(pairs.take(t + 1).drop_last() =~= pairs.take(t as int));
                lemma_union_insert(src_map, pairs_to_map(pairs.take(t as int)), k@, v@);
            }
            fps.insert(k.clone(), v.clone());
            t = t + 1;
        }
        assert(pairs.take(n as int) =~= pairs);
        BuildPlan {
            classpath,
            changed_libraries: changed,
            needs_full_rebuild: full,
            to_compile,
            new_fingerprints: fps,
        }
    }
}

} // verus!
