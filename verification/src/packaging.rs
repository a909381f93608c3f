//! Packaging decisions: the flat jar's manifest, the run class path, and how
//! each entry of a dependency jar is merged into a fat jar.

use vstd::prelude::*;
use vstd::string::*;
use crate::text::{
    chars_of, chars_start_with, chars_end_with, starts_with, ends_with, contains_seq, contains_run,
    join_with, views, join_strings, obeys_eq_exact, trim_ws, trim_chars, string_of, trim_end_ws,
    is_white_space,
};

verus! {

/// What to do with an entry of a dependency jar when unpacking it for a fat
/// jar.
#[derive(PartialEq, Eq, Structural, Clone, Copy, Debug)]
pub enum UnpackAction {
    /// A signature file (`META-INF/*.SF`, `.DSA`, `.RSA`): left out.
    SkipSignature,
    /// A directory entry: the directory is created.
    CreateDir,
    /// A file not yet unpacked: written.
    Write,
    /// A service registration already present: the new content is appended
    /// unless it is already there.
    MergeService,
    /// Any other file already present: the first one stays.
    KeepExisting,
}

/// The entry `name` is a jar signature file.
pub open spec fn is_signature_name(name: Seq<char>) -> bool {
    starts_with(name, "META-INF/"@) && (ends_with(name, ".SF"@) || ends_with(name, ".DSA"@)
        || ends_with(name, ".RSA"@))
}

/// What unpacking does with the entry `name`, given whether its target exists.
pub open spec fn unpack_action_of(name: Seq<char>, exists: bool) -> UnpackAction {
    if is_signature_name(name) {
        UnpackAction::SkipSignature
    } else if ends_with(name, "/"@) {
        UnpackAction::CreateDir
    } else if !exists {
        UnpackAction::Write
    } else if starts_with(name, "META-INF/services/"@) {
        UnpackAction::MergeService
    } else {
        UnpackAction::KeepExisting
    }
}

/// The bytes appended to an existing service file: nothing when the new
/// content already occurs in it, else a newline and the new content.
pub open spec fn service_append_of(existing: Seq<u8>, new: Seq<u8>) -> Option<Seq<u8>> {
    if contains_seq(existing, new) {
        None
    } else {
        Some(seq![10u8] + new)
    }
}

/// `lib/`, the name and a space, for each name in turn.
pub open spec fn lib_entries(names: Seq<Seq<char>>) -> Seq<char>
    decreases names.len(),
{
    if names.len() == 0 {
        Seq::empty()
    } else {
        lib_entries(names.drop_last()) + "lib/"@ + names.last() + " "@
    }
}

/// The `Class-Path` of a flat jar: `lib/NAME ` for each jar, trimmed.
pub open spec fn flat_class_path_of(names: Seq<Seq<char>>) -> Seq<char> {
    trim_ws(lib_entries(names))
}

/// A flat jar's manifest.
pub open spec fn flat_manifest_of(main: Seq<char>, names: Seq<Seq<char>>) -> Seq<char> {
    "Manifest-Version: 1.0\nMain-Class: "@ + main + "\nClass-Path: "@ + flat_class_path_of(names)
        + "\n\n"@
}

/// The class path to run with: `out`, then each jar path, separated by `sep`.
pub open spec fn run_classpath_of(jars: Seq<Seq<char>>, sep: Seq<char>) -> Seq<char> {
    join_with(seq!["out"@] + jars, sep)
}

/// The class path entries of `names`.
pub open spec fn lib_paths(names: Seq<Seq<char>>) -> Seq<Seq<char>> {
    names.map_values(|n: Seq<char>| "lib/"@ + n)
}

proof fn lemma_lib_entries(names: Seq<Seq<char>>)
    requires
        names.len() > 0,
    ensures
        lib_entries(names) == join_with(lib_paths(names), " "@) + " "@,
    decreases names.len(),
{
    let init = names.drop_last();
    assert(lib_paths(names).drop_last() =~= lib_paths(init));
    if init.len() == 0 {
        assert(lib_entries(init) =~= Seq::<char>::empty());
    } else {
        lemma_lib_entries(init);
    }
}

proof fn lemma_join_first(parts: Seq<Seq<char>>, sep: Seq<char>)
    requires
        parts.len() > 0,
        parts[0].len() > 0,
    ensures
        join_with(parts, sep).len() > 0,
        join_with(parts, sep)[0] == parts[0][0],
    decreases parts.len(),
{
    if parts.len() > 1 {
        lemma_join_first(parts.drop_last(), sep);
    }
}

/// A flat jar's `Class-Path` lists `lib/NAME` for each jar, separated by
/// single spaces, for names that end in a character other than whitespace
/// (as every `.jar` file name does).
pub proof fn law_flat_class_path_lists_jars(names: Seq<Seq<char>>)
    requires
        forall|i: int|
            0 <= i < names.len() ==> (#[trigger] names[i]).len() > 0 && !is_white_space(
                names[i].last(),
            ),
    ensures
        flat_class_path_of(names) == join_with(lib_paths(names), " "@),
{
    reveal_strlit("lib/");
    reveal_strlit(" ");
    if names.len() == 0 {
        assert(lib_entries(names) =~= Seq::<char>::empty());
        assert(lib_paths(names) =~= Seq::<Seq<char>>::empty());
    } else {
        lemma_lib_entries(names);
        let paths = lib_paths(names);
        let j = join_with(paths, " "@);
        let e = j + " "@;
        assert(e.drop_last() =~= j);
        let last = names[names.len() - 1];
        assert(!is_white_space(last.last()));
        if paths.len() == 1 {
            assert(j == paths[0]);
        } else {
            assert(j == join_with(paths.drop_last(), " "@) + " "@ + paths.last());
        }
        assert(paths.last() == "lib/"@ + last);
        assert(j.last() == last.last());
        assert(e.last() == ' ');
        assert(is_white_space(' '));
        assert(trim_end_ws(e) == trim_end_ws(j));
        assert(j.len() > 0);
        assert(trim_end_ws(j) == j);
        assert(paths[0] == "lib/"@ + names[0]);
        lemma_join_first(paths, " "@);
        assert(j[0] == 'l');
    }
}

/// Whether the jar entry `name` is a signature file.
pub fn is_signature_entry(name: &str) -> (r: bool)
    ensures
        r == is_signature_name(name@),
{
    let n = chars_of(name);
    chars_start_with(n.as_slice(), chars_of("META-INF/").as_slice()) && (chars_end_with(
        n.as_slice(),
        chars_of(".SF").as_slice(),
    ) || chars_end_with(n.as_slice(), chars_of(".DSA").as_slice()) || chars_end_with(
        n.as_slice(),
        chars_of(".RSA").as_slice(),
    ))
}

/// What unpacking does with the entry `name` (see `unpack_action_of`).
pub fn unpack_action(name: &str, exists: bool) -> (r: UnpackAction)
    ensures
        r == unpack_action_of(name@, exists),
{
    if is_signature_entry(name) {
        return UnpackAction::SkipSignature;
    }
    let n = chars_of(name);
    if chars_end_with(n.as_slice(), chars_of("/").as_slice()) {
        UnpackAction::CreateDir
    } else if !exists {
        UnpackAction::Write
    } else if chars_start_with(n.as_slice(), chars_of("META-INF/services/").as_slice()) {
        UnpackAction::MergeService
    } else {
        UnpackAction::KeepExisting
    }
}

/// The bytes to append to an existing service file (see `service_append_of`).
/// Empty new content is not accepted: it has no place to be looked for.
pub fn service_append(existing: &[u8], new: &[u8]) -> (r: Option<Vec<u8>>)
    requires
        new@.len() > 0,
    ensures
        match r {
            Some(v) => service_append_of(existing@, new@) == Some(v@),
            None => service_append_of(existing@, new@) is None,
        },
{
    assert(obeys_eq_exact::<u8>());
    if contains_run(existing, new) {
        None
    } else {
        let mut out: Vec<u8> = Vec::new();
        out.push(10u8);
        let mut i: usize = 0;
        while i < new.len()
            invariant
                i <= new@.len(),
                out@ == seq![10u8] + new@.take(i as int),
            decreases new@.len() - i,
        {
            out.push(new[i]);
            assert(out@ =~= seq![10u8] + new@.take(i + 1));
            i = i + 1;
        }
        assert(new@.take(new@.len() as int) =~= new@);
        Some(out)
    }
}

/// The `Class-Path` of a flat jar for the jars `names`.
pub fn flat_class_path(names: &Vec<String>) -> (r: String)
    ensures
        r@ == flat_class_path_of(views(names@)),
{
    let mut all = String::new();
    let mut i: usize = 0;
    while i < names.len()
        invariant
            i <= names@.len(),
            all@ == lib_entries(views(names@.take(i as int))),
        decreases names@.len() - i,
    {
        all.append("lib/");
        all.append(names[i].as_str());
        all.append(" ");
        assert(views(names@.take(i + 1)).drop_last() =~= views(names@.take(i as int)));
        i = i + 1;
    }
    assert(names@.take(names@.len() as int) =~= names@);
    let cs = chars_of(all.as_str());
    let trimmed = trim_chars(cs.as_slice());
    string_of(trimmed.as_slice())
}

/// A flat jar's manifest: version, main class and class path.
pub fn flat_manifest(main: &str, names: &Vec<String>) -> (r: String)
    ensures
        r@ == flat_manifest_of(main@, views(names@)),
{
    let mut r = String::from_str("Manifest-Version: 1.0\nMain-Class: ");
    r.append(main);
    r.append("\nClass-Path: ");
    let cp = flat_class_path(names);
    r.append(cp.as_str());
    r.append("\n\n");
    r
}

/// The class path to run the program with.
pub fn run_classpath(jars: &Vec<String>, sep: &str) -> (r: String)
    ensures
        r@ == run_classpath_of(views(jars@), sep@),
{
    let mut all: Vec<String> = Vec::new();
    all.push(String::from_str("out"));
    let mut i: usize = 0;
    while i < jars.len()
        invariant
            i <= jars@.len(),
            views(all@) == seq!["out"@] + views(jars@.take(i as int)),
        decreases jars@.len() - i,
    {
        let ghost before = views(all@);
        all.push(jars[i].clone());
        assert(views(all@) =~= before.push(jars@[i as int]@));
        assert(views(jars@.take(i + 1)) =~= views(jars@.take(i as int)).push(jars@[i as int]@));
        i = i + 1;
    }
    assert(jars@.take(jars@.len() as int) =~= jars@);
    join_strings(&all, sep)
}

/// Merging a service registration is idempotent: once its content has been
/// appended, merging the same content again appends nothing.
pub proof fn law_service_merge_idempotent(existing: Seq<u8>, new: Seq<u8>)
    ensures
        ({
            let after = match service_append_of(existing, new) {
                Some(extra) => existing + extra,
                None => existing,
            };
            service_append_of(after, new) is None
        }),
{
    match service_append_of(existing, new) {
        Some(extra) => {
            let after = existing + extra;
            let i: int = existing.len() as int + 1;
            assert(after.subrange(i, i + new.len()) =~= new);
        },
        None => {},
    }
}

} // verus!
