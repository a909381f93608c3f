use spora::builder::{BuildStep, Builder, LibraryJar, SourceFile};
use spora::strmap::StringMap;
use spora::packaging::{
    flat_class_path, flat_manifest, run_classpath, service_append, unpack_action, is_signature_entry,
    UnpackAction,
};

fn lib(name: &str, hash: &str) -> LibraryJar {
    LibraryJar { file_name: name.to_string(), path: format!("lib/{}", name), hash: hash.to_string() }
}

fn src(path: &str, hash: &str, class_exists: bool) -> SourceFile {
    SourceFile { path: path.to_string(), hash: hash.to_string(), class_exists }
}

#[test]
fn first_build_compiles_everything() {
    let libs = vec![lib("a.jar", "ha"), lib("b.jar", "hb")];
    let sources = vec![src("src/main/java/Main.java", "h1", false), src("src/main/java/X.java", "h2", false)];
    let plan = Builder::plan(&libs, "out", ":", &StringMap::new(), &sources);
    assert_eq!(plan.classpath, "lib/a.jar:lib/b.jar:out");
    assert!(plan.needs_full_rebuild);
    assert_eq!(plan.changed_libraries.len(), 2);
    assert_eq!(plan.to_compile, vec!["src/main/java/Main.java".to_string(), "src/main/java/X.java".to_string()]);
    assert_eq!(plan.new_fingerprints.len(), 4);
    assert_eq!(plan.new_fingerprints.get("lib:a.jar").as_deref(), Some("ha"));
    assert_eq!(plan.new_fingerprints.get("src/main/java/X.java").as_deref(), Some("h2"));
}

#[test]
fn rebuild_after_success_compiles_nothing() {
    let libs = vec![lib("a.jar", "ha")];
    let sources = vec![src("A.java", "h1", true), src("B.java", "h2", true)];
    let first = Builder::plan(&libs, "out", ";", &StringMap::new(), &sources);
    let second = Builder::plan(&libs, "out", ";", &first.new_fingerprints, &sources);
    assert!(!second.needs_full_rebuild);
    assert!(second.changed_libraries.is_empty());
    assert!(second.to_compile.is_empty());
    assert_eq!(second.classpath, "lib/a.jar;out");
}

#[test]
fn changed_source_or_missing_class_is_recompiled() {
    let mut old = StringMap::new();
    old.insert("lib:a.jar".to_string(), "ha".to_string());
    old.insert("A.java".to_string(), "h1".to_string());
    old.insert("B.java".to_string(), "h2".to_string());
    old.insert("C.java".to_string(), "h3".to_string());
    let libs = vec![lib("a.jar", "ha")];
    let sources = vec![src("A.java", "h1", true), src("B.java", "changed", true), src("C.java", "h3", false)];
    let plan = Builder::plan(&libs, "out", ":", &old, &sources);
    assert!(!plan.needs_full_rebuild);
    assert_eq!(plan.to_compile, vec!["B.java".to_string(), "C.java".to_string()]);
    assert_eq!(plan.new_fingerprints.get("B.java").as_deref(), Some("changed"));
}

#[test]
fn changed_library_rebuilds_all() {
    let mut old = StringMap::new();
    old.insert("lib:a.jar".to_string(), "old".to_string());
    old.insert("A.java".to_string(), "h1".to_string());
    let libs = vec![lib("a.jar", "new")];
    let sources = vec![src("A.java", "h1", true)];
    let plan = Builder::plan(&libs, "out", ":", &old, &sources);
    assert!(plan.needs_full_rebuild);
    assert_eq!(plan.changed_libraries, vec!["lib:a.jar".to_string()]);
    assert_eq!(plan.to_compile, vec!["A.java".to_string()]);
}

#[test]
fn no_libraries_classpath_is_out_dir() {
    let plan = Builder::plan(&Vec::new(), "build/out", ":", &StringMap::new(), &Vec::new());
    assert_eq!(plan.classpath, "build/out");
    assert!(plan.to_compile.is_empty());
    assert!(!plan.needs_full_rebuild);
}

#[test]
fn source_directories_and_extensions() {
    assert_eq!(Builder::source_dir_name("java"), "java");
    assert_eq!(Builder::source_dir_name("kotlin"), "kt");
    assert_eq!(Builder::source_dir_name("scala"), "unknown");
    assert_eq!(Builder::source_extension("kotlin"), "kt");
    assert_eq!(Builder::source_extension("java"), "java");
    assert_eq!(Builder::source_extension("groovy"), "java");
}

#[test]
fn hash_file_and_lock_check() {
    let h = Builder::hash_file(b"abc");
    assert_eq!(h, "ba7816bf8f01cfea414140de5dae2223b00361a396177a9cb410ff61f20015ad");
    assert!(Builder::is_lock_unchanged(Some(b"abc"), Some(h.as_str())));
    assert!(!Builder::is_lock_unchanged(Some(b"abd"), Some(h.as_str())));
    assert!(!Builder::is_lock_unchanged(None, Some(h.as_str())));
    assert!(!Builder::is_lock_unchanged(Some(b"abc"), None));
    assert!(!Builder::is_lock_unchanged(Some(b"abc"), Some("")));
}

#[test]
fn unpack_actions() {
    assert!(is_signature_entry("META-INF/CERT.SF"));
    assert!(is_signature_entry("META-INF/CERT.RSA"));
    assert!(!is_signature_entry("META-INF/MANIFEST.MF"));
    assert_eq!(unpack_action("META-INF/X.DSA", false), UnpackAction::SkipSignature);
    assert_eq!(unpack_action("com/example/", true), UnpackAction::CreateDir);
    assert_eq!(unpack_action("com/example/A.class", false), UnpackAction::Write);
    assert_eq!(unpack_action("com/example/A.class", true), UnpackAction::KeepExisting);
    assert_eq!(unpack_action("META-INF/services/java.sql.Driver", true), UnpackAction::MergeService);
    assert_eq!(unpack_action("META-INF/services/java.sql.Driver", false), UnpackAction::Write);
}

#[test]
fn service_files_merge_once() {
    let existing = b"org.a.Driver".to_vec();
    assert_eq!(service_append(&existing, b"org.a.Driver"), None);
    assert_eq!(service_append(&existing, b"Driver"), None);
    let extra = service_append(&existing, b"org.b.Driver").unwrap();
    assert_eq!(extra, b"\norg.b.Driver".to_vec());
    let mut merged = existing.clone();
    merged.extend_from_slice(&extra);
    assert_eq!(service_append(&merged, b"org.b.Driver"), None);
    assert_eq!(service_append(b"", b"x").unwrap(), b"\nx".to_vec());
}

#[test]
fn flat_jar_manifest() {
    let names = vec!["a.jar".to_string(), "b.jar".to_string()];
    assert_eq!(flat_class_path(&names), "lib/a.jar lib/b.jar");
    assert_eq!(
        flat_manifest("com.example.Main", &names),
        "Manifest-Version: 1.0\nMain-Class: com.example.Main\nClass-Path: lib/a.jar lib/b.jar\n\n"
    );
    assert_eq!(flat_manifest("M", &Vec::new()), "Manifest-Version: 1.0\nMain-Class: M\nClass-Path: \n\n");
    assert_eq!(flat_class_path(&vec!["odd \t".to_string()]), "lib/odd");
}

#[test]
fn run_classpath_starts_with_out() {
    assert_eq!(run_classpath(&Vec::new(), ":"), "out");
    let jars = vec!["lib/a.jar".to_string(), "lib/b.jar".to_string()];
    assert_eq!(run_classpath(&jars, ";"), "out;lib/a.jar;lib/b.jar");
}

#[test]
fn unicode_whitespace_is_trimmed() {
    assert_eq!(flat_class_path(&vec!["x.jar\u{3000}\u{a0}".to_string()]), "lib/x.jar");
    assert_eq!(flat_class_path(&vec!["x.jar\u{200b}".to_string()]), "lib/x.jar\u{200b}");
}

#[test]
fn duplicate_source_paths_with_different_hashes_recompile() {
    let sources = vec![src("A.java", "h1", true), src("A.java", "h2", true)];
    let first = Builder::plan(&Vec::new(), "out", ":", &StringMap::new(), &sources);
    let second = Builder::plan(&Vec::new(), "out", ":", &first.new_fingerprints, &sources);
    assert_eq!(second.to_compile, vec!["A.java".to_string()]);
}

#[test]
fn steps_after_the_plan() {
    let sources = vec![src("A.java", "h1", true)];
    let plan = Builder::plan(&Vec::new(), "out", ":", &StringMap::new(), &sources);
    assert_eq!(Builder::next_step(&plan, None), BuildStep::Compile);
    assert_eq!(Builder::next_step(&plan, Some(true)), BuildStep::RecordAndPackage);
    assert_eq!(Builder::next_step(&plan, Some(false)), BuildStep::Stop);
    let again = Builder::plan(&Vec::new(), "out", ":", &plan.new_fingerprints, &sources);
    assert_eq!(Builder::next_step(&again, None), BuildStep::UpToDate);
}
