use spora::resolver::{
    default_repository_url, followed_dependencies, LockFile, LockedDependency, MavenCoords,
    PomDependency, ResolvedSet,
};
use spora::pom::{document_dependencies, pom_dependencies, pom_dependency_coords};
use spora::digest::{content_hash, to_hex};
use spora::store::{SporaStore, StoreIndex};
use spora::strmap::StringMap;

fn coords(g: &str, a: &str, v: &str) -> MavenCoords {
    MavenCoords::new(g, a, v)
}

#[test]
fn new_replaces_dots_in_group() {
    let c = coords("org.slf4j", "slf4j-api", "2.0.9");
    assert_eq!(c.group, "org/slf4j");
    assert_eq!(c.artifact, "slf4j-api");
    assert_eq!(c.version, "2.0.9");
}

#[test]
fn parse_needs_three_parts() {
    let c = MavenCoords::parse("com.google.guava:guava:33.0.0-jre").unwrap();
    assert_eq!(c.group, "com/google/guava");
    assert_eq!(c.artifact, "guava");
    assert_eq!(c.version, "33.0.0-jre");
    assert!(MavenCoords::parse("guava:33.0").is_none());
    assert!(MavenCoords::parse("a:b:c:d").is_none());
    assert!(MavenCoords::parse("").is_none());
    let e = MavenCoords::parse("a::c").unwrap();
    assert_eq!(e.artifact, "");
}

#[test]
fn names_and_keys() {
    let c = coords("org.slf4j", "slf4j-api", "2.0.9");
    assert_eq!(c.identifier(), "org.slf4j:slf4j-api:2.0.9");
    assert_eq!(c.store_key(), "org/slf4j:slf4j-api:2.0.9");
    assert_eq!(c.display_name(), "slf4j-api-2.0.9");
    assert_eq!(c.jar_file_name(), "slf4j-api-2.0.9.jar");
    assert_eq!(c.temp_file_name(), "spora_slf4j-api.jar");
}

#[test]
fn repository_urls() {
    let c = coords("junit", "junit", "4.13.2");
    assert_eq!(default_repository_url(), "https://repo1.maven.org/maven2/");
    assert_eq!(
        c.pom_url(None),
        "https://repo1.maven.org/maven2/junit/junit/4.13.2/junit-4.13.2.pom"
    );
    assert_eq!(
        c.jar_url(Some("https://repo.example.com/maven///")),
        "https://repo.example.com/maven/junit/junit/4.13.2/junit-4.13.2.jar"
    );
    assert_eq!(c.jar_url(Some("")), "/junit/junit/4.13.2/junit-4.13.2.jar");
}

#[test]
fn identifier_reads_back() {
    let c = coords("org.apache.commons", "commons-lang3", "3.14.0");
    let back = MavenCoords::parse(&c.identifier()).unwrap();
    assert_eq!(back.group, c.group);
    assert_eq!(back.artifact, c.artifact);
    assert_eq!(back.version, c.version);
    let s = "org.apache.commons:commons-lang3:3.14.0";
    assert_eq!(MavenCoords::parse(s).unwrap().identifier(), s);
}

#[test]
fn resolved_set_takes_up_once() {
    let mut set = ResolvedSet::new();
    assert!(set.insert("a:b:1".to_string()));
    assert!(set.insert("a:c:1".to_string()));
    assert!(!set.insert("a:b:1".to_string()));
    assert_eq!(set.len(), 2);
    assert!(set.contains("a:c:1"));
    assert!(!set.contains("a:d:1"));
    assert_eq!(set.get(0), "a:b:1");
}

#[test]
fn lock_file_from_resolved() {
    let mut index = StoreIndex::new();
    index.entries.insert("junit:junit:4.13.2".to_string(), "h1".to_string());
    index.entries.insert("org/slf4j:slf4j-api:2.0.9".to_string(), "h2".to_string());
    let mut set = ResolvedSet::new();
    set.insert("junit:junit:4.13.2".to_string());
    set.insert("org.slf4j:slf4j-api:2.0.9".to_string());
    set.insert("x:y:1".to_string());
    let lock = LockFile::from_resolved(&set, &index);
    assert_eq!(lock.dependencies.len(), 1);
    assert_eq!(lock.dependencies[0].coords, "junit:junit:4.13.2");
    assert_eq!(lock.dependencies[0].hash, "h1");
    assert_eq!(store_len(), 64);
}

#[test]
fn lock_entry_jar_names() {
    let d = LockedDependency { coords: "org.slf4j:slf4j-api:2.0.9".to_string(), hash: String::new() };
    assert_eq!(d.jar_file_name().unwrap(), "slf4j-api-2.0.9.jar");
    let bad = LockedDependency { coords: "slf4j-api:2.0.9".to_string(), hash: String::new() };
    assert!(bad.jar_file_name().is_none());
    let c = coords("org.slf4j", "slf4j-api", "2.0.9");
    let restored = LockedDependency { coords: c.identifier(), hash: String::new() };
    assert_eq!(restored.jar_file_name().unwrap(), c.jar_file_name());
}

fn dep(g: Option<&str>, a: Option<&str>, v: Option<&str>, s: Option<&str>) -> PomDependency {
    PomDependency {
        group: g.map(|x| x.to_string()),
        artifact: a.map(|x| x.to_string()),
        version: v.map(|x| x.to_string()),
        scope: s.map(|x| x.to_string()),
    }
}

#[test]
fn followed_dependencies_filter() {
    let deps = vec![
        dep(Some("a.b"), Some("c"), Some("1"), None),
        dep(Some("a"), Some("t"), Some("1"), Some("test")),
        dep(Some("a"), Some("p"), Some("1"), Some("provided")),
        dep(Some("a"), Some("nov"), None, None),
        dep(Some("x"), Some("y"), Some("2"), Some("runtime")),
    ];
    let out = followed_dependencies(&deps);
    assert_eq!(out.len(), 2);
    assert_eq!(out[0].group, "a/b");
    assert_eq!(out[1].artifact, "y");
}

const POM: &str = r#"<?xml version="1.0" encoding="UTF-8"?>
<project xmlns="http://maven.apache.org/POM/4.0.0">
  <modelVersion>4.0.0</modelVersion>
  <groupId>org.example</groupId>
  <artifactId>demo</artifactId>
  <version>1.0</version>
  <dependencies>
    <dependency>
      <groupId>org.slf4j</groupId>
      <artifactId>slf4j-api</artifactId>
      <version>2.0.9</version>
    </dependency>
    <dependency>
      <groupId>junit</groupId>
      <artifactId>junit</artifactId>
      <version>4.13.2</version>
      <scope>test</scope>
    </dependency>
    <dependency>
      <groupId>org.example</groupId>
      <artifactId>managed</artifactId>
    </dependency>
  </dependencies>
</project>
"#;

#[test]
fn pom_dependencies_read() {
    let deps = pom_dependencies(POM);
    assert_eq!(deps.len(), 3);
    assert_eq!(deps[0].group.as_deref(), Some("org.slf4j"));
    assert_eq!(deps[0].version.as_deref(), Some("2.0.9"));
    assert_eq!(deps[0].scope, None);
    assert_eq!(deps[1].scope.as_deref(), Some("test"));
    assert_eq!(deps[2].version, None);
    let coords = pom_dependency_coords(POM);
    assert_eq!(coords.len(), 1);
    assert_eq!(coords[0].group, "org/slf4j");
    assert_eq!(coords[0].artifact, "slf4j-api");
}

#[test]
fn pom_not_xml_gives_nothing() {
    assert!(pom_dependencies("<project><dependency>").is_empty());
    assert!(pom_dependency_coords("not xml").is_empty());
}

#[test]
fn string_map_insert_and_get() {
    let mut m = StringMap::new();
    m.insert("k".to_string(), "1".to_string());
    m.insert("j".to_string(), "2".to_string());
    m.insert("k".to_string(), "3".to_string());
    assert_eq!(m.len(), 2);
    assert_eq!(m.get("k").as_deref(), Some("3"));
    assert_eq!(m.get("j").as_deref(), Some("2"));
    assert_eq!(m.get("z"), None);
    let (k0, v0) = m.entry(0);
    assert_eq!(k0, "k");
    assert_eq!(v0, "3");
}

#[test]
fn store_with_coords_then_lookup() {
    let mut store = SporaStore::with_index("/tmp/store".to_string(), StoreIndex::new());
    let h = store.store_with_coords(b"abc", "g:a:1");
    assert_eq!(h, "ba7816bf8f01cfea414140de5dae2223b00361a396177a9cb410ff61f20015ad");
    assert_eq!(store.lookup("g:a:1").as_deref(), Some(h.as_str()));
    assert_eq!(store.lookup("g:a:2"), None);
    assert_eq!(
        store.store_file(b""),
        "e3b0c44298fc1c149afbf4c8996fb92427ae41e4649b934ca495991b7852b855"
    );
    let h2 = store.store_with_coords(b"", "g:a:1");
    assert_eq!(store.lookup("g:a:1").as_deref(), Some(h2.as_str()));
    assert_eq!(store.root, "/tmp/store");
}

#[test]
fn dependencies_of_parsed_document() {
    let doc = roxmltree::Document::parse(
        "<project><dependencies><dependency><groupId>g</groupId><artifactId>a</artifactId>\
         <version>1</version><scope>provided</scope></dependency></dependencies>\
         <dependency><artifactId>only</artifactId><groupId/></dependency></project>",
    )
    .unwrap();
    let deps = document_dependencies(&doc);
    assert_eq!(deps.len(), 2);
    assert_eq!(deps[0].group.as_deref(), Some("g"));
    assert_eq!(deps[0].scope.as_deref(), Some("provided"));
    assert_eq!(deps[1].artifact.as_deref(), Some("only"));
    assert_eq!(deps[1].group, None);
    assert_eq!(deps[1].version, None);
}

#[test]
fn nested_elements_are_not_children() {
    let deps = pom_dependencies(
        "<dependency><wrapper><groupId>inner</groupId></wrapper><groupId>outer</groupId></dependency>",
    );
    assert_eq!(deps.len(), 1);
    assert_eq!(deps[0].group.as_deref(), Some("outer"));
}

#[test]
fn hex_and_content_hash() {
    assert_eq!(to_hex(&[0x0f, 0xa0, 0x00, 0xff]), "0fa000ff");
    assert_eq!(to_hex(&[]), "");
    assert_eq!(
        content_hash(b"hello"),
        "2cf24dba5fb0a30e26e83b2ac5b9e29e1b161e5c1fa7425e73043362938b9824"
    );
}

fn store_len() -> usize {
    let store = SporaStore::with_index(String::new(), StoreIndex::new());
    store.store_file(b"x").len()
}
