use spora::toolchain::{ArchiveKind, Json, Toolchain, ToolchainError};
use spora::config::{
    DependencyConfig, PackConfig, PackMode, RuntimeConfig, SporaConfig, ToolchainConfig,
};
use spora::platform::Platform;
use spora::cli::Command;

fn obj(members: Vec<(&str, Json)>) -> Json {
    Json::Object(members.into_iter().map(|(k, v)| (k.to_string(), v)).collect())
}

fn s(x: &str) -> Json {
    Json::Str(x.to_string())
}

fn catalog() -> Json {
    obj(vec![
        (
            "java",
            obj(vec![(
                "jvm",
                obj(vec![(
                    "temurin",
                    obj(vec![
                        (
                            "21",
                            obj(vec![(
                                "linux",
                                obj(vec![(
                                    "x64",
                                    obj(vec![("url", s("https://example.com/jdk21.tar.gz")), ("sha256", s("ABCD"))]),
                                )]),
                            )]),
                        ),
                        (
                            "17.0.2",
                            obj(vec![("linux", obj(vec![("x64", obj(vec![("url", Json::Number("3".to_string()))]))]))]),
                        ),
                    ]),
                )]),
            )]),
        ),
        ("kotlin", obj(vec![])),
    ])
}

fn runtime(vendor: &str, version: &str, accept: Option<bool>) -> RuntimeConfig {
    RuntimeConfig {
        lang: "java".to_string(),
        vendor: vendor.to_string(),
        version: version.to_string(),
        platform: None,
        checksum: None,
        auto_verify: None,
        accept_oracle_licence_terms: accept,
    }
}

fn is_windows() -> bool {
    std::path::MAIN_SEPARATOR == '\\'
}

#[test]
fn test_binary_names() {
    let binary_name = Toolchain::binary_name("java", is_windows()).unwrap();

    assert!(binary_name.contains("javac"));
    if is_windows() {
        assert!(binary_name.ends_with(".exe"));
    }
}

#[test]
fn binary_names_by_language() {
    assert_eq!(Toolchain::binary_name("java", false), Some("bin/javac"));
    assert_eq!(Toolchain::binary_name("java", true), Some("bin/javac.exe"));
    assert_eq!(Toolchain::binary_name("kotlin", false), Some("bin/kotlinc"));
    assert_eq!(Toolchain::binary_name("kotlin", true), Some("bin/kotlinc.bat"));
    assert_eq!(Toolchain::binary_name("scala", false), None);
}

#[test]
fn catalog_lookup_falls_back_to_major_version() {
    let cat = catalog();
    let url = Toolchain::catalog_field(&cat, "java", "jvm", "temurin", "21.0.2", "21", "linux", "x64", "url");
    assert_eq!(url.as_deref(), Some("https://example.com/jdk21.tar.gz"));
    let sha = Toolchain::catalog_field(&cat, "java", "jvm", "temurin", "21", "21", "linux", "x64", "sha256");
    assert_eq!(sha.as_deref(), Some("ABCD"));
    assert_eq!(Toolchain::catalog_field(&cat, "java", "jvm", "temurin", "21", "21", "linux", "aarch64", "url"), None);
    assert_eq!(Toolchain::catalog_field(&cat, "java", "jvm", "temurin", "17.0.2", "17", "linux", "x64", "url"), None);
    assert_eq!(cat.get("kotlin").is_some(), true);
    assert!(s("x").get("x").is_none());
}

#[test]
fn download_urls() {
    let cat = catalog();
    let rt = runtime("temurin", "21", None);
    assert_eq!(
        Toolchain::get_url_by_lang_and_vendor("java", "temurin", "21", "linux", "x64", "jvm", &rt, &cat),
        Ok("https://example.com/jdk21.tar.gz".to_string())
    );
    let oracle = runtime("oracle", "21", None);
    assert_eq!(
        Toolchain::get_url_by_lang_and_vendor("java", "oracle", "21", "linux", "x64", "jvm", &oracle, &cat),
        Err(ToolchainError::LicenceNotAccepted)
    );
    let oracle_ok = runtime("oracle", "21", Some(true));
    assert_eq!(
        Toolchain::get_url_by_lang_and_vendor("java", "oracle", "21", "linux", "x64", "jvm", &oracle_ok, &cat),
        Err(ToolchainError::Unsupported)
    );
    let kt = runtime("jetbrains", "1.9.22", None);
    assert_eq!(
        Toolchain::get_url_by_lang_and_vendor("kotlin", "jetbrains", "1", "linux", "x64", "jvm", &kt, &cat),
        Ok("https://github.com/JetBrains/kotlin/releases/download/v1.9.22/kotlin-compiler-1.9.22.zip".to_string())
    );
    assert_eq!(
        Toolchain::get_url_by_lang_and_vendor("kotlin", "jetbrains", "1", "linux", "x64", "native", &kt, &cat),
        Err(ToolchainError::Unsupported)
    );
}

#[test]
fn major_versions() {
    assert_eq!(Toolchain::major_version("21.0.2"), "21");
    assert_eq!(Toolchain::major_version("17"), "17");
    assert_eq!(Toolchain::major_version(""), "");
    assert_eq!(Toolchain::major_version(".5"), "");
}

#[test]
fn checksums_ignore_case() {
    assert!(Toolchain::checksum_matches("abcdef01", "ABCDEF01"));
    assert!(!Toolchain::checksum_matches("abcdef01", "abcdef02"));
    let digest = spora::digest::content_hash(b"abc");
    assert!(Toolchain::checksum_matches(&digest, &digest.to_uppercase()));
    assert!(Toolchain::download_matches_checksum(b"abc", &digest.to_uppercase()));
    assert!(!Toolchain::download_matches_checksum(b"abd", &digest));
}

#[test]
fn archive_kinds() {
    assert_eq!(Toolchain::archive_kind("https://x/jdk.zip", false), Some(ArchiveKind::Zip));
    assert_eq!(Toolchain::archive_kind("https://x/jdk.tar.gz", true), Some(ArchiveKind::Zip));
    assert_eq!(Toolchain::archive_kind("https://x/jdk.tar.gz", false), Some(ArchiveKind::TarGz));
    assert_eq!(Toolchain::archive_kind("https://x/jdk.tgz", false), Some(ArchiveKind::TarGz));
    assert_eq!(Toolchain::archive_kind("https://x/jdk.bin", false), None);
}

fn config(deps: Vec<(&str, DependencyConfig)>, pack: Option<&str>) -> SporaConfig {
    SporaConfig {
        workspace: None,
        project: None,
        toolchain: ToolchainConfig { java: "21".to_string(), kotlin: None },
        dependencies: deps.into_iter().map(|(k, v)| (k.to_string(), v)).collect(),
        pack: pack.map(|m| PackConfig { mode: m.to_string() }),
        runtime: None,
    }
}

#[test]
fn dependency_requests_from_config() {
    let cfg = config(
        vec![
            ("org.slf4j:slf4j-api", DependencyConfig::Simple("2.0.9".to_string())),
            ("broken", DependencyConfig::Simple("1.0".to_string())),
            (
                "junit:junit",
                DependencyConfig::Full { version: "4.13.2".to_string(), repo: Some("https://r/".to_string()) },
            ),
        ],
        None,
    );
    let reqs = cfg.dependency_requests();
    assert_eq!(reqs.len(), 2);
    assert_eq!(reqs[0].0.group, "org/slf4j");
    assert_eq!(reqs[0].1, None);
    assert_eq!(reqs[1].0.version, "4.13.2");
    assert_eq!(reqs[1].1.as_deref(), Some("https://r/"));
    let simple = DependencyConfig::Simple("1".to_string());
    let (v, r) = simple.version_and_repo();
    assert_eq!(v, "1");
    assert!(r.is_none());
}

#[test]
fn pack_modes() {
    assert_eq!(config(vec![], Some("fat")).pack_mode(), PackMode::Fat);
    assert_eq!(config(vec![], Some("flat")).pack_mode(), PackMode::Flat);
    assert_eq!(config(vec![], Some("none")).pack_mode(), PackMode::Simple);
    assert_eq!(config(vec![], None).pack_mode(), PackMode::Simple);
}

#[test]
fn oracle_licence_and_platform_default() {
    assert!(runtime("oracle", "21", None).licence_blocked());
    assert!(runtime("oracle", "21", Some(false)).licence_blocked());
    assert!(!runtime("oracle", "21", Some(true)).licence_blocked());
    assert!(!runtime("temurin", "21", None).licence_blocked());
    assert_eq!(runtime("temurin", "21", None).runtime_platform(), "jvm");
    let mut native = runtime("graalvm", "21", None);
    native.platform = Some("native".to_string());
    assert_eq!(native.runtime_platform(), "native");
}

#[test]
fn platform_names() {
    let p = Platform::from_target("linux", "x86_64");
    assert_eq!((p.os, p.arch), ("linux", "x64"));
    let p = Platform::from_target("macos", "aarch64");
    assert_eq!((p.os, p.arch), ("macos", "aarch64"));
    let p = Platform::from_target("windows", "powerpc64");
    assert_eq!((p.os, p.arch), ("windows", "ppc64le"));
    let p = Platform::from_target("freebsd", "mips");
    assert_eq!((p.os, p.arch), ("linux", "unknown"));
}

#[test]
fn commands() {
    assert_eq!(Command::from_arg(Some("init")), Command::Init);
    assert_eq!(Command::from_arg(Some("bloom")), Command::Bloom);
    assert_eq!(Command::from_arg(Some("clean")), Command::Clean);
    assert_eq!(Command::from_arg(Some("deploy")), Command::Help);
    assert_eq!(Command::from_arg(None), Command::Help);
}
