//! Toolchain selection: the version catalog, the download URL, the checksum
//! check, the archive format and the compiler's file name.

use vstd::prelude::*;
use vstd::string::*;
use crate::config::RuntimeConfig;
use crate::digest::{hex_lower, hex_digit, content_hash, content_hash_of, sha256_of};
use crate::text::{
    chars_of, str_eq, split_seq, split_chars, string_of, char_views, contains_seq, chars_contain,
    lemma_split_nonempty, has_char, lemma_split_no_sep,
};

verus! {

/// Installs and locates compilers.
pub struct Toolchain;

/// A JSON value, as the version catalog holds it. Numbers keep their text.
pub enum Json {
    Null,
    Bool(bool),
    Number(String),
    Str(String),
    Array(Vec<Json>),
    Object(Vec<(String, Json)>),
}

/// The value of the first member of `members`, from position `from` on,
/// named `key`.
pub open spec fn member_from(members: Seq<(String, Json)>, key: Seq<char>, from: int) -> Option<Json>
    decreases members.len() - from,
{
    if from < 0 || from >= members.len() {
        None
    } else if members[from].0@ == key {
        Some(members[from].1)
    } else {
        member_from(members, key, from + 1)
    }
}

/// `Value::get` with a string key: the member `key` of an object, and nothing
/// for any other value.
pub open spec fn json_get(j: Json, key: Seq<char>) -> Option<Json> {
    match j {
        Json::Object(members) => member_from(members@, key, 0),
        _ => None,
    }
}

/// `json_get` on an optional value.
pub open spec fn json_get_opt(j: Option<Json>, key: Seq<char>) -> Option<Json> {
    match j {
        Some(v) => json_get(v, key),
        None => None,
    }
}

/// `Value::as_str`.
pub open spec fn json_str(j: Option<Json>) -> Option<Seq<char>> {
    match j {
        Some(Json::Str(s)) => Some(s@),
        _ => None,
    }
}

/// The catalog entry for a language, platform, vendor, version (or, when the
/// exact version is absent, the major version), OS and architecture.
pub open spec fn catalog_entry(
    catalog: Json,
    lang: Seq<char>,
    platform: Seq<char>,
    vendor: Seq<char>,
    version: Seq<char>,
    major: Seq<char>,
    os: Seq<char>,
    arch: Seq<char>,
) -> Option<Json> {
    let v = json_get_opt(json_get_opt(json_get(catalog, lang), platform), vendor);
    let ver = match json_get_opt(v, version) {
        Some(x) => Some(x),
        None => json_get_opt(v, major),
    };
    json_get_opt(json_get_opt(ver, os), arch)
}

impl Json {
    /// `Value::get` with a string key.
    pub fn get(&self, key: &str) -> (r: Option<&Json>)
        ensures
            match r {
                Some(v) => json_get(*self, key@) == Some(*v),
                None => json_get(*self, key@) is None,
            },
    {
        match self {
            Json::Object(members) => {
                let mut i: usize = 0;
                assert(json_get(*self, key@) == member_from(members@, key@, 0));
                while i < members.len()
                    invariant
                        json_get(*self, key@) == member_from(members@, key@, 0),
                        i <= members@.len(),
                        member_from(members@, key@, 0) == member_from(members@, key@, i as int),
                    decreases members@.len() - i,
                {
                    if str_eq(members[i].0.as_str(), key) {
                        return Some(&members[i].1);
                    }
                    i = i + 1;
                }
                None
            },
            _ => None,
        }
    }

    /// `Value::as_str`.
    pub fn as_str(&self) -> (r: Option<&String>)
        ensures
            match r {
                Some(s) => json_str(Some(*self)) == Some(s@),
                None => json_str(Some(*self)) is None,
            },
    {
        match self {
            Json::Str(s) => Some(s),
            _ => None,
        }
    }
}

fn get_opt<'a>(j: Option<&'a Json>, key: &str) -> (r: Option<&'a Json>)
    ensures
        match r {
            Some(v) => json_get_opt(
                match j {
                    Some(x) => Some(*x),
                    None => None,
                },
                key@,
            ) == Some(*v),
            None => json_get_opt(
                match j {
                    Some(x) => Some(*x),
                    None => None,
                },
                key@,
            ) is None,
        },
{
    match j {
        Some(v) => v.get(key),
        None => None,
    }
}

/// Why no download URL could be chosen.
#[derive(PartialEq, Eq, Structural, Clone, Copy, Debug)]
pub enum ToolchainError {
    /// The Oracle JDK is asked for without accepting its licence terms.
    LicenceNotAccepted,
    /// The catalog has no entry and no fallback applies.
    Unsupported,
}

/// The archive formats a downloaded toolchain comes in.
#[derive(PartialEq, Eq, Structural, Clone, Copy, Debug)]
pub enum ArchiveKind {
    Zip,
    TarGz,
}

/// The download URL: an error for the Oracle JDK without accepted licence
/// terms; else the catalog's `url`; else, for Kotlin on the JVM, the
/// compiler release on GitHub; else unsupported.
pub open spec fn download_url_of(
    catalog: Json,
    lang: Seq<char>,
    vendor: Seq<char>,
    major: Seq<char>,
    os: Seq<char>,
    arch: Seq<char>,
    platform: Seq<char>,
    version: Seq<char>,
    licence_accepted: bool,
) -> Result<Seq<char>, ToolchainError> {
    if lang == "java"@ && vendor == "oracle"@ && !licence_accepted {
        Err(ToolchainError::LicenceNotAccepted)
    } else {
        match json_str(
            json_get_opt(
                catalog_entry(catalog, lang, platform, vendor, version, major, os, arch),
                "url"@,
            ),
        ) {
            Some(u) => Ok(u),
            None => if lang == "kotlin"@ && platform == "jvm"@ {
                Ok(
                    "https://github.com/JetBrains/kotlin/releases/download/v"@ + version
                        + "/kotlin-compiler-"@ + version + ".zip"@,
                )
            } else {
                Err(ToolchainError::Unsupported)
            },
        }
    }
}

/// The archive format of a download, judged by its final URL: zip when the
/// URL holds `.zip` or on Windows; tar.gz when it holds `.tar.gz` or `.tgz`.
pub open spec fn archive_kind_of(url: Seq<char>, windows: bool) -> Option<ArchiveKind> {
    if contains_seq(url, ".zip"@) || windows {
        Some(ArchiveKind::Zip)
    } else if contains_seq(url, ".tar.gz"@) || contains_seq(url, ".tgz"@) {
        Some(ArchiveKind::TarGz)
    } else {
        None
    }
}

/// The compiler's path within the toolchain's home, by language and OS.
pub open spec fn binary_name_of(lang: Seq<char>, windows: bool) -> Option<Seq<char>> {
    if lang == "java"@ {
        Some(if windows { "bin/javac.exe"@ } else { "bin/javac"@ })
    } else if lang == "kotlin"@ {
        Some(if windows { "bin/kotlinc.bat"@ } else { "bin/kotlinc"@ })
    } else {
        None
    }
}

/// `str::to_lowercase` (Unicode lowercase mapping) of `s`.
pub uninterp spec fn lowercase_of(s: Seq<char>) -> Seq<char>;

/// Every character of `s` is ASCII.
pub open spec fn all_ascii(s: Seq<char>) -> bool {
    forall|i: int| 0 <= i < s.len() ==> (#[trigger] s[i] as u32) < 128
}

/// `c` with `A`..`Z` mapped to `a`..`z`.
pub open spec fn ascii_lower_char(c: char) -> char {
    if 'A' <= c && c <= 'Z' {
        ((c as u32) + 32) as char
    } else {
        c
    }
}

/// `c` with `a`..`z` mapped to `A`..`Z`.
pub open spec fn ascii_upper_char(c: char) -> char {
    if 'a' <= c && c <= 'z' {
        ((c as u32) - 32) as char
    } else {
        c
    }
}

/// `s` with its ASCII capitals made lowercase.
pub open spec fn ascii_lower(s: Seq<char>) -> Seq<char> {
    s.map_values(|c: char| ascii_lower_char(c))
}

/// `s` with its ASCII lowercase letters made capitals.
pub open spec fn ascii_upper(s: Seq<char>) -> Seq<char> {
    s.map_values(|c: char| ascii_upper_char(c))
}

/// `str::to_lowercase`: the Unicode lowercase mapping, named `lowercase_of`;
/// on ASCII text it maps `A`..`Z` to `a`..`z` and keeps every other character.
#[verifier::external_body]
fn to_lowercase(s: &str) -> (r: String)
    ensures
        r@ == lowercase_of(s@),
        all_ascii(s@) ==> r@ == ascii_lower(s@),
{
    s.to_lowercase()
}

/// A Java JDK from Oracle is never downloaded unless its licence terms are
/// accepted, whatever the catalog holds.
pub proof fn law_oracle_needs_acceptance(
    catalog: Json,
    major: Seq<char>,
    os: Seq<char>,
    arch: Seq<char>,
    platform: Seq<char>,
    version: Seq<char>,
)
    ensures
        download_url_of(catalog, "java"@, "oracle"@, major, os, arch, platform, version, false)
            == Err::<Seq<char>, ToolchainError>(ToolchainError::LicenceNotAccepted),
{
}

/// A version without `.` is its own major version.
pub proof fn law_plain_version_is_major(version: Seq<char>)
    requires
        !has_char(version, '.'),
    ensures
        split_seq(version, '.')[0] == version,
{
    lemma_split_no_sep(version, '.');
}

/// A computed digest matches the same digest written with capitals, as a
/// catalog may list it: both sides are ASCII, and lowering their capitals
/// gives the computed (lowercase) digest on each side.
pub proof fn law_digest_matches_capitalised(d: Seq<u8>)
    ensures
        all_ascii(hex_lower(d)),
        all_ascii(ascii_upper(hex_lower(d))),
        ascii_lower(hex_lower(d)) == hex_lower(d),
        ascii_lower(ascii_upper(hex_lower(d))) == hex_lower(d),
{
    lemma_hex_digits(d);
    let h = hex_lower(d);
    assert(ascii_lower(h) =~= h);
    assert(ascii_lower(ascii_upper(h)) =~= h);
}

proof fn lemma_hex_digits(d: Seq<u8>)
    ensures
        forall|i: int|
            0 <= i < hex_lower(d).len() ==> ('0' <= #[trigger] hex_lower(d)[i] && hex_lower(d)[i]
                <= '9') || ('a' <= hex_lower(d)[i] && hex_lower(d)[i] <= 'f'),
    decreases d.len(),
{
    if d.len() > 0 {
        lemma_hex_digits(d.drop_first());
        let hi = d[0] as int / 16;
        let lo = d[0] as int % 16;
        assert(0 <= hi < 16 && 0 <= lo < 16);
        let h = hex_lower(d);
        let t = hex_lower(d.drop_first());
        assert(h == seq![hex_digit(hi), hex_digit(lo)] + t);
        assert forall|i: int| 0 <= i < h.len() implies ('0' <= #[trigger] h[i] && h[i] <= '9') || (
        'a' <= h[i] && h[i] <= 'f') by {
            if i >= 2 {
                assert(h[i] == t[i - 2]);
            }
        }
    }
}

/// A download's archive format depends on where its final URL mentions an
/// extension, not only on how it ends: on Windows, or when `.zip` occurs
/// anywhere, it is a zip; otherwise, when `.tar.gz` or `.tgz` occurs at any
/// position (also before a query string), it is a tar.gz; otherwise the
/// format is unknown.
pub proof fn law_archive_kind_by_occurrence(url: Seq<char>, windows: bool, i: int, tag: Seq<char>)
    ensures
        windows ==> archive_kind_of(url, windows) == Some(ArchiveKind::Zip),
        0 <= i && i + 4 <= url.len() && url.subrange(i, i + 4) == ".zip"@ ==> archive_kind_of(
            url,
            windows,
        ) == Some(ArchiveKind::Zip),
        !windows && (forall|j: int|
            0 <= j && j + 4 <= url.len() ==> #[trigger] url.subrange(j, j + 4) != ".zip"@) && (tag
            == ".tar.gz"@ || tag == ".tgz"@) && 0 <= i && i + tag.len() <= url.len()
            && url.subrange(i, i + tag.len()) == tag ==> archive_kind_of(url, windows) == Some(
            ArchiveKind::TarGz,
        ),
        !windows && (forall|j: int|
            0 <= j && j + 4 <= url.len() ==> #[trigger] url.subrange(j, j + 4) != ".zip"@) && (forall|j: int|
            0 <= j && j + 7 <= url.len() ==> #[trigger] url.subrange(j, j + 7) != ".tar.gz"@) && (forall|
            j: int|
            0 <= j && j + 4 <= url.len() ==> #[trigger] url.subrange(j, j + 4) != ".tgz"@)
            ==> archive_kind_of(url, windows) is None,
{
    reveal_strlit(".zip");
    reveal_strlit(".tar.gz");
    reveal_strlit(".tgz");
    if 0 <= i && i + 4 <= url.len() && url.subrange(i, i + 4) == ".zip"@ {
        assert(".zip"@.len() == 4);
        assert(url.subrange(i, i + ".zip"@.len()) == ".zip"@);
        assert(contains_seq(url, ".zip"@));
    }
    if 0 <= i && i + tag.len() <= url.len() && url.subrange(i, i + tag.len()) == tag {
        if tag == ".tar.gz"@ {
            assert(url.subrange(i, i + ".tar.gz"@.len()) == ".tar.gz"@);
            assert(contains_seq(url, ".tar.gz"@));
        }
        if tag == ".tgz"@ {
            assert(url.subrange(i, i + ".tgz"@.len()) == ".tgz"@);
            assert(contains_seq(url, ".tgz"@));
        }
    }
    if contains_seq(url, ".zip"@) {
        let j = choose|j: int|
            0 <= j && j + ".zip"@.len() <= url.len() && #[trigger] url.subrange(j, j + ".zip"@.len())
                == ".zip"@;
        assert(url.subrange(j, j + 4) == ".zip"@);
    }
    if contains_seq(url, ".tar.gz"@) {
        let j = choose|j: int|
            0 <= j && j + ".tar.gz"@.len() <= url.len() && #[trigger] url.subrange(
                j,
                j + ".tar.gz"@.len(),
            ) == ".tar.gz"@;
        assert(url.subrange(j, j + 7) == ".tar.gz"@);
    }
    if contains_seq(url, ".tgz"@) {
        let j = choose|j: int|
            0 <= j && j + ".tgz"@.len() <= url.len() && #[trigger] url.subrange(j, j + ".tgz"@.len())
                == ".tgz"@;
        assert(url.subrange(j, j + 4) == ".tgz"@);
    }
}

/// The catalog entry is found under the exact configured version when the
/// vendor's object has a member of that name; only when it has none is the
/// major version's member used.
pub proof fn law_catalog_prefers_exact_version(
    catalog: Json,
    lang: Seq<char>,
    platform: Seq<char>,
    vendor: Seq<char>,
    version: Seq<char>,
    major: Seq<char>,
    os: Seq<char>,
    arch: Seq<char>,
)
    ensures
        ({
            let vendor_obj = json_get_opt(json_get_opt(json_get(catalog, lang), platform), vendor);
            &&& json_get_opt(vendor_obj, version) matches Some(exact) ==> catalog_entry(
                catalog,
                lang,
                platform,
                vendor,
                version,
                major,
                os,
                arch,
            ) == json_get_opt(json_get(exact, os), arch)
            &&& json_get_opt(vendor_obj, version) is None ==> catalog_entry(
                catalog,
                lang,
                platform,
                vendor,
                version,
                major,
                os,
                arch,
            ) == json_get_opt(json_get_opt(json_get_opt(vendor_obj, major), os), arch)
        }),
{
}

impl Toolchain {
    /// The value of `field` (such as `url` or `sha256`) in the catalog entry
    /// for the given language, platform, vendor, version (or major version),
    /// OS and architecture, when it is a string.
    pub fn catalog_field(
        catalog: &Json,
        lang: &str,
        platform: &str,
        vendor: &str,
        version: &str,
        major: &str,
        os: &str,
        arch: &str,
        field: &str,
    ) -> (r: Option<String>)
        ensures
            match r {
                Some(s) => json_str(
                    json_get_opt(
                        catalog_entry(*catalog, lang@, platform@, vendor@, version@, major@, os@, arch@),
                        field@,
                    ),
                ) == Some(s@),
                None => json_str(
                    json_get_opt(
                        catalog_entry(*catalog, lang@, platform@, vendor@, version@, major@, os@, arch@),
                        field@,
                    ),
                ) is None,
            },
    {
        let l = catalog.get(lang);
        let p = get_opt(l, platform);
        let v = get_opt(p, vendor);
        let ver = match get_opt(v, version) {
            Some(x) => Some(x),
            None => get_opt(v, major),
        };
        let o = get_opt(ver, os);
        let a = get_opt(o, arch);
        let f = get_opt(a, field);
        match f {
            Some(j) => match j.as_str() {
                Some(s) => Some(s.clone()),
                None => None,
            },
            None => None,
        }
    }

    /// The URL to download the toolchain from (see `download_url_of`).
    pub fn get_url_by_lang_and_vendor(
        lang: &str,
        vendor: &str,
        major_version: &str,
        os: &str,
        arch: &str,
        platform: &str,
        runtime: &RuntimeConfig,
        catalog: &Json,
    ) -> (r: Result<String, ToolchainError>)
        ensures
            match r {
                Ok(u) => download_url_of(
                    *catalog,
                    lang@,
                    vendor@,
                    major_version@,
                    os@,
                    arch@,
                    platform@,
                    runtime.version@,
                    runtime.accept_oracle_licence_terms == Some(true),
                ) == Ok::<Seq<char>, ToolchainError>(u@),
                Err(e) => download_url_of(
                    *catalog,
                    lang@,
                    vendor@,
                    major_version@,
                    os@,
                    arch@,
                    platform@,
                    runtime.version@,
                    runtime.accept_oracle_licence_terms == Some(true),
                ) == Err::<Seq<char>, ToolchainError>(e),
            },
    {
        let accepted = match runtime.accept_oracle_licence_terms {
            Some(b) => b,
            None => false,
        };
        if str_eq(lang, "java") && str_eq(vendor, "oracle") && !accepted {
            return Err(ToolchainError::LicenceNotAccepted);
        }
        match Toolchain::catalog_field(
            catalog,
            lang,
            platform,
            vendor,
            runtime.version.as_str(),
            major_version,
            os,
            arch,
            "url",
        ) {
            Some(u) => Ok(u),
            None => if str_eq(lang, "kotlin") && str_eq(platform, "jvm") {
                let mut u = String::from_str("https://github.com/JetBrains/kotlin/releases/download/v");
                u.append(runtime.version.as_str());
                u.append("/kotlin-compiler-");
                u.append(runtime.version.as_str());
                u.append(".zip");
                Ok(u)
            } else {
                Err(ToolchainError::Unsupported)
            },
        }
    }

    /// The major version: the part of `version` before its first `.`.
    pub fn major_version(version: &str) -> (r: String)
        ensures
            r@ == split_seq(version@, '.')[0],
    {
        let cs = chars_of(version);
        let parts = split_chars(cs.as_slice(), '.');
        proof {
            lemma_split_nonempty(cs@, '.');
        }
        assert(char_views(parts@)[0] == parts@[0]@);
        string_of(parts[0].as_slice())
    }

    /// Whether a download's hash matches the catalog's, ignoring case.
    pub fn checksum_matches(actual: &str, expected: &str) -> (r: bool)
        ensures
            r == (lowercase_of(actual@) == lowercase_of(expected@)),
            all_ascii(actual@) && all_ascii(expected@) ==> r == (ascii_lower(actual@) == ascii_lower(
                expected@,
            )),
            all_ascii(actual@) && ascii_lower(actual@) == actual@ ==> r == (actual@ == lowercase_of(
                expected@,
            )),
    {
        to_lowercase(actual) == to_lowercase(expected)
    }

    /// Whether downloaded content matches a catalog's SHA-256: its lowercase
    /// hex digest equals the catalog's value lowercased.
    pub fn download_matches_checksum(content: &[u8], expected: &str) -> (r: bool)
        ensures
            r == (content_hash_of(content@) == lowercase_of(expected@)),
    {
        let actual = content_hash(content);
        proof {
            law_digest_matches_capitalised(sha256_of(content@));
        }
        Toolchain::checksum_matches(actual.as_str(), expected)
    }

    /// The archive format of a download by its final URL (see
    /// `archive_kind_of`); `None` for an unknown format.
    pub fn archive_kind(final_url: &str, windows: bool) -> (r: Option<ArchiveKind>)
        ensures
            r == archive_kind_of(final_url@, windows),
    {
        let u = chars_of(final_url);
        let zip = chars_of(".zip");
        if chars_contain(u.as_slice(), zip.as_slice()) || windows {
            return Some(ArchiveKind::Zip);
        }
        let tgz = chars_of(".tar.gz");
        let tgz2 = chars_of(".tgz");
        if chars_contain(u.as_slice(), tgz.as_slice()) || chars_contain(u.as_slice(), tgz2.as_slice()) {
            Some(ArchiveKind::TarGz)
        } else {
            None
        }
    }

    /// The compiler's path within the toolchain's home; `None` for a
    /// language other than Java and Kotlin.
    pub fn binary_name(lang: &str, windows: bool) -> (r: Option<&'static str>)
        ensures
            match r {
                Some(s) => binary_name_of(lang@, windows) == Some(s@),
                None => binary_name_of(lang@, windows) is None,
            },
    {
        if str_eq(lang, "java") {
            Some(if windows { "bin/javac.exe" } else { "bin/javac" })
        } else if str_eq(lang, "kotlin") {
            Some(if windows { "bin/kotlinc.bat" } else { "bin/kotlinc" })
        } else {
            None
        }
    }
}

} // verus!
