use debrep::debian::control::ControlMap;
use debrep::debian::package::{first_missing_field, PackageEntry};
use debrep::error::Error;

fn control(pairs: &[(&str, &str)]) -> ControlMap {
    ControlMap::from_pairs(
        pairs
            .iter()
            .map(|(k, v)| (k.to_string(), v.to_string()))
            .collect(),
    )
}

fn required() -> Vec<(&'static str, &'static str)> {
    vec![
        ("Package", "foo"),
        ("Architecture", "amd64"),
        ("Version", "1.0-1"),
        ("Priority", "optional"),
        ("Section", "utils"),
        ("Maintainer", "Jane Doe <jane@example.org>"),
        ("Installed-Size", "42"),
    ]
}

fn entry(control: ControlMap) -> PackageEntry {
    PackageEntry {
        control,
        filename: "pool/bionic/main/binary-amd64/f/foo/foo_1.0-1_amd64.deb".to_owned(),
        size: 1234,
        md5sum: "m".to_owned(),
        sha1: "s1".to_owned(),
        sha256: "s256".to_owned(),
        sha512: "s512".to_owned(),
    }
}

#[test]
fn stanza_in_the_fixed_order() {
    let mut fields = required();
    fields.extend_from_slice(&[
        ("Description", "a tool\n with a long\n description"),
        ("Homepage", "https://example.org"),
        ("Depends", "libc6"),
        ("Multi-Arch", "same"),
        ("Package-Type", "deb"),
        ("Auto-Built-Package", "debug-symbols"),
        ("Provides", "bar"),
        ("Pre-Depends", "dpkg"),
        ("Recommends", "r"),
        ("Suggests", "s"),
        ("Conflicts", "c"),
        ("Breaks", "b"),
        ("Replaces", "old-foo"),
        ("License", "MIT"),
        ("Vendor", "ACME"),
        ("Build-Ids", "abcdef"),
        ("Unknown-Field", "dropped"),
    ]);
    let bytes = entry(control(&fields))
        .generate_entry("origin-x", Some("https://bugs.example.org"))
        .unwrap();
    let expected = "Package: foo\n\
Package-Type: deb\n\
Architecture: amd64\n\
Version: 1.0-1\n\
Multi-Arch: same\n\
Auto-Built-Package: debug-symbols\n\
Priority: optional\n\
Section: utils\n\
Origin: origin-x\n\
Maintainer: Jane Doe <jane@example.org>\n\
Installed-Size: 42\n\
Provides: bar\n\
Pre-Depends: dpkg\n\
Depends: libc6\n\
Recommends: r\n\
Suggests: s\n\
Conflicts: c\n\
Breaks: b\n\
Replaces: old-foo\n\
Bugs: https://bugs.example.org\n\
Filename: pool/bionic/main/binary-amd64/f/foo/foo_1.0-1_amd64.deb\n\
Size: 1234\n\
MD5sum: m\n\
SHA1: s1\n\
SHA256: s256\n\
SHA512: s512\n\
Homepage: https://example.org\n\
Description: a tool\n with a long\n description\n\
License: MIT\n\
Vendor: ACME\n\
Build-Ids: abcdef\n";
    assert_eq!(String::from_utf8(bytes).unwrap(), expected);
}

#[test]
fn stanza_without_optional_fields() {
    let bytes = entry(control(&required())).generate_entry("o", None).unwrap();
    let text = String::from_utf8(bytes).unwrap();
    assert_eq!(
        text,
        "Package: foo\nArchitecture: amd64\nVersion: 1.0-1\nPriority: optional\nSection: utils\n\
Origin: o\nMaintainer: Jane Doe <jane@example.org>\nInstalled-Size: 42\n\
Filename: pool/bionic/main/binary-amd64/f/foo/foo_1.0-1_amd64.deb\nSize: 1234\nMD5sum: m\n\
SHA1: s1\nSHA256: s256\nSHA512: s512\n"
    );
    assert!(!text.contains("Homepage:"));
    assert!(!text.contains("Bugs:"));
}

#[test]
fn stanza_needs_its_required_fields() {
    for missing in ["Package", "Architecture", "Version", "Priority", "Section", "Maintainer", "Installed-Size"] {
        let fields: Vec<(&str, &str)> =
            required().into_iter().filter(|(k, _)| *k != missing).collect();
        let map = control(&fields);
        assert_eq!(first_missing_field(&map), Some(missing));
        assert_eq!(
            entry(map).generate_entry("o", None),
            Err(Error::ControlFieldMissing {
                archive: "pool/bionic/main/binary-amd64/f/foo/foo_1.0-1_amd64.deb".to_owned(),
                field: missing.to_owned(),
            })
        );
    }
    assert_eq!(first_missing_field(&control(&required())), None);
    assert_eq!(first_missing_field(&ControlMap::new()), Some("Package"));
}

#[test]
fn optional_fields_are_written_whole() {
    let mut fields = required();
    fields.push(("Description", "short\n line two"));
    fields.push(("Homepage", "first\r\nsecond"));
    fields.push(("Depends", ""));
    let text =
        String::from_utf8(entry(control(&fields)).generate_entry("o", None).unwrap()).unwrap();
    assert!(text.contains("Description: short\n line two\n"));
    assert!(text.contains("Homepage: first\r\nsecond\n"));
    assert!(text.contains("Depends: \n"));
    assert!(!text.contains("License:"));
}

#[test]
fn size_is_written_in_decimal() {
    for (size, text) in [(0u64, "Size: 0\n"), (7, "Size: 7\n"), (10, "Size: 10\n"), (u64::MAX, "Size: 18446744073709551615\n")] {
        let mut e = entry(control(&required()));
        e.size = size;
        let out = String::from_utf8(e.generate_entry("o", None).unwrap()).unwrap();
        assert!(out.contains(text), "{}", out);
    }
}

#[test]
fn control_map_keeps_each_name_once() {
    let mut map = control(&[("A", "1"), ("B", "2"), ("A", "3")]);
    assert_eq!(map.len(), 2);
    assert_eq!(map.get("A").map(|s| s.as_str()), Some("3"));
    assert_eq!(map.get("B").map(|s| s.as_str()), Some("2"));
    assert_eq!(map.get("C"), None);
    assert!(map.contains_key("A"));
    assert!(!map.contains_key("a"));
    map.insert("C".to_owned(), "4".to_owned());
    assert_eq!(map.len(), 3);
    assert_eq!(map.remove("A"), Some("3".to_owned()));
    assert_eq!(map.remove("A"), None);
    assert_eq!(map.len(), 2);
    assert_eq!(map.get("C").map(|s| s.as_str()), Some("4"));
}

#[test]
fn failures_are_described() {
    assert_eq!(
        Error::ControlFieldMissing { archive: "a.deb".into(), field: "Package".into() }.message(),
        "Package not found in control file of a.deb"
    );
    assert_eq!(
        Error::ArchiveMalformed { archive: "a.deb".into(), reason: "data archive not found".into() }.message(),
        "malformed archive a.deb: data archive not found"
    );
    assert_eq!(
        Error::ChecksumIO { archive: "a.deb".into(), reason: "gone".into() }.message(),
        "failed to read a.deb: gone"
    );
    assert_eq!(
        Error::CompressionIO { destination: "Packages.gz".into(), reason: "full".into() }.message(),
        "failed to write Packages.gz: full"
    );
    assert_eq!(
        Error::UnsupportedArchitecture { arch: "vax".into() }.message(),
        "unsupported architecture: vax"
    );
    assert!(Error::ControlFieldMissing { archive: "a".into(), field: "b".into() }.is_per_archive());
    assert!(Error::ArchiveMalformed { archive: "a".into(), reason: "b".into() }.is_per_archive());
    assert!(Error::ChecksumIO { archive: "a".into(), reason: "b".into() }.is_per_archive());
    assert!(!Error::CompressionIO { destination: "a".into(), reason: "b".into() }.is_per_archive());
    assert!(!Error::UnsupportedArchitecture { arch: "a".into() }.is_per_archive());
}
