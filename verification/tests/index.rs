use debrep::compress::{GZ_COMPRESS, UNCOMPRESSED, XZ_COMPRESS};
use debrep::config::{default_architectures, Config};
use debrep::debian::arch::{arch_directory, binary_suite, supported_arch};
use debrep::debian::contents::ContentsEntry;
use debrep::debian::control::ControlMap;
use debrep::debian::dist_files::{
    component_files, contents_file, is_complete, packages_index, release_stanza, DistFiles,
};
use debrep::debian::package::PackageEntry;
use debrep::error::Error;
use debrep::repo::entries::{build, collect, BuiltEntry, Checksums, Entries};

fn config() -> Config {
    Config {
        path: "suites/bionic.toml".to_owned(),
        archive: "bionic".to_owned(),
        version: "18.04".to_owned(),
        origin: "example".to_owned(),
        label: "Example".to_owned(),
        email: "me@example.org".to_owned(),
        architectures: default_architectures(),
        direct: None,
        source: None,
        repos: None,
        default_component: "main".to_owned(),
        extra_repos: None,
        extra_keys: Vec::new(),
    }
}

fn control(name: &str) -> ControlMap {
    ControlMap::from_pairs(
        [
            ("Package", name),
            ("Architecture", "amd64"),
            ("Version", "1.0"),
            ("Priority", "optional"),
            ("Section", "utils"),
            ("Maintainer", "M"),
            ("Installed-Size", "1"),
        ]
        .iter()
        .map(|(k, v)| (k.to_string(), v.to_string()))
        .collect(),
    )
}

fn sums() -> Checksums {
    Checksums {
        md5: "1".to_owned(),
        sha1: "2".to_owned(),
        sha256: "3".to_owned(),
        sha512: "4".to_owned(),
    }
}

fn built(name: &str, arch: &str, component: &str) -> Result<BuiltEntry, Error> {
    let path = format!("pool/bionic/{}/binary-{}/{}/{}/{}_1.0_{}.deb", component, arch, &name[..1], name, name, arch);
    let (package, contents) = build(
        &path,
        component,
        "main",
        control(name),
        vec![format!("./usr/bin/{}", name).into_bytes()],
        10,
        sums(),
    )?;
    Ok(BuiltEntry { package, contents, arch: arch.to_owned(), component: component.to_owned() })
}

fn package(name: &str, filename: &str) -> PackageEntry {
    PackageEntry {
        control: control(name),
        filename: filename.to_owned(),
        size: 1,
        md5sum: "1".to_owned(),
        sha1: "2".to_owned(),
        sha256: "3".to_owned(),
        sha512: "4".to_owned(),
    }
}

fn names(chunks: &Vec<Vec<u8>>) -> Vec<String> {
    chunks
        .iter()
        .map(|c| String::from_utf8(c.clone()).unwrap())
        .map(|c| if c == "\n" { "--".to_owned() } else { c.lines().next().unwrap().to_owned() })
        .collect()
}

#[test]
fn entries_are_built_from_one_control_map() {
    let (package, contents) = build(
        "pool/f/foo/foo_1.0_amd64.deb",
        "extra",
        "main",
        control("foo"),
        vec![b"./usr/bin/foo".to_vec()],
        77,
        sums(),
    )
    .unwrap();
    assert_eq!(package.filename, "pool/f/foo/foo_1.0_amd64.deb");
    assert_eq!(package.size, 77);
    assert_eq!(package.md5sum, "1");
    assert_eq!(package.sha1, "2");
    assert_eq!(package.sha256, "3");
    assert_eq!(package.sha512, "4");
    assert_eq!(package.control.get("Package").map(|s| s.as_str()), Some("foo"));
    assert_eq!(contents.package, "extra/utils/foo");
    assert_eq!(contents.files, vec![b"./usr/bin/foo".to_vec()]);
}

#[test]
fn an_entry_needs_every_required_field() {
    let mut no_package = control("foo");
    no_package.remove("Package");
    assert_eq!(
        build("a.deb", "main", "main", no_package, Vec::new(), 0, sums()).err(),
        Some(Error::ControlFieldMissing { archive: "a.deb".to_owned(), field: "Package".to_owned() })
    );
    let mut no_section = control("foo");
    no_section.remove("Section");
    assert_eq!(
        build("a.deb", "main", "main", no_section, Vec::new(), 0, sums()).err(),
        Some(Error::ControlFieldMissing { archive: "a.deb".to_owned(), field: "Section".to_owned() })
    );
}

#[test]
fn one_corrupt_archive_leaves_the_others() {
    let mut results = Vec::new();
    for i in 0..9 {
        results.push(built(&format!("pkg{}", i), if i % 2 == 0 { "amd64" } else { "i386" }, "main"));
        if i == 4 {
            results.push(Err(Error::ArchiveMalformed {
                archive: "pool/broken.deb".to_owned(),
                reason: "data archive not found".to_owned(),
            }));
        }
    }
    let (entries, errors) = collect(results);
    assert_eq!(
        errors,
        vec![Error::ArchiveMalformed {
            archive: "pool/broken.deb".to_owned(),
            reason: "data archive not found".to_owned(),
        }]
    );
    let packages: usize = entries
        .archs
        .iter()
        .map(|a| a.components.iter().map(|c| c.packages.len()).sum::<usize>())
        .sum();
    assert_eq!(packages, 9);
    assert_eq!(entries.archs.len(), 2);
    assert_eq!(entries.archs[0].arch, "amd64");
    assert_eq!(entries.archs[0].contents.len(), 5);
    assert_eq!(entries.archs[1].arch, "i386");
    assert_eq!(entries.archs[1].contents.len(), 4);
}

#[test]
fn entries_are_kept_by_architecture_and_component() {
    let mut entries = Entries::new();
    for (name, arch, component) in [
        ("a", "amd64", "main"),
        ("b", "amd64", "extra"),
        ("c", "i386", "main"),
        ("d", "amd64", "main"),
    ] {
        let b = built(name, arch, component).unwrap();
        entries.insert(b.arch, b.component, b.package, b.contents);
    }
    assert_eq!(entries.archs.len(), 2);
    let amd64 = &entries.archs[0];
    assert_eq!(amd64.arch, "amd64");
    assert_eq!(amd64.contents.len(), 3);
    assert_eq!(amd64.components.len(), 2);
    assert_eq!(amd64.components[0].component, "main");
    assert_eq!(amd64.components[0].packages.len(), 2);
    assert_eq!(amd64.components[1].component, "extra");
    assert_eq!(amd64.components[1].packages.len(), 1);
    assert_eq!(entries.archs[1].components[0].packages.len(), 1);
}

#[test]
fn packages_are_sorted_by_the_paths_of_their_archives() {
    let chunks = packages_index(
        vec![
            package("foo-bar", "pool/f/foo-bar/foo-bar_1.deb"),
            package("zed", "pool/z/zed/zed_1.deb"),
            package("foo", "pool/f/foo/foo_1.deb"),
        ],
        "o",
        None,
    )
    .unwrap();
    assert_eq!(
        names(&chunks),
        vec!["Package: foo", "--", "Package: foo-bar", "--", "Package: zed"]
    );
    assert_eq!(packages_index(Vec::new(), "o", None).unwrap(), Vec::<Vec<u8>>::new());
    assert_eq!(names(&packages_index(vec![package("a", "a")], "o", None).unwrap()), vec!["Package: a"]);
}

#[test]
fn packages_do_not_depend_on_the_order_in_which_they_came() {
    let one = packages_index(
        vec![package("a", "p/a.deb"), package("b", "p/b.deb"), package("c", "p/c.deb")],
        "o",
        Some("bugs"),
    );
    let other = packages_index(
        vec![package("c", "p/c.deb"), package("a", "p/a.deb"), package("b", "p/b.deb")],
        "o",
        Some("bugs"),
    );
    assert_eq!(one, other);
}

#[test]
fn every_incomplete_package_is_reported() {
    let mut first = package("a", "p/a.deb");
    first.control.remove("Version");
    let mut second = package("b", "p/b.deb");
    second.control.remove("Package");
    let r = packages_index(vec![first, package("c", "p/c.deb"), second], "o", None);
    assert_eq!(
        r,
        Err(vec![
            Error::ControlFieldMissing { archive: "p/a.deb".to_owned(), field: "Version".to_owned() },
            Error::ControlFieldMissing { archive: "p/b.deb".to_owned(), field: "Package".to_owned() },
        ])
    );
}

#[test]
fn release_file_has_six_lines() {
    assert_eq!(
        release_stanza("bionic", "18.04", "main", "example", "Example", "amd64"),
        "Archive: bionic\nVersion: 18.04\nComponent: main\nOrigin: example\nLabel: Example\nArchitecture: amd64\n"
    );
}

#[test]
fn architectures_have_their_directories() {
    for arch in ["amd64", "arm64", "armel", "armhf", "i386", "mips", "mipsel", "mips64el", "ppc64el", "s390x", "all"] {
        assert!(supported_arch(arch));
        let dir = arch_directory(arch).unwrap();
        assert_eq!(dir, format!("binary-{}", arch));
        assert_eq!(binary_suite(&dir), Ok(Some(arch.to_owned())));
    }
    assert!(!supported_arch("vax"));
    assert_eq!(
        arch_directory("vax"),
        Err(Error::UnsupportedArchitecture { arch: "vax".to_owned() })
    );
    assert_eq!(binary_suite("source"), Ok(None));
    assert_eq!(
        binary_suite("binary-vax"),
        Err(Error::UnsupportedArchitecture { arch: "binary-vax".to_owned() })
    );
    assert_eq!(
        binary_suite("amd64"),
        Err(Error::UnsupportedArchitecture { arch: "amd64".to_owned() })
    );
}

#[test]
fn files_of_a_component() {
    let (index, release) = component_files(
        &config(),
        "amd64",
        "main",
        vec![package("b", "p/b.deb"), package("a", "p/a.deb")],
        "example",
        None,
    )
    .unwrap();
    assert_eq!(index.directory, "main/binary-amd64");
    assert_eq!(index.name, "Packages");
    assert_eq!(index.support, UNCOMPRESSED | GZ_COMPRESS | XZ_COMPRESS);
    assert_eq!(names(&index.chunks), vec!["Package: a", "--", "Package: b"]);
    assert_eq!(release.directory, "main/binary-amd64");
    assert_eq!(release.name, "Release");
    assert_eq!(release.support, UNCOMPRESSED);
    assert_eq!(
        release.chunks,
        vec![b"Archive: bionic\nVersion: 18.04\nComponent: main\nOrigin: example\nLabel: Example\nArchitecture: amd64\n".to_vec()]
    );
    assert_eq!(
        component_files(&config(), "vax", "main", Vec::new(), "o", None).err(),
        Some(vec![Error::UnsupportedArchitecture { arch: "vax".to_owned() }])
    );
}

#[test]
fn contents_file_of_an_architecture() {
    let (file, warnings) = contents_file(
        "amd64",
        &vec![ContentsEntry { package: "utils/a".to_owned(), files: vec![b"./x".to_vec()] }],
    );
    assert_eq!(file.directory, "");
    assert_eq!(file.name, "Contents-amd64");
    assert_eq!(file.support, 7);
    assert_eq!(file.chunks, vec![b"x  utils/a\n".to_vec()]);
    assert_eq!(warnings.len(), 0);
}

#[test]
fn a_distribution_is_written_bucket_by_bucket() {
    let results = vec![
        built("a", "amd64", "main"),
        built("b", "amd64", "extra"),
        built("c", "i386", "main"),
        built("d", "amd64", "main"),
    ];
    let (entries, errors) = collect(results);
    assert_eq!(errors.len(), 0);
    let out = DistFiles::new(entries).compress_and_release(&config(), "example", None).unwrap();
    assert_eq!(out.len(), 2);
    assert_eq!(out[0].arch, "amd64");
    assert_eq!(out[0].contents.name, "Contents-amd64");
    assert_eq!(
        out[0].contents.chunks,
        vec![
            b"usr/bin/a  utils/a\n".to_vec(),
            b"usr/bin/b  extra/utils/b\n".to_vec(),
            b"usr/bin/d  utils/d\n".to_vec(),
        ]
    );
    assert_eq!(out[0].components.len(), 2);
    let (index, release) = out[0].components[0].as_ref().unwrap();
    assert_eq!(index.directory, "main/binary-amd64");
    assert_eq!(names(&index.chunks), vec!["Package: a", "--", "Package: d"]);
    assert_eq!(release.name, "Release");
    assert_eq!(
        release.chunks,
        vec![b"Archive: bionic\nVersion: 18.04\nComponent: main\nOrigin: example\nLabel: Example\nArchitecture: amd64\n".to_vec()]
    );
    let (index, _) = out[0].components[1].as_ref().unwrap();
    assert_eq!(index.directory, "extra/binary-amd64");
    assert_eq!(out[1].arch, "i386");
    assert_eq!(out[1].contents.name, "Contents-i386");
    let (index, release) = out[1].components[0].as_ref().unwrap();
    assert_eq!(index.directory, "main/binary-i386");
    assert_eq!(
        release.chunks,
        vec![b"Archive: bionic\nVersion: 18.04\nComponent: main\nOrigin: example\nLabel: Example\nArchitecture: i386\n".to_vec()]
    );
    assert!(is_complete(&out));
}

#[test]
fn an_unknown_architecture_stops_the_distribution() {
    let (entries, errors) = collect(vec![
        built("a", "amd64", "main"),
        built("c", "vax", "main"),
        built("e", "pdp11", "main"),
    ]);
    assert_eq!(errors.len(), 0);
    assert_eq!(
        DistFiles::new(entries).compress_and_release(&config(), "example", None).err(),
        Some(Error::UnsupportedArchitecture { arch: "vax".to_owned() })
    );

    let mut entries = Entries::new();
    entries.archs.push(debrep::repo::entries::ArchEntries {
        arch: "vax".to_owned(),
        contents: Vec::new(),
        components: Vec::new(),
    });
    assert_eq!(
        DistFiles::new(entries).compress_and_release(&config(), "example", None).err(),
        Some(Error::UnsupportedArchitecture { arch: "vax".to_owned() })
    );
    assert_eq!(
        DistFiles::new(Entries::new())
            .compress_and_release(&config(), "example", None)
            .map(|out| out.len())
            .ok(),
        Some(0)
    );
}

#[test]
fn an_incomplete_package_fails_its_bucket_alone() {
    let mut entries = Entries::new();
    let good = built("a", "amd64", "main").unwrap();
    entries.insert(good.arch, good.component, good.package, good.contents);
    let mut broken = package("b", "p/b.deb");
    broken.control.remove("Version");
    entries.insert(
        "amd64".to_owned(),
        "extra".to_owned(),
        broken,
        ContentsEntry { package: "extra/utils/b".to_owned(), files: Vec::new() },
    );
    let out = DistFiles::new(entries).compress_and_release(&config(), "example", None).unwrap();
    assert_eq!(out.len(), 1);
    assert!(out[0].components[0].is_ok());
    assert_eq!(
        out[0].components[1].as_ref().err(),
        Some(&vec![Error::ControlFieldMissing {
            archive: "p/b.deb".to_owned(),
            field: "Version".to_owned(),
        }])
    );
    assert!(!is_complete(&out));
}
