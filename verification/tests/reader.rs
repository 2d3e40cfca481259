use debrep::apt::{AptPackage, AptPackageFilter, ParseAptPackageError};
use debrep::config::repos::{match_pattern, match_regex, Repo, RepoPattern};
use debrep::iter_reader::IteratorReader;

#[test]
fn chunks_are_read_as_one_stream() {
    let chunks = vec![b"abc".to_vec(), b"".to_vec(), b"defgh".to_vec(), b"i".to_vec()];
    let mut reader = IteratorReader::new(chunks, Vec::new());
    let mut out = Vec::new();
    loop {
        let part = reader.read(4);
        if part.is_empty() {
            break;
        }
        assert!(part.len() <= 4);
        out.extend_from_slice(&part);
    }
    assert_eq!(out, b"abcdefghi");
    assert_eq!(reader.read(4), Vec::<u8>::new());
}

#[test]
fn a_read_fills_the_buffer_only_when_it_is_empty() {
    let mut reader =
        IteratorReader::new(vec![b"abc".to_vec(), b"defgh".to_vec()], Vec::new());
    // The buffer is filled up to the size asked for: both chunks are taken.
    assert_eq!(reader.read(4), b"abcd");
    // What is buffered is handed out before anything else is taken.
    assert_eq!(reader.read(10), b"efgh");
    assert_eq!(reader.read(10), b"");
    let mut reader = IteratorReader::new(vec![b"xyz".to_vec()], b"ab".to_vec());
    assert_eq!(reader.read(0), b"");
    assert_eq!(reader.read(8), b"ab");
    assert_eq!(reader.read(8), b"xyz");
    assert_eq!(reader.read(8), b"");
    let mut empty = IteratorReader::new(Vec::new(), Vec::new());
    assert_eq!(empty.read(8), b"");
}

#[test]
fn file_names_of_a_repository() {
    let p = AptPackage::from_str("foo_1.0-1_amd64.deb").unwrap();
    assert_eq!((p.name.as_str(), p.version.as_str(), p.arch.as_str(), p.extension.as_str()), ("foo", "1.0-1", "amd64", "deb"));
    let p = AptPackage::from_str("foo_1.0_all.tar.xz").unwrap();
    assert_eq!((p.arch.as_str(), p.extension.as_str()), ("all", "tar.xz"));
    let p = AptPackage::from_str("foo-dbgsym_1.0_amd64.ddeb").unwrap();
    assert_eq!((p.name.as_str(), p.extension.as_str()), ("foo-dbgsym", "ddeb"));
    let p = AptPackage::from_str("a_b_c.t.d").unwrap();
    assert_eq!((p.arch.as_str(), p.extension.as_str()), ("c.t", "d"));
    assert_eq!(AptPackage::from_str("foo").err(), Some(ParseAptPackageError::NameNotFound));
    assert_eq!(AptPackage::from_str("foo_1.0.deb").err(), Some(ParseAptPackageError::VersionNotFound));
    assert_eq!(AptPackage::from_str("foo_1.0_amd64.rpm").err(), Some(ParseAptPackageError::InvalidExtension));
    assert_eq!(ParseAptPackageError::NameNotFound.message(), "apt package's filename does not have a name");
    assert_eq!(ParseAptPackageError::VersionNotFound.message(), "apt package's filename does not have a version");
    assert_eq!(ParseAptPackageError::InvalidExtension.message(), "apt package's filename does not have a proper extension");
}

#[test]
fn packages_are_filtered_by_patterns() {
    assert!(match_regex("^1\\.", "1.2"));
    assert!(!match_regex("^1\\.", "2.1"));
    assert!(match_regex("b", "abc"));
    assert!(!match_regex("(", "("));
    assert!(match_pattern(&None, "x"));
    let only = Some(RepoPattern { is: Some("^amd64$".to_owned()), not: None });
    assert!(match_pattern(&only, "amd64"));
    assert!(!match_pattern(&only, "i386"));
    let but = Some(RepoPattern { is: None, not: Some("dbg".to_owned()) });
    assert!(match_pattern(&but, "foo"));
    assert!(!match_pattern(&but, "foo-dbgsym"));
    let both = Some(RepoPattern { is: Some("^foo".to_owned()), not: Some("dbg".to_owned()) });
    assert!(match_pattern(&both, "foo"));
    assert!(!match_pattern(&both, "foo-dbg"));
    assert!(!match_pattern(&both, "bar"));
    let broken = Some(RepoPattern { is: None, not: Some("(".to_owned()) });
    assert!(match_pattern(&broken, "x"));

    let repo = Repo { repo: "http://r/".to_owned(), version: None, arch: only, name: but };
    let wanted = AptPackage::from_str("foo_1_amd64.deb").unwrap();
    let other_arch = AptPackage::from_str("foo_1_i386.deb").unwrap();
    let debug = AptPackage::from_str("foo-dbg_1_amd64.deb").unwrap();
    assert!(repo.validate(&wanted));
    assert!(!repo.validate(&other_arch));
    assert!(!repo.validate(&debug));
}
