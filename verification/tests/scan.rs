use debrep::debian::version::{compare_versions, supersedes, Relation};
use debrep::misc::{is_deb, INCLUDE_DDEB, INCLUDE_SRCS};
use debrep::repo::scan::{candidate, candidates, retain_latest, Candidate};

fn found(paths: &[&str]) -> Vec<Candidate> {
    candidates(&paths.iter().map(|p| p.to_string()).collect(), INCLUDE_DDEB)
}

fn kept(paths: &[&str]) -> Vec<(String, String, String)> {
    retain_latest(found(paths))
        .into_iter()
        .map(|c| (c.name, c.version, c.path))
        .collect()
}

#[test]
fn debian_versions_are_ordered() {
    assert_eq!(compare_versions("1.0", "1.1"), Some(Relation::Older));
    assert_eq!(compare_versions("1.1", "1.0"), Some(Relation::Newer));
    assert_eq!(compare_versions("1.0", "1.0"), Some(Relation::Same));
    assert_eq!(compare_versions("1.9", "1.10"), Some(Relation::Older));
    assert_eq!(compare_versions("1.0~rc1", "1.0"), Some(Relation::Older));
    assert_eq!(compare_versions("1.0+really1.0", "1.0"), Some(Relation::Newer));
    assert_eq!(compare_versions("1:0.1", "2.0"), Some(Relation::Newer));
    assert_eq!(compare_versions("1.0-1", "1.0-2"), Some(Relation::Older));
    assert_eq!(compare_versions("01", "1"), Some(Relation::Same));
    assert_eq!(compare_versions("é", "é"), Some(Relation::Same));
    assert_eq!(compare_versions("é1", "1"), None);
    assert_eq!(compare_versions("1", "é1"), None);
}

#[test]
fn a_version_gives_way_to_a_newer_or_equal_one() {
    assert!(supersedes("1.0", "1.1", true));
    assert!(supersedes("1.0", "1.0", true));
    assert!(!supersedes("1.1", "1.0", true));
    assert!(supersedes("1.9", "1.10", false));
    assert!(!supersedes("é1", "1", true));
}

#[test]
fn only_the_highest_version_is_kept() {
    assert_eq!(
        kept(&["b/f/foo/foo_1.0_amd64.deb", "b/f/foo/foo_1.1_amd64.deb"]),
        vec![("foo".to_owned(), "1.1".to_owned(), "b/f/foo/foo_1.1_amd64.deb".to_owned())]
    );
    assert_eq!(
        kept(&["b/f/foo/foo_1.1_amd64.deb", "b/f/foo/foo_1.0_amd64.deb"]),
        vec![("foo".to_owned(), "1.1".to_owned(), "b/f/foo/foo_1.1_amd64.deb".to_owned())]
    );
    assert_eq!(
        kept(&["foo_1.0+really1.0_amd64.deb", "foo_1.0_amd64.deb"]),
        vec![("foo".to_owned(), "1.0+really1.0".to_owned(), "foo_1.0+really1.0_amd64.deb".to_owned())]
    );
    assert_eq!(
        kept(&["foo_1.9_amd64.deb", "foo_1.10_amd64.deb"]),
        vec![("foo".to_owned(), "1.10".to_owned(), "foo_1.10_amd64.deb".to_owned())]
    );
}

#[test]
fn of_equal_versions_the_last_is_kept() {
    assert_eq!(
        kept(&["a/foo_1.0_amd64.deb", "b/foo_1.0_amd64.deb"]),
        vec![("foo".to_owned(), "1.0".to_owned(), "b/foo_1.0_amd64.deb".to_owned())]
    );
}

#[test]
fn debug_symbols_are_kept_apart() {
    assert_eq!(
        kept(&[
            "foo_1.0_amd64.deb",
            "foo_1.0_amd64.ddeb",
            "bar_2_amd64.deb",
            "foo_1.1_amd64.ddeb",
            "notes.txt",
            "foo.deb",
        ]),
        vec![
            ("foo".to_owned(), "1.0".to_owned(), "foo_1.0_amd64.deb".to_owned()),
            ("foo_d".to_owned(), "1.1".to_owned(), "foo_1.1_amd64.ddeb".to_owned()),
            ("bar".to_owned(), "2".to_owned(), "bar_2_amd64.deb".to_owned()),
        ]
    );
    assert_eq!(kept(&[]), vec![]);
}

#[test]
fn package_files_are_told_by_their_names() {
    assert!(is_deb("foo_1_amd64.deb", 0));
    assert!(!is_deb("foo_1_amd64.ddeb", 0));
    assert!(is_deb("foo_1_amd64.ddeb", INCLUDE_DDEB));
    assert!(!is_deb("foo_1.dsc", INCLUDE_DDEB));
    assert!(is_deb("foo_1.dsc", INCLUDE_SRCS));
    assert!(is_deb("foo_1.tar.gz", INCLUDE_SRCS));
    assert!(is_deb("foo_1.tar.xz", INCLUDE_SRCS | INCLUDE_DDEB));
    assert!(is_deb("foo_1.tar.zst", INCLUDE_SRCS));
    assert!(!is_deb("foo_1.tar.bz2", INCLUDE_SRCS));
    assert!(!is_deb("", 3));
    assert!(candidate("x/foo_1_amd64.deb", 0).is_some());
    assert!(candidate("x/foo_1_amd64.ddeb", 0).is_none());
    assert!(candidate("x_y/z.deb", 0).is_none());
}
