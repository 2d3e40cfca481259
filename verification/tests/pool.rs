use debrep::extract::{extract, Extractor};
use debrep::misc::match_deb;
use debrep::repo::migrate::{component_pool, is_migrated};
use debrep::repo::pool::{
    file_stem, is_archive, is_skipped, is_source, passes_filter, pool_action, pool_destination,
    PoolAction, ARCHIVES_ONLY, KEEP_SOURCE,
};
use debrep::repo::prepare::{
    belongs_to, get_version, is_stale, located_version, working_directories,
};

#[test]
fn files_go_to_their_place_in_the_pool() {
    assert_eq!(
        pool_destination("foo_1.0_amd64.deb", "bionic", "main"),
        "repo/pool/bionic/main/binary-amd64/f/foo"
    );
    assert_eq!(
        pool_destination("foo-dbgsym_1.0_amd64.ddeb", "bionic", "main"),
        "repo/pool/bionic/main/binary-amd64/f/foo"
    );
    assert_eq!(
        pool_destination("foo_1.0_all.deb", "bionic", "extra"),
        "repo/pool/bionic/extra/binary-all/f/foo"
    );
    assert_eq!(pool_destination("foo_1.0.dsc", "bionic", "main"), "repo/pool/bionic/main/source/f/foo");
    assert_eq!(
        pool_destination("foo_1.0.tar.xz", "bionic", "main"),
        "repo/pool/bionic/main/source/f/foo"
    );
    assert_eq!(
        pool_destination("foo-dbgsym_1.0.tar.gz", "bionic", "main"),
        "repo/pool/bionic/main/source/f/foo-dbgsym"
    );
    assert_eq!(pool_destination("readme", "s", "c"), "repo/pool/s/c/binary-eadme//");
}

#[test]
fn files_are_told_by_their_names() {
    assert!(is_source("a/b/foo_1.dsc"));
    assert!(is_source("foo_1.tar.gz"));
    assert!(is_source("foo_1.tar.xz"));
    assert!(is_source("foo_1.tar.zst"));
    assert!(!is_source("foo_1_amd64.deb"));
    assert!(is_archive("foo_1_amd64.deb"));
    assert!(is_archive("foo_1_amd64.ddeb"));
    assert!(!is_archive("foo_1.dsc"));
    assert_eq!(file_stem("foo_1_amd64.deb"), "foo_1_amd64");
    assert_eq!(file_stem("foo.tar.gz"), "foo.tar");
    assert_eq!(file_stem("foo"), "foo");
    assert_eq!(file_stem(".hidden"), ".hidden");
    assert_eq!(file_stem(""), "");
}

#[test]
fn files_of_a_package_pass_its_filter() {
    assert!(passes_filter("foo_1_amd64.deb", "foo"));
    assert!(passes_filter("foo-dbgsym_1_amd64.ddeb", "foo"));
    assert!(!passes_filter("foobar_1_amd64.deb", "foo"));
    assert!(!passes_filter("foo-dev_1_amd64.deb", "foo"));
    assert!(!passes_filter("foo", "foo"));
}

#[test]
fn sources_are_removed_unless_they_are_kept() {
    assert_eq!(pool_action("foo_1.dsc", 0), PoolAction::Remove);
    assert_eq!(pool_action("foo_1.tar.xz", ARCHIVES_ONLY), PoolAction::Remove);
    assert_eq!(pool_action("foo_1.dsc", KEEP_SOURCE), PoolAction::Move);
    assert_eq!(pool_action("foo_1_amd64.deb", 0), PoolAction::Move);
    assert!(is_skipped(true, "foo_1_amd64.deb", 0));
    assert!(!is_skipped(false, "foo_1.dsc", 0));
    assert!(is_skipped(false, "foo_1.dsc", ARCHIVES_ONLY));
    assert!(!is_skipped(false, "foo_1_amd64.deb", ARCHIVES_ONLY));
    assert!(!is_skipped(false, "foo_1_amd64.ddeb", ARCHIVES_ONLY | KEEP_SOURCE));
}

#[test]
fn files_of_the_pool_belong_to_packages() {
    assert!(belongs_to("foo_1.0_amd64.deb", "foo"));
    assert!(belongs_to("foo-dbgsym_1.0_amd64.ddeb", "foo"));
    assert!(belongs_to("foo", "foo"));
    assert!(!belongs_to("foobar_1.0_amd64.deb", "foo"));
    assert!(!belongs_to("-dbgsym_1", "foo"));
    assert!(belongs_to("-dbgsym_1", ""));
    assert_eq!(located_version("foo_1.0_amd64.deb"), Some("1.0".to_owned()));
    assert_eq!(located_version("foo_1.0.dsc"), Some("1.0".to_owned()));
    assert_eq!(located_version("foo_1.0.tar.xz"), Some("1.0".to_owned()));
    assert_eq!(located_version("foo_1.0.tar.zst"), Some("1.0".to_owned()));
    assert_eq!(located_version("foo"), None);
    assert_eq!(get_version("1.0.tar.gz"), "1.0");
    assert_eq!(get_version("1.0"), "1.0");
    assert_eq!(get_version(".dsc"), "");
    let keep = vec!["1.1".to_owned(), "1.0".to_owned()];
    assert!(!is_stale("1.0", &keep));
    assert!(is_stale("0.9", &keep));
    assert!(is_stale("1.0", &Vec::new()));
    assert_eq!(
        working_directories("bionic"),
        vec!["assets/cache/", "assets/share/", "assets/packages/", "build/bionic", "record/bionic", "logs/bionic"]
    );
}

#[test]
fn archives_are_unpacked_by_their_names() {
    assert_eq!(extract("assets/cache/foo_src.zip"), Some(Extractor::Unzip));
    assert_eq!(extract("foo.tar.gz"), Some(Extractor::Untar));
    assert_eq!(extract("a/foo.tar.xz"), Some(Extractor::Untar));
    assert_eq!(extract("a/foo.tar.zst"), Some(Extractor::Untar));
    assert_eq!(extract("a.zip/foo.txt"), None);
    assert_eq!(extract("foo.tar.bz2"), None);
    assert_eq!(extract(""), None);
}

#[test]
fn archives_of_wanted_packages() {
    let wanted = vec!["bar".to_owned(), "foo".to_owned(), "bar".to_owned()];
    assert_eq!(
        match_deb("foo_1_amd64.deb", "pool/f/foo/foo_1_amd64.deb", &wanted),
        Some(("pool/f/foo/foo_1_amd64.deb".to_owned(), 1))
    );
    assert_eq!(match_deb("bar_1_amd64.deb", "p", &wanted), Some(("p".to_owned(), 0)));
    assert_eq!(match_deb("baz_1_amd64.deb", "p", &wanted), None);
    assert_eq!(match_deb("foo.deb", "p", &wanted), None);
}

#[test]
fn packages_move_with_their_files() {
    assert!(is_migrated(1, "binary-amd64", "foo"));
    assert!(is_migrated(2, "f", "foo"));
    assert!(is_migrated(3, "foo", "foo"));
    assert!(!is_migrated(3, "foobar", "foo"));
    assert!(is_migrated(4, "foo_1_amd64.deb", "foo"));
    assert!(is_migrated(4, "foo_1_amd64.ddeb", "foo"));
    assert!(is_migrated(4, "foo_1.dsc", "foo"));
    assert!(!is_migrated(4, "notes.txt", "foo"));
    assert!(!is_migrated(0, "x", "foo"));
    assert!(!is_migrated(5, "foo_1_amd64.deb", "foo"));
    assert_eq!(component_pool("bionic", "main"), "repo/pool/bionic/main/");
}
