use debrep::apt::{
    filename_from_url, is_followed, is_page, wants_url, AptPackage, CROSS_DIR, CROSS_DOMAIN,
};
use debrep::cli::{Action, Arguments};
use debrep::config::repos::{Repo, RepoPattern};
use debrep::config::Update;
use debrep::repo::download::{
    after_fetch, get_destination, requires_download, AfterFetch, OnDisk, RequestCompare,
};
use debrep::update::{
    directory_update, github_update, latest_page, select_update, Found, NewUrl, UpdateError,
};

fn on_disk() -> OnDisk {
    OnDisk { digest: "abc".to_owned(), length: 10, modified: 1000 }
}

#[test]
fn a_file_is_fetched_unless_it_is_as_it_should_be() {
    let file = on_disk();
    assert!(requires_download(&RequestCompare::Checksum(Some("abc".into())), None));
    assert!(!requires_download(&RequestCompare::Checksum(Some("abc".into())), Some(&file)));
    assert!(requires_download(&RequestCompare::Checksum(Some("abd".into())), Some(&file)));
    assert!(requires_download(&RequestCompare::Checksum(None), Some(&file)));
    assert!(!requires_download(&RequestCompare::SizeAndModification(10, None), Some(&file)));
    assert!(!requires_download(&RequestCompare::SizeAndModification(10, Some(1000)), Some(&file)));
    assert!(requires_download(&RequestCompare::SizeAndModification(10, Some(1001)), Some(&file)));
    assert!(requires_download(&RequestCompare::SizeAndModification(11, None), Some(&file)));
    assert!(requires_download(&RequestCompare::SizeAndModification(10, None), None));
}

#[test]
fn a_fetch_is_tried_again_three_times() {
    let sum = RequestCompare::Checksum(Some("abc".into()));
    assert_eq!(after_fetch(&sum, "abc", 0), AfterFetch::Done);
    assert_eq!(after_fetch(&sum, "abd", 0), AfterFetch::Retry);
    assert_eq!(after_fetch(&sum, "abd", 2), AfterFetch::Retry);
    assert_eq!(after_fetch(&sum, "abd", 3), AfterFetch::Failed);
    assert_eq!(after_fetch(&sum, "abc", 3), AfterFetch::Done);
    assert_eq!(after_fetch(&RequestCompare::Checksum(None), "x", 0), AfterFetch::Done);
    assert_eq!(
        after_fetch(&RequestCompare::SizeAndModification(1, Some(77)), "x", 0),
        AfterFetch::SetModified(77)
    );
    assert_eq!(after_fetch(&RequestCompare::SizeAndModification(1, None), "x", 0), AfterFetch::Done);
}

#[test]
fn mirrored_files_go_to_the_pool() {
    let p = AptPackage::from_str("foo_1.0_amd64.deb").unwrap();
    assert_eq!(
        get_destination(&p, "bionic", "main"),
        "repo/pool/bionic/main/binary-amd64/f/foo/foo_1.0_amd64.deb"
    );
    let p = AptPackage::from_str("foo-dbg_1.0_amd64.deb").unwrap();
    assert_eq!(
        get_destination(&p, "bionic", "main"),
        "repo/pool/bionic/main/binary-amd64/f/foo/foo-dbgsym_1.0_amd64.ddeb"
    );
    let p = AptPackage::from_str("foo-dbgsym_1.0_amd64.ddeb").unwrap();
    assert_eq!(
        get_destination(&p, "bionic", "extra"),
        "repo/pool/bionic/extra/binary-amd64/f/foo/foo-dbgsym_1.0_amd64.ddeb"
    );
    let p = AptPackage::from_str("foo_1.0_x.tar.xz").unwrap();
    assert_eq!(get_destination(&p, "bionic", "main"), "repo/pool/bionic/main/source/f/foo/foo_1.0.tar.xz");
}

#[test]
fn a_crawler_follows_directories_and_wanted_packages() {
    let repo = Repo {
        repo: "http://r/".to_owned(),
        version: None,
        arch: Some(RepoPattern { is: Some("amd64".to_owned()), not: None }),
        name: None,
    };
    assert!(wants_url(&repo, "http://r/pool/"));
    assert!(wants_url(&repo, "http://r/pool/foo_1_amd64.deb"));
    assert!(!wants_url(&repo, "http://r/pool/foo_1_i386.deb"));
    assert!(!wants_url(&repo, "http://r/pool/index.html"));
    assert_eq!(filename_from_url("http://r/pool/foo_1_amd64.deb"), "foo_1_amd64.deb");
    assert_eq!(filename_from_url("foo"), "oo");
    assert_eq!(filename_from_url("f"), "f");
    assert_eq!(filename_from_url(""), "");
    assert_eq!(filename_from_url("a/"), "");
    assert!(is_followed(true, "/pool/main/", "/pool/", 0));
    assert!(!is_followed(false, "/pool/main/", "/pool/", 0));
    assert!(!is_followed(true, "/dists/", "/pool/", 0));
    assert!(is_followed(false, "/pool/main/", "/pool/", CROSS_DOMAIN));
    assert!(is_followed(true, "/dists/", "/pool/", CROSS_DIR));
    assert!(!is_followed(false, "/dists/", "/pool/", CROSS_DIR));
    assert!(is_followed(false, "/dists/", "/pool/", CROSS_DIR | CROSS_DOMAIN));
    assert!(is_page("text/html; charset=utf-8"));
    assert!(!is_page("application/x-debian-package"));
    assert!(!is_page(""));
}

fn update(source: &str, url: &str) -> Update {
    Update {
        source: source.to_owned(),
        url: url.to_owned(),
        after: "download/v".to_owned(),
        before: "/atom".to_owned(),
        contains: None,
        build_from: None,
    }
}

fn links(list: &[&str]) -> Vec<String> {
    list.iter().map(|l| l.to_string()).collect()
}

#[test]
fn the_newest_release_of_a_directory() {
    let mut u = update("directory", "https://host/dir");
    u.after = "pkg_".to_owned();
    u.before = "_".to_owned();
    let page = links(&["../", "pkg_1.0_amd64.deb", "pkg_1.1_i386.deb", "pkg_1.1_amd64.deb", "readme.txt"]);
    assert_eq!(
        directory_update(&u, "amd64", "pkg", &page),
        Ok(Some(Found {
            version: "1.1".to_owned(),
            url: NewUrl::Url("https://host/dir/pkg_1.1_amd64.deb".to_owned())
        }))
    );
    assert_eq!(
        select_update(&u, "i386", "pkg", &page).unwrap().unwrap().url,
        NewUrl::Url("https://host/dir/pkg_1.1_i386.deb".to_owned())
    );
    u.url = "https://host/dir/".to_owned();
    u.contains = Some("1.0".to_owned());
    assert_eq!(
        directory_update(&u, "all", "pkg", &page),
        Ok(Some(Found {
            version: "1.0".to_owned(),
            url: NewUrl::Url("https://host/dir/pkg_1.0_amd64.deb".to_owned())
        }))
    );
    u.contains = None;
    u.after = "nothing".to_owned();
    assert_eq!(
        directory_update(&u, "amd64", "pkg", &page),
        Err(UpdateError::NoVersion { link: "pkg_1.1_amd64.deb".to_owned() })
    );
    assert_eq!(directory_update(&u, "amd64", "pkg", &links(&["readme.txt"])), Ok(None));
}

#[test]
fn the_latest_release_on_github() {
    let u = update("github", "atom/atom");
    let page = links(&[
        "/atom/atom/releases/tag/v1.26.1",
        "/atom/atom/releases/download/v1.26.1/atom-amd64.deb",
        "https://elsewhere/download/v9/atom.deb",
    ]);
    assert_eq!(latest_page("atom/atom"), "https://github.com/atom/atom/releases/latest/");
    assert_eq!(
        github_update(&u, "atom", &page),
        Ok(Some(Found {
            version: "1.26.1".to_owned(),
            url: NewUrl::Path {
                base: "https://github.com/atom/atom/releases/latest/".to_owned(),
                path: "/atom/atom/releases/download/v1.26.1/atom-amd64.deb".to_owned()
            }
        }))
    );
    let mut absolute = update("github", "atom/atom");
    absolute.contains = Some("elsewhere".to_owned());
    absolute.before = "/atom".to_owned();
    assert_eq!(
        select_update(&absolute, "amd64", "atom", &page),
        Ok(Some(Found {
            version: "9".to_owned(),
            url: NewUrl::Url("https://elsewhere/download/v9/atom.deb".to_owned())
        }))
    );
    assert_eq!(
        github_update(&u, "atom", &links(&["/other"])),
        Err(UpdateError::NotFound { package: "atom".to_owned() })
    );
    let mut built = update("github", "atom/atom");
    built.after = "tag/v".to_owned();
    built.build_from = Some(links(&["https://dl.example.org", "atom-", "-amd64.deb"]));
    assert_eq!(
        github_update(&built, "atom", &page),
        Ok(Some(Found {
            version: "1.26.1".to_owned(),
            url: NewUrl::Url("https://dl.example.org/atom-1.26.1-amd64.deb".to_owned())
        }))
    );
    built.build_from = Some(links(&["a", "b"]));
    assert_eq!(
        github_update(&built, "atom", &page),
        Err(UpdateError::BuildFrom { package: "atom".to_owned() })
    );
    assert_eq!(select_update(&update("manual", "x"), "amd64", "atom", &page), Ok(None));
}

fn arguments(command: &str, inner: Option<&str>) -> Arguments {
    Arguments {
        command: command.to_owned(),
        inner: inner.map(|i| i.to_owned()),
        packages: vec!["foo".to_owned()],
        force: true,
        key: None,
        value: None,
        from: None,
        to: None,
    }
}

#[test]
fn the_command_line_asks_for_an_action() {
    assert_eq!(Action::new(arguments("build", None)), Some(Action::UpdateRepository));
    assert_eq!(
        Action::new(arguments("build", Some("packages"))),
        Some(Action::Build(vec!["foo".to_owned()], true))
    );
    assert_eq!(Action::new(arguments("build", Some("pool"))), Some(Action::Pool));
    assert_eq!(Action::new(arguments("build", Some("dist"))), Some(Action::Dist));
    assert_eq!(Action::new(arguments("clean", None)), Some(Action::Clean));
    assert_eq!(Action::new(arguments("remove", None)), Some(Action::Remove(vec!["foo".to_owned()])));
    assert_eq!(Action::new(arguments("config", None)), Some(Action::FetchConfig));
    let mut a = arguments("config", None);
    a.key = Some("archive".to_owned());
    assert_eq!(Action::new(a.clone()), Some(Action::Fetch("archive".to_owned())));
    a.value = Some("redox".to_owned());
    assert_eq!(Action::new(a), Some(Action::Update("archive".to_owned(), "redox".to_owned())));
    let mut m = arguments("migrate", None);
    assert_eq!(Action::new(m.clone()), None);
    m.from = Some("main".to_owned());
    m.to = Some("extra".to_owned());
    assert_eq!(
        Action::new(m),
        Some(Action::Migrate(vec!["foo".to_owned()], "main".to_owned(), "extra".to_owned()))
    );
    assert_eq!(Action::new(arguments("update", None)), None);
}
