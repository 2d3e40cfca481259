use debrep::repo::version::{branch_ref, changelog_inner, head_branch, version_of_line};

const TEST: &str = r#"system76-cuda-9.2 (0pop2) bionic; urgency=medium

  * Fix postinst rules

 -- Michael Murphy <michael@system76.com>  Mon, 16 Jul 2018 12:00:00 -0600

system76-cuda-9.2 (0pop1) bionic; urgency=medium

  * Initial release.

 -- Michael Murphy <michael@system76.com>  Mon, 25 Jun 2018 13:52:00 -0600"#;

fn lines() -> Vec<String> {
    TEST.lines().map(|x| x.to_owned()).collect()
}

#[test]
fn changelog() {
    assert_eq!(
        changelog_inner(&lines(), 0),
        vec!["0pop2".to_owned(), "0pop1".to_owned()]
    )
}

#[test]
fn changelog_keeps_the_newest_versions() {
    assert_eq!(changelog_inner(&lines(), 1), vec!["0pop2".to_owned()]);
    assert_eq!(changelog_inner(&lines(), 2), vec!["0pop2".to_owned(), "0pop1".to_owned()]);
    assert_eq!(changelog_inner(&lines(), 5), vec!["0pop2".to_owned(), "0pop1".to_owned()]);
    assert_eq!(changelog_inner(&Vec::new(), 3), Vec::<String>::new());
}

#[test]
fn version_of_a_changelog_line() {
    assert_eq!(version_of_line("pkg (1.2-3) bionic; urgency=low"), "1.2-3");
    assert_eq!(version_of_line(" -- Someone <a@b>"), "");
    assert_eq!(version_of_line(""), "");
    assert_eq!(version_of_line("pkg"), "");
    assert_eq!(version_of_line("pkg x"), "");
    assert_eq!(version_of_line("pkg ()"), "");
    assert_eq!(version_of_line("pkg\t(7)\tz"), "7");
}

#[test]
fn branch_of_a_checkout() {
    assert_eq!(head_branch("ref: refs/heads/master\n"), "master");
    assert_eq!(head_branch("ref: refs/heads/feature/x\n"), "feature");
    assert_eq!(head_branch("0123456789abcdef\n"), "");
    assert_eq!(head_branch(""), "");
    assert_eq!(branch_ref("master"), ".git/refs/heads/master");
}
