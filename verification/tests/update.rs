use debrep::update::{between, get_after, get_before};

#[test]
fn versions() {
    assert_eq!(
        get_after(
            "/atom/atom/releases/download/v1.26.1/atom-amd64.deb",
            "download/v"
        ),
        Some("1.26.1/atom-amd64.deb".to_owned())
    );

    assert_eq!(get_before("1.26.1/atom-amd64.deb", "/atom"), Some("1.26.1".to_owned()));

    assert_eq!(
        between(
            "/atom/atom/releases/download/v1.26.1/atom-amd64.deb",
            "download/v",
            "/atom"
        ),
        Some("1.26.1".to_owned())
    );
}

#[test]
fn nothing_is_found_where_the_mark_is_missing() {
    assert_eq!(get_after("abc", "x"), None);
    assert_eq!(get_before("abc", "x"), None);
    assert_eq!(between("abc", "a", "x"), None);
    assert_eq!(between("abc", "x", "c"), None);
    assert_eq!(get_after("abc", ""), Some("abc".to_owned()));
    assert_eq!(get_before("abc", ""), Some("".to_owned()));
    assert_eq!(get_after("aXbXc", "X"), Some("bXc".to_owned()));
    assert_eq!(get_before("aXbXc", "X"), Some("a".to_owned()));
}
