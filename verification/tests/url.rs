use debrep::url::{UrlToken, UrlTokenizer};

#[test]
fn url_tokenizer() {
    let url = "https://app.domain.org/${name}/${name}_${version}.deb";
    assert_eq!(
        UrlTokenizer::new(url).collect(),
        vec![
            UrlToken::Normal("https://app.domain.org/".to_owned()),
            UrlToken::Name,
            UrlToken::Normal("/".to_owned()),
            UrlToken::Name,
            UrlToken::Normal("_".to_owned()),
            UrlToken::Version,
            UrlToken::Normal(".deb".to_owned())
        ]
    );

    assert_eq!(
        UrlTokenizer::finalize(url, "system76", "1.0.0"),
        Ok("https://app.domain.org/system76/system76_1.0.0.deb".into())
    );

    assert_eq!(
        UrlTokenizer::finalize("https://app.domain.org/package_version.deb", "foo", "bar"),
        Ok("https://app.domain.org/package_version.deb".into())
    )
}

#[test]
fn tokenizer_hands_out_tokens_one_by_one() {
    let mut tokenizer = UrlTokenizer::new("a${name}b");
    assert_eq!(tokenizer.next(), Some(UrlToken::Normal("a".to_owned())));
    assert_eq!(tokenizer.next(), Some(UrlToken::Name));
    assert_eq!(tokenizer.next(), Some(UrlToken::Normal("b".to_owned())));
    assert_eq!(tokenizer.next(), None);
    assert_eq!(tokenizer.next(), None);
}

#[test]
fn tokenizer_reports_unknown_variables() {
    assert_eq!(
        UrlTokenizer::new("x/${arch}/y").collect(),
        vec![
            UrlToken::Normal("x/".to_owned()),
            UrlToken::Unsupported("arch".to_owned()),
            UrlToken::Normal("/y".to_owned()),
        ]
    );
    assert_eq!(UrlTokenizer::finalize("x/${arch}/y", "n", "v"), Err("arch".to_owned()));
    assert_eq!(UrlTokenizer::finalize("${a}${b}", "n", "v"), Err("a".to_owned()));
}

#[test]
fn tokenizer_edge_cases() {
    assert_eq!(UrlTokenizer::new("").collect(), vec![]);
    assert_eq!(UrlTokenizer::new("a").collect(), vec![UrlToken::Normal("a".to_owned())]);
    assert_eq!(UrlTokenizer::new("${name}").collect(), vec![UrlToken::Name]);
    assert_eq!(UrlTokenizer::new("${version}").collect(), vec![UrlToken::Version]);
    assert_eq!(UrlTokenizer::new("${}").collect(), vec![]);
    assert_eq!(UrlTokenizer::new("abc${").collect(), vec![UrlToken::Normal("abc".to_owned())]);
    // A variable that is not closed loses its last character.
    assert_eq!(
        UrlTokenizer::new("${name").collect(),
        vec![UrlToken::Unsupported("nam".to_owned())]
    );
    assert_eq!(UrlTokenizer::finalize("${name}-${version}", "pkg", "2"), Ok("pkg-2".to_owned()));
    assert_eq!(UrlTokenizer::finalize("", "pkg", "2"), Ok("".to_owned()));
}
