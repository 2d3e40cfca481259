use debrep::config::{
    default_architectures, default_component, Config, ConfigError, ConfigFetch, Direct,
    DirectPath, Source, Value,
};

fn fetched(config: &Config, key: &str) -> Option<String> {
    config.fetch(key).and_then(|value| value.text().map(|text| text.to_owned()))
}

fn direct(name: &str, version: &str, url: &str) -> Direct {
    Direct {
        name: name.to_owned(),
        version: version.to_owned(),
        urls: vec![DirectPath {
            checksum: None,
            arch: Some("amd64".to_owned()),
            name: None,
            url: url.to_owned(),
        }],
        checksum: None,
        update: None,
    }
}

fn example() -> Config {
    Config {
        path: "suites/bionic.toml".to_owned(),
        archive: "bionic".to_owned(),
        version: "18.04".to_owned(),
        origin: "system76-example".to_owned(),
        label: "Pop!_OS Example".to_owned(),
        email: "michael@system76.com".to_owned(),
        architectures: default_architectures(),
        direct: Some(vec![
            direct(
                "atom-editor",
                "1.26.0",
                "https://atom-installer.github.com/v1.26.0/atom-amd64.deb",
            ),
            direct(
                "code",
                "1.22.2-1523551015",
                "https://az764295.vo.msecnd.net/stable/3aeede733d9a3098f7b4bdc1f66b63b0f48c1ef9/code_1.22.2-1523551015_amd64.deb",
            ),
        ]),
        source: None,
        repos: None,
        default_component: default_component(),
        extra_repos: None,
        extra_keys: Vec::new(),
    }
}

#[test]
fn fetch() {
    let config = example();

    assert_eq!(fetched(&config, "version").as_ref().unwrap(), "18.04");
    assert_eq!(
        fetched(&config, "direct.atom-editor.version").as_ref().unwrap(),
        "1.26.0"
    );
    assert_eq!(
        fetched(&config, "direct.code.version").as_ref().unwrap(),
        "1.22.2-1523551015"
    );
}

#[test]
fn update() {
    let mut config = example();

    assert_eq!(fetched(&config, "archive").as_ref().unwrap(), "bionic");
    config.update("archive", "redox".into()).unwrap();
    assert_eq!(fetched(&config, "archive").as_ref().unwrap(), "redox");

    assert_eq!(
        fetched(&config, "direct.atom-editor.version").as_ref().unwrap(),
        "1.26.0"
    );
    config
        .update("direct.atom-editor.version", "1.27.0".into())
        .unwrap();
    assert_eq!(
        fetched(&config, "direct.atom-editor.version").as_ref().unwrap(),
        "1.27.0"
    );
}

#[test]
fn keys_that_name_nothing() {
    let mut config = example();
    assert_eq!(config.fetch("nothing"), None);
    assert_eq!(config.fetch("direct.unknown.version"), None);
    assert_eq!(config.fetch("direct.code.arch"), None);
    assert_eq!(config.fetch("direct"), Some(Value::AllPackages));
    assert_eq!(config.fetch("direct.code"), Some(Value::Package("code".to_owned())));
    assert_eq!(config.fetch("direct.code."), Some(Value::Package("code".to_owned())));
    assert_eq!(config.fetch("direct.code.urls"), Some(Value::Files("code".to_owned())));
    assert_eq!(config.fetch("source.code.name"), Some(Value::Text("code".to_owned())));
    assert_eq!(fetched(&config, "origin").as_ref().unwrap(), "system76-example");
    assert_eq!(fetched(&config, "label").as_ref().unwrap(), "Pop!_OS Example");
    assert_eq!(fetched(&config, "email").as_ref().unwrap(), "michael@system76.com");
    assert_eq!(Value::AllPackages.text(), None);
    assert_eq!(config.update("nothing", "x".into()), Err(ConfigError::InvalidKey));
    assert_eq!(config.update("direct.code", "x".into()), Err(ConfigError::InvalidKey));
    assert_eq!(config.update("direct.code.urls", "x".into()), Err(ConfigError::InvalidKey));
    assert_eq!(config.update("direct.unknown.name", "x".into()), Err(ConfigError::InvalidKey));
    assert_eq!(config.update("direct.code.name", "vscode".into()), Ok(()));
    assert_eq!(fetched(&config, "direct.vscode.version").as_ref().unwrap(), "1.22.2-1523551015");
    assert_eq!(fetched(&config, "direct.atom-editor.name").as_ref().unwrap(), "atom-editor");
}

#[test]
fn packages_that_the_configuration_knows() {
    let mut config = example();
    config.direct.as_mut().unwrap()[0].urls[0].name = Some("atom".to_owned());
    config.source = Some(vec![Source {
        name: "distinst".to_owned(),
        version: None,
        location: None,
        assets: None,
        starting_build: None,
        prebuild: None,
        build_on: None,
        repos: None,
        keep_source: true,
        debian: None,
        depends: None,
        retain: 3,
        extract: true,
    }]);
    assert!(config.direct_exists("code"));
    assert!(config.direct_exists("atom"));
    assert!(config.direct_exists("atom-editor"));
    assert!(!config.direct_exists("distinst"));
    assert!(config.source_exists("distinst"));
    assert!(!config.source_exists("code"));
    assert!(config.package_exists("distinst"));
    assert!(config.package_exists("code"));
    assert!(!config.package_exists("other"));
}

#[test]
fn destinations_of_direct_downloads() {
    let mut d = direct("atom-editor", "1.26.0", "https://host/v${version}/atom-amd64.deb");
    d.urls[0].arch = None;
    d.urls.push(DirectPath {
        checksum: None,
        arch: None,
        name: Some("atom-src".to_owned()),
        url: "https://host/${name}_${version}.tar.xz".to_owned(),
    });
    let list = d.get_destinations("bionic", "main").unwrap();
    assert_eq!(list.len(), 2);
    assert_eq!(list[0].url, "https://host/v1.26.0/atom-amd64.deb");
    assert_eq!(
        list[0].pool,
        "repo/pool/bionic/main/binary-amd64/a/atom-editor/atom-editor_1.26.0_amd64.deb"
    );
    assert_eq!(
        list[0].assets,
        Some((
            "assets/replace/bionic/main/binary-amd64//atom-editor/files".to_owned(),
            "assets/replace/bionic/main/binary-amd64//atom-editor/atom-editor_1.26.0_amd64.deb"
                .to_owned()
        ))
    );
    assert_eq!(list[1].url, "https://host/atom-src_1.26.0.tar.xz");
    assert_eq!(list[1].pool, "repo/pool/bionic/main/source/a/atom-src/atom-src_1.26.0.tar.xz");
    assert_eq!(list[1].assets, None);

    let bad = direct("x", "1", "https://host/${arch}/x.deb");
    assert_eq!(bad.get_destinations("bionic", "main").unwrap_err().variable, "arch");
}
