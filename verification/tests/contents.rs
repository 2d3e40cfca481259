use debrep::debian::contents::{contents_index, package_id, record_of, ContentsEntry};
use debrep::debian::control::ControlMap;
use debrep::order::{key_precedes, record_precedes, sort_records, KeyOrder, Record};

fn entry(package: &str, files: &[&str]) -> ContentsEntry {
    ContentsEntry {
        package: package.to_owned(),
        files: files.iter().map(|f| f.as_bytes().to_vec()).collect(),
    }
}

fn lines(entries: &Vec<ContentsEntry>) -> Vec<String> {
    contents_index(entries)
        .lines
        .into_iter()
        .map(|l| String::from_utf8(l).unwrap())
        .collect()
}

#[test]
fn contents_are_sorted_by_path() {
    let entries = vec![
        entry("utils/zeta", &["./usr/bin/zeta", "usr/share/doc/zeta/copyright"]),
        entry("utils/alpha", &["./usr/bin/alpha", "./etc/alpha.conf"]),
    ];
    assert_eq!(
        lines(&entries),
        vec![
            "etc/alpha.conf  utils/alpha\n",
            "usr/bin/alpha  utils/alpha\n",
            "usr/bin/zeta  utils/zeta\n",
            "usr/share/doc/zeta/copyright  utils/zeta\n",
        ]
    );
    assert_eq!(contents_index(&entries).duplicates.len(), 0);
}

#[test]
fn a_path_of_two_packages_is_reported_and_kept() {
    let entries = vec![
        entry("utils/foo", &["usr/bin/foo", "usr/bin/only-foo"]),
        entry("extra/utils/bar", &["./usr/bin/foo"]),
    ];
    let index = contents_index(&entries);
    let text: Vec<String> =
        index.lines.iter().map(|l| String::from_utf8(l.clone()).unwrap()).collect();
    assert_eq!(
        text,
        vec![
            "usr/bin/foo  extra/utils/bar\n",
            "usr/bin/foo  utils/foo\n",
            "usr/bin/only-foo  utils/foo\n",
        ]
    );
    assert_eq!(index.duplicates.len(), 1);
    assert_eq!(index.duplicates[0].path, b"usr/bin/foo");
    assert_eq!(index.duplicates[0].first, b"extra/utils/bar");
    assert_eq!(index.duplicates[0].second, b"utils/foo");
}

#[test]
fn three_owners_of_a_path_give_two_warnings() {
    let entries = vec![entry("c", &["p"]), entry("a", &["p"]), entry("b", &["p", "q"])];
    let index = contents_index(&entries);
    assert_eq!(index.lines.len(), 4);
    assert_eq!(index.duplicates.len(), 2);
    assert_eq!(index.duplicates[0].first, b"a");
    assert_eq!(index.duplicates[0].second, b"b");
    assert_eq!(index.duplicates[1].first, b"b");
    assert_eq!(index.duplicates[1].second, b"c");
}

#[test]
fn contents_do_not_depend_on_the_order_of_the_packages() {
    let a = vec![
        entry("s/one", &["./b", "./a"]),
        entry("s/two", &["c", "./a"]),
        entry("s/three", &[]),
    ];
    let b = vec![
        entry("s/three", &[]),
        entry("s/two", &["./a", "c"]),
        entry("s/one", &["./a", "./b"]),
    ];
    assert_eq!(lines(&a), lines(&b));
    assert_eq!(lines(&a), vec!["a  s/one\n", "a  s/two\n", "b  s/one\n", "c  s/two\n"]);
    assert_eq!(lines(&Vec::new()), Vec::<String>::new());
}

#[test]
fn only_a_leading_dot_slash_is_stripped() {
    assert_eq!(record_of("p", b"./x").key, b"x");
    assert_eq!(record_of("p", b"x/./y").key, b"x/./y");
    assert_eq!(record_of("p", b".").key, b".");
    assert_eq!(record_of("p", b"./").key, b"");
    assert_eq!(record_of("p", b"").key, b"");
    assert_eq!(record_of("p", b"../x").key, b"../x");
    assert_eq!(record_of("p/q", b"x").body, b"p/q");
}

#[test]
fn a_path_that_is_no_text_keeps_its_bytes() {
    let odd = vec![46u8, 47, 0xff, 0xfe, b'/', b'x'];
    assert_eq!(record_of("p", &odd).key, vec![0xffu8, 0xfe, b'/', b'x']);
    let entries = vec![ContentsEntry { package: "s/p".to_owned(), files: vec![odd, b"./a".to_vec()] }];
    let index = contents_index(&entries);
    assert_eq!(index.lines[0], b"a  s/p\n".to_vec());
    assert_eq!(index.lines[1], vec![0xffu8, 0xfe, b'/', b'x', b' ', b' ', b's', b'/', b'p', b'\n']);
}

#[test]
fn package_identifier() {
    let control = ControlMap::from_pairs(vec![
        ("Package".to_owned(), "foo".to_owned()),
        ("Section".to_owned(), "utils".to_owned()),
    ]);
    assert_eq!(package_id(&control, "main", "main"), Some("utils/foo".to_owned()));
    assert_eq!(package_id(&control, "extra", "main"), Some("extra/utils/foo".to_owned()));
    let no_section =
        ControlMap::from_pairs(vec![("Package".to_owned(), "foo".to_owned())]);
    assert_eq!(package_id(&no_section, "main", "main"), None);
    let no_package =
        ControlMap::from_pairs(vec![("Section".to_owned(), "utils".to_owned())]);
    assert_eq!(package_id(&no_package, "main", "main"), None);
}

#[test]
fn paths_sort_part_by_part() {
    assert!(key_precedes(b"f/foo/x", b"f/foo-bar/x", KeyOrder::Path));
    assert!(!key_precedes(b"f/foo-bar/x", b"f/foo/x", KeyOrder::Path));
    assert!(key_precedes(b"f/foo-bar/x", b"f/foo/x", KeyOrder::Bytes));
    assert!(key_precedes(b"a", b"a", KeyOrder::Path));
    assert!(key_precedes(b"", b"a", KeyOrder::Bytes));
    assert!(!key_precedes(b"a", b"", KeyOrder::Bytes));
    assert!(key_precedes(b"a/b", b"a/b/c", KeyOrder::Path));
    assert!(key_precedes(&[0u8], b"/", KeyOrder::Bytes));
    assert!(key_precedes(b"/", &[0u8], KeyOrder::Path));
}

#[test]
fn records_are_sorted_by_key_then_body() {
    let record = |k: &str, b: &str| Record { key: k.as_bytes().to_vec(), body: b.as_bytes().to_vec() };
    let sorted = sort_records(
        vec![record("b", "1"), record("a", "2"), record("c", "0"), record("a", "1"), record("", "9")],
        KeyOrder::Bytes,
    );
    let pairs: Vec<(Vec<u8>, Vec<u8>)> = sorted.into_iter().map(|r| (r.key, r.body)).collect();
    assert_eq!(
        pairs,
        vec![
            (b"".to_vec(), b"9".to_vec()),
            (b"a".to_vec(), b"1".to_vec()),
            (b"a".to_vec(), b"2".to_vec()),
            (b"b".to_vec(), b"1".to_vec()),
            (b"c".to_vec(), b"0".to_vec()),
        ]
    );
    assert!(record_precedes(&record("a", "2"), &record("b", "1"), KeyOrder::Bytes));
    assert!(record_precedes(&record("a", "1"), &record("a", "2"), KeyOrder::Bytes));
    assert!(!record_precedes(&record("a", "2"), &record("a", "1"), KeyOrder::Bytes));
    assert_eq!(sort_records(Vec::new(), KeyOrder::Path).len(), 0);
}

#[test]
fn many_records_are_sorted() {
    let mut records = Vec::new();
    let mut x: u32 = 12345;
    for _ in 0..2000 {
        x = x.wrapping_mul(1664525).wrapping_add(1013904223);
        records.push(Record { key: format!("{:08x}", x % 977).into_bytes(), body: format!("{}", x).into_bytes() });
    }
    let mut expected: Vec<(Vec<u8>, Vec<u8>)> =
        records.iter().map(|r| (r.key.clone(), r.body.clone())).collect();
    expected.sort();
    let sorted: Vec<(Vec<u8>, Vec<u8>)> =
        sort_records(records, KeyOrder::Bytes).into_iter().map(|r| (r.key, r.body)).collect();
    assert_eq!(sorted, expected);
}
