use debrep::debian::gen_filename;
use debrep::debian::info::get_debian_package_info;
use debrep::misc::{filename_from_url, get_arch_from_stem};

#[test]
fn debian_version() {
    let package = "/some_/pa_th/to/name_version_arch.deb";
    assert_eq!(
        get_debian_package_info(package),
        Some(("name".to_owned(), "version".to_owned()))
    );

    let package = "/some_/pa_th/to/name_version_arch.ddeb";
    assert_eq!(
        get_debian_package_info(package),
        Some(("name_d".to_owned(), "version".to_owned()))
    );
}

#[test]
fn package_info_needs_two_separators() {
    assert_eq!(get_debian_package_info("pool/f/foo/foo.deb"), None);
    assert_eq!(get_debian_package_info("pool/f/foo/foo_1.0.deb"), None);
    assert_eq!(get_debian_package_info(""), None);
    assert_eq!(
        get_debian_package_info("foo_1.0_amd64.deb"),
        Some(("foo".to_owned(), "1.0".to_owned()))
    );
}

#[test]
fn generated_file_names() {
    assert_eq!(gen_filename("foo", "1.0", "amd64", "deb"), "foo_1.0_amd64.deb");
    assert_eq!(gen_filename("foo", "1.0", "amd64", "ddeb"), "foo-dbgsym_1.0_amd64.ddeb");
    assert_eq!(gen_filename("foo-dbg", "1.0", "amd64", "deb"), "foo-dbgsym_1.0_amd64.ddeb");
    assert_eq!(gen_filename("foo-dbgsym", "1.0", "i386", "deb"), "foo-dbgsym_1.0_i386.ddeb");
    assert_eq!(gen_filename("foo", "1.0", "amd64", "dsc"), "foo_1.0.dsc");
    assert_eq!(gen_filename("foo", "1.0", "amd64", "tar.xz"), "foo_1.0.tar.xz");
    assert_eq!(gen_filename("foo", "1.0", "amd64", "tar.gz"), "foo_1.0.tar.gz");
    assert_eq!(gen_filename("foo", "1.0", "amd64", "tar.zst"), "foo_1.0.tar.zst");
}

#[test]
fn file_name_of_a_url() {
    assert_eq!(filename_from_url("https://host/dir/file.deb"), "file.deb");
    assert_eq!(filename_from_url("file.deb"), "file.deb");
    assert_eq!(filename_from_url("https://host/dir/"), "");
}

#[test]
fn architecture_of_a_stem() {
    assert_eq!(get_arch_from_stem("atom-amd64"), "amd64");
    assert_eq!(get_arch_from_stem("code_1.22_i386"), "i386");
    assert_eq!(get_arch_from_stem("foo_1.0_arm64"), "arm64");
    assert_eq!(get_arch_from_stem("foo_1.0_arm64-extra"), "arm64");
    assert_eq!(get_arch_from_stem("xarmhf"), "armhf");
    assert_eq!(get_arch_from_stem(""), "");
}
