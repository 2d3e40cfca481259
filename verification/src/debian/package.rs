//! One package of the repository, and its stanza in a `Packages` index.

use vstd::prelude::*;
use vstd::string::StrSliceExecFns;
use vstd::utf8::encode_utf8;
use crate::debian::control::ControlMap;
use crate::error::Error;
use crate::text::{chars_of, decimal, push_all, push_decimal, push_str, string_of};

verus! {

/// What an index says of one package: its control fields, where its archive
/// lies in the pool, the archive's size, and four digests of it.
pub struct PackageEntry {
    pub control: ControlMap,
    pub filename: String,
    pub size: u64,
    pub md5sum: String,
    pub sha1: String,
    pub sha256: String,
    pub sha512: String,
}

/// One line of a stanza.
pub open spec fn field_line(key: Seq<char>, value: Seq<char>) -> Seq<char> {
    key + ": "@ + value + "\n"@
}

/// The line of a field that every stanza holds.
pub open spec fn required_field(control: Map<Seq<char>, Seq<char>>, key: Seq<char>) -> Seq<
    char,
> {
    field_line(key, control[key])
}

/// The line of a field that a stanza may hold: its whole value, as the
/// control data gives it, where the field is present, and nothing at all
/// where it is absent. A field that is present with an empty value is
/// written with that value.
pub open spec fn optional_field(control: Map<Seq<char>, Seq<char>>, key: Seq<char>) -> Seq<
    char,
> {
    if control.contains_key(key) {
        field_line(key, control[key])
    } else {
        Seq::empty()
    }
}

/// The line that names where bugs are reported, where that is configured.
pub open spec fn bugs_field(bugs: Option<Seq<char>>) -> Seq<char> {
    match bugs {
        Some(b) => field_line("Bugs"@, b),
        None => Seq::empty(),
    }
}

/// The first of the fields that every stanza holds which the control data
/// lacks, in the order of the stanza.
pub open spec fn missing_field(control: Map<Seq<char>, Seq<char>>) -> Option<Seq<char>> {
    if !control.contains_key("Package"@) {
        Some("Package"@)
    } else if !control.contains_key("Architecture"@) {
        Some("Architecture"@)
    } else if !control.contains_key("Version"@) {
        Some("Version"@)
    } else if !control.contains_key("Priority"@) {
        Some("Priority"@)
    } else if !control.contains_key("Section"@) {
        Some("Section"@)
    } else if !control.contains_key("Maintainer"@) {
        Some("Maintainer"@)
    } else if !control.contains_key("Installed-Size"@) {
        Some("Installed-Size"@)
    } else {
        None
    }
}

/// The text of an optional argument.
pub open spec fn opt_text(s: Option<&str>) -> Option<Seq<char>> {
    match s {
        Some(t) => Some(t@),
        None => None,
    }
}

/// The stanza of a package: its fields in the order that APT clients
/// expect, each as `Key: value` on a line of its own.
pub open spec fn stanza(
    control: Map<Seq<char>, Seq<char>>,
    filename: Seq<char>,
    size: nat,
    md5sum: Seq<char>,
    sha1: Seq<char>,
    sha256: Seq<char>,
    sha512: Seq<char>,
    origin: Seq<char>,
    bugs: Option<Seq<char>>,
) -> Seq<char> {
    required_field(control, "Package"@)
        + optional_field(control, "Package-Type"@)
        + required_field(control, "Architecture"@)
        + required_field(control, "Version"@)
        + optional_field(control, "Multi-Arch"@)
        + optional_field(control, "Auto-Built-Package"@)
        + required_field(control, "Priority"@)
        + required_field(control, "Section"@)
        + field_line("Origin"@, origin)
        + required_field(control, "Maintainer"@)
        + required_field(control, "Installed-Size"@)
        + optional_field(control, "Provides"@)
        + optional_field(control, "Pre-Depends"@)
        + optional_field(control, "Depends"@)
        + optional_field(control, "Recommends"@)
        + optional_field(control, "Suggests"@)
        + optional_field(control, "Conflicts"@)
        + optional_field(control, "Breaks"@)
        + optional_field(control, "Replaces"@)
        + bugs_field(bugs)
        + field_line("Filename"@, filename)
        + field_line("Size"@, decimal(size))
        + field_line("MD5sum"@, md5sum)
        + field_line("SHA1"@, sha1)
        + field_line("SHA256"@, sha256)
        + field_line("SHA512"@, sha512)
        + optional_field(control, "Homepage"@)
        + optional_field(control, "Description"@)
        + optional_field(control, "License"@)
        + optional_field(control, "Vendor"@)
        + optional_field(control, "Build-Ids"@)
}

/// A field that the control data lacks adds nothing to a stanza.
pub proof fn lemma_absent_field_is_omitted(control: Map<Seq<char>, Seq<char>>, key: Seq<char>)
    requires
        !control.contains_key(key),
    ensures
        optional_field(control, key) == Seq::<char>::empty(),
{
}

fn push_field(out: &mut Vec<char>, key: &str, value: &[char])
    ensures
        final(out)@ == old(out)@ + field_line(key@, value@),
{
    push_str(out, key);
    push_str(out, ": ");
    push_all(out, value);
    push_str(out, "\n");
    assert(out@ =~= old(out)@ + field_line(key@, value@));
}

fn push_text_field(out: &mut Vec<char>, key: &str, value: &str)
    ensures
        final(out)@ == old(out)@ + field_line(key@, value@),
{
    let v = chars_of(value);
    push_field(out, key, v.as_slice());
}

fn push_required(out: &mut Vec<char>, control: &ControlMap, key: &str)
    requires
        control@.contains_key(key@),
    ensures
        final(out)@ == old(out)@ + required_field(control@, key@),
{
    match control.get(key) {
        Some(value) => {
            push_text_field(out, key, value.as_str());
        },
        None => {},
    }
}

fn push_optional(out: &mut Vec<char>, control: &ControlMap, key: &str)
    ensures
        final(out)@ == old(out)@ + optional_field(control@, key@),
{
    match control.get(key) {
        Some(value) => {
            push_text_field(out, key, value.as_str());
        },
        None => {
            assert(out@ =~= old(out)@ + optional_field(control@, key@));
        },
    }
}

/// The first required field that `control` lacks.
pub fn first_missing_field(control: &ControlMap) -> (r: Option<&'static str>)
    ensures
        match r {
            Some(k) => missing_field(control@) == Some(k@),
            None => missing_field(control@) is None,
        },
{
    if !control.contains_key("Package") {
        Some("Package")
    } else if !control.contains_key("Architecture") {
        Some("Architecture")
    } else if !control.contains_key("Version") {
        Some("Version")
    } else if !control.contains_key("Priority") {
        Some("Priority")
    } else if !control.contains_key("Section") {
        Some("Section")
    } else if !control.contains_key("Maintainer") {
        Some("Maintainer")
    } else if !control.contains_key("Installed-Size") {
        Some("Installed-Size")
    } else {
        None
    }
}

impl PackageEntry {
    /// The stanza of this package as text.
    pub open spec fn spec_stanza(self, origin: Seq<char>, bugs: Option<Seq<char>>) -> Seq<char> {
        stanza(
            self.control@,
            self.filename@,
            self.size as nat,
            self.md5sum@,
            self.sha1@,
            self.sha256@,
            self.sha512@,
            origin,
            bugs,
        )
    }

    /// The stanza of this package in a `Packages` index, in UTF-8.
    ///
    /// `origin` comes from the repository's configuration, and so does
    /// `bugs`, where it is set. Fails on the first field that every stanza
    /// needs and the control data lacks.
    pub fn generate_entry(self, origin: &str, bugs: Option<&str>) -> (r: Result<Vec<u8>, Error>)
        ensures
            match r {
                Ok(bytes) => missing_field(self.control@) is None && bytes@ == encode_utf8(
                    self.spec_stanza(origin@, opt_text(bugs)),
                ),
                Err(e) => missing_field(self.control@) is Some && (e matches Error::ControlFieldMissing {
                    archive,
                    field,
                } && archive@ == self.filename@ && Some(field@) == missing_field(self.control@)),
            },
    {
        match first_missing_field(&self.control) {
            Some(key) => {
                return Err(
                    Error::ControlFieldMissing { archive: self.filename, field: key.to_owned() },
                );
            },
            None => {},
        }
        let control = &self.control;
        let mut out: Vec<char> = Vec::new();
        push_required(&mut out, control, "Package");
        assert(out@ =~= required_field(control@, "Package"@));
        push_optional(&mut out, control, "Package-Type");
        push_required(&mut out, control, "Architecture");
        push_required(&mut out, control, "Version");
        push_optional(&mut out, control, "Multi-Arch");
        push_optional(&mut out, control, "Auto-Built-Package");
        push_required(&mut out, control, "Priority");
        push_required(&mut out, control, "Section");
        push_text_field(&mut out, "Origin", origin);
        push_required(&mut out, control, "Maintainer");
        push_required(&mut out, control, "Installed-Size");
        push_optional(&mut out, control, "Provides");
        push_optional(&mut out, control, "Pre-Depends");
        push_optional(&mut out, control, "Depends");
        push_optional(&mut out, control, "Recommends");
        push_optional(&mut out, control, "Suggests");
        push_optional(&mut out, control, "Conflicts");
        push_optional(&mut out, control, "Breaks");
        push_optional(&mut out, control, "Replaces");
        let ghost before_bugs = out@;
        match bugs {
            Some(b) => {
                push_text_field(&mut out, "Bugs", b);
            },
            None => {
                assert(out@ =~= before_bugs + bugs_field(opt_text(bugs)));
            },
        }
        push_text_field(&mut out, "Filename", self.filename.as_str());
        let mut size: Vec<char> = Vec::new();
        push_decimal(&mut size, self.size);
        assert(size@ =~= decimal(self.size as nat));
        push_field(&mut out, "Size", size.as_slice());
        push_text_field(&mut out, "MD5sum", self.md5sum.as_str());
        push_text_field(&mut out, "SHA1", self.sha1.as_str());
        push_text_field(&mut out, "SHA256", self.sha256.as_str());
        push_text_field(&mut out, "SHA512", self.sha512.as_str());
        push_optional(&mut out, control, "Homepage");
        push_optional(&mut out, control, "Description");
        push_optional(&mut out, control, "License");
        push_optional(&mut out, control, "Vendor");
        push_optional(&mut out, control, "Build-Ids");
        let text = string_of(out.as_slice());
        Ok(text.as_str().as_bytes_vec())
    }
}

} // verus!
