//! The files of a distribution: `Packages`, `Contents-<arch>` and `Release`.

use vstd::prelude::*;
use vstd::string::StrSliceExecFns;
use vstd::utf8::encode_utf8;
use crate::compress::{GZ_COMPRESS, UNCOMPRESSED, XZ_COMPRESS};
use crate::config::Config;
use crate::debian::arch::{arch_directory, is_supported_arch, spec_arch_directory, supported_arch};
use crate::debian::contents::{byte_lines, contents_index, contents_lines, contents_records, duplicate_paths, duplicate_views, ContentsEntry};
use crate::debian::package::{missing_field, opt_text, PackageEntry};
use crate::error::{DuplicateContentsPath, Error};
use crate::order::{sort_records, sorted_records, views, KeyOrder, Record};
use crate::repo::entries::{ArchEntries, ArchModel, Entries};
use crate::seqs::reversed;
use crate::text::{push_str, string_of};

verus! {

/// The `Release` file of a directory of binary packages: six lines.
pub open spec fn spec_release_stanza(
    archive: Seq<char>,
    version: Seq<char>,
    component: Seq<char>,
    origin: Seq<char>,
    label: Seq<char>,
    arch: Seq<char>,
) -> Seq<char> {
    "Archive: "@ + archive + "\n"@ + "Version: "@ + version + "\n"@ + "Component: "@ + component
        + "\n"@ + "Origin: "@ + origin + "\n"@ + "Label: "@ + label + "\n"@ + "Architecture: "@
        + arch + "\n"@
}

/// The `Release` file of a directory of binary packages.
pub fn release_stanza(
    archive: &str,
    version: &str,
    component: &str,
    origin: &str,
    label: &str,
    arch: &str,
) -> (r: String)
    ensures
        r@ == spec_release_stanza(archive@, version@, component@, origin@, label@, arch@),
{
    let mut out: Vec<char> = Vec::new();
    push_str(&mut out, "Archive: ");
    assert(out@ =~= "Archive: "@);
    push_str(&mut out, archive);
    push_str(&mut out, "\n");
    push_str(&mut out, "Version: ");
    push_str(&mut out, version);
    push_str(&mut out, "\n");
    push_str(&mut out, "Component: ");
    push_str(&mut out, component);
    push_str(&mut out, "\n");
    push_str(&mut out, "Origin: ");
    push_str(&mut out, origin);
    push_str(&mut out, "\n");
    push_str(&mut out, "Label: ");
    push_str(&mut out, label);
    push_str(&mut out, "\n");
    push_str(&mut out, "Architecture: ");
    push_str(&mut out, arch);
    push_str(&mut out, "\n");
    string_of(out.as_slice())
}

/// What a `Packages` index holds for one package: the path of its archive
/// as the key, its stanza as the body, both in UTF-8.
pub open spec fn package_record(entry: PackageEntry, origin: Seq<char>, bugs: Option<Seq<char>>) -> (
    Seq<u8>,
    Seq<u8>,
) {
    (encode_utf8(entry.filename@), encode_utf8(entry.spec_stanza(origin, bugs)))
}

/// What a `Packages` index holds for a list of packages, before it is sorted.
pub open spec fn package_records(
    entries: Seq<PackageEntry>,
    origin: Seq<char>,
    bugs: Option<Seq<char>>,
) -> Seq<(Seq<u8>, Seq<u8>)> {
    entries.map_values(|e: PackageEntry| package_record(e, origin, bugs))
}

/// The packages whose control data lacks a field that every stanza needs:
/// for each, in their order, the path of its archive and the first such
/// field.
pub open spec fn incomplete(entries: Seq<PackageEntry>) -> Seq<(Seq<char>, Seq<char>)>
    decreases entries.len(),
{
    if entries.len() == 0 {
        Seq::empty()
    } else {
        let before = incomplete(entries.drop_last());
        match missing_field(entries.last().control@) {
            Some(field) => before.push((entries.last().filename@, field)),
            None => before,
        }
    }
}

/// Whether no package lacks a field that every stanza needs.
pub open spec fn all_complete(entries: Seq<PackageEntry>) -> bool {
    forall|i: int| 0 <= i < entries.len() ==> missing_field(#[trigger] entries[i].control@) is None
}

/// What a list of failures says of missing fields.
pub open spec fn missing_views(errors: Seq<Error>) -> Seq<(Seq<char>, Seq<char>)> {
    errors.map_values(
        |e: Error|
            match e {
                Error::ControlFieldMissing { archive, field } => (archive@, field@),
                _ => (Seq::empty(), Seq::empty()),
            },
    )
}

/// Whether every failure of the list is a missing field.
pub open spec fn all_missing_fields(errors: Seq<Error>) -> bool {
    forall|i: int| 0 <= i < errors.len() ==> #[trigger] errors[i] is ControlFieldMissing
}

/// The stanzas as they are written: one after the other, with a blank line
/// between two of them.
pub open spec fn interspersed(bodies: Seq<Seq<u8>>) -> Seq<Seq<u8>>
    decreases bodies.len(),
{
    if bodies.len() == 0 {
        Seq::empty()
    } else if bodies.len() == 1 {
        seq![bodies[0]]
    } else {
        interspersed(bodies.drop_last()).push(seq![10u8]).push(bodies.last())
    }
}

/// The bodies of a list of records.
pub open spec fn bodies(records: Seq<(Seq<u8>, Seq<u8>)>) -> Seq<Seq<u8>> {
    records.map_values(|r: (Seq<u8>, Seq<u8>)| r.1)
}

/// The chunks of a `Packages` index: the stanzas of the packages, sorted by
/// the paths of their archives, with a blank line between two stanzas.
pub open spec fn packages_chunks(
    entries: Seq<PackageEntry>,
    origin: Seq<char>,
    bugs: Option<Seq<char>>,
) -> Seq<Seq<u8>> {
    interspersed(bodies(sorted_records(package_records(entries, origin, bugs), KeyOrder::Path)))
}

/// A `Packages` index does not depend on the order in which its packages
/// came: two lists of the same packages give the same chunks.
pub proof fn lemma_packages_order_free(
    a: Seq<PackageEntry>,
    b: Seq<PackageEntry>,
    origin: Seq<char>,
    bugs: Option<Seq<char>>,
)
    requires
        a.to_multiset() == b.to_multiset(),
    ensures
        packages_chunks(a, origin, bugs) == packages_chunks(b, origin, bugs),
{
    crate::order::lemma_map_values_permutation(
        a,
        b,
        |e: PackageEntry| package_record(e, origin, bugs),
    );
    crate::order::lemma_sorted_records_of_permutation(
        package_records(a, origin, bugs),
        package_records(b, origin, bugs),
        KeyOrder::Path,
    );
}

fn intersperse(sorted: Vec<Record>) -> (chunks: Vec<Vec<u8>>)
    ensures
        byte_lines(chunks@) == interspersed(bodies(views(sorted@))),
{
    let ghost all = sorted@;
    let mut rest = reversed(sorted);
    let mut chunks: Vec<Vec<u8>> = Vec::new();
    let ghost mut done: Seq<Record> = Seq::empty();
    proof {
        assert(all =~= done + rest@.reverse());
        assert(byte_lines(chunks@) =~= interspersed(bodies(views(done))));
    }
    while rest.len() > 0
        invariant
            all == done + rest@.reverse(),
            byte_lines(chunks@) == interspersed(bodies(views(done))),
        decreases rest.len(),
    {
        let record = rest.pop().unwrap();
        let ghost old_chunks = chunks@;
        let ghost next = done.push(record);
        proof {
            assert(bodies(views(next)).drop_last() =~= bodies(views(done)));
            assert(bodies(views(next)).last() == record.body@);
            assert(all =~= next + rest@.reverse());
        }
        if chunks.len() > 0 {
            let mut blank: Vec<u8> = Vec::new();
            blank.push(10u8);
            assert(blank@ =~= seq![10u8]);
            chunks.push(blank);
            chunks.push(record.body);
            proof {
                assert(done.len() > 0) by {
                    if done.len() == 0 {
                        assert(bodies(views(done)).len() == 0);
                    }
                }
                assert(byte_lines(chunks@) =~= byte_lines(old_chunks).push(seq![10u8]).push(
                    record.body@,
                ));
            }
        } else {
            chunks.push(record.body);
            proof {
                assert(done.len() == 0) by {
                    if done.len() > 0 {
                        assert(bodies(views(done)).len() > 0);
                        assert(interspersed(bodies(views(done))).len() > 0);
                    }
                }
                assert(bodies(views(next)).len() == 1);
                assert(byte_lines(chunks@) =~= seq![record.body@]);
            }
        }
        proof {
            done = next;
        }
    }
    proof {
        assert(done =~= all);
    }
    chunks
}

/// The chunks of the `Packages` index of one component and architecture.
///
/// Where a package lacks a field that every stanza needs, no index is made:
/// the failures of all such packages are returned, in the order of the
/// packages.
pub fn packages_index(packages: Vec<PackageEntry>, origin: &str, bugs: Option<&str>) -> (r: Result<
    Vec<Vec<u8>>,
    Vec<Error>,
>)
    ensures
        match r {
            Ok(chunks) => all_complete(packages@) && byte_lines(chunks@) == packages_chunks(
                packages@,
                origin@,
                opt_text(bugs),
            ),
            Err(errors) => !all_complete(packages@) && all_missing_fields(errors@)
                && missing_views(errors@) == incomplete(packages@),
        },
{
    let ghost all = packages@;
    let mut rest = reversed(packages);
    let mut records: Vec<Record> = Vec::new();
    let mut errors: Vec<Error> = Vec::new();
    let ghost mut done: Seq<PackageEntry> = Seq::empty();
    proof {
        assert(all =~= done + rest@.reverse());
        assert(views(records@) =~= package_records(done, origin@, opt_text(bugs)));
        assert(missing_views(errors@) =~= incomplete(done));
    }
    while rest.len() > 0
        invariant
            all == done + rest@.reverse(),
            missing_views(errors@) == incomplete(done),
            all_missing_fields(errors@),
            errors@.len() == 0 <==> all_complete(done),
            errors@.len() == 0 ==> views(records@) == package_records(
                done,
                origin@,
                opt_text(bugs),
            ),
        decreases rest.len(),
    {
        let entry = rest.pop().unwrap();
        let ghost old_records = records@;
        let ghost old_errors = errors@;
        let ghost next = done.push(entry);
        proof {
            assert(next.drop_last() =~= done);
            assert(all =~= next + rest@.reverse());
        }
        let key = entry.filename.as_str().as_bytes_vec();
        match entry.generate_entry(origin, bugs) {
            Ok(body) => {
                let record = Record { key, body };
                records.push(record);
                proof {
                    assert(views(records@) =~= views(old_records).push(record@));
                    if errors@.len() == 0 {
                        assert(package_records(next, origin@, opt_text(bugs)) =~= package_records(
                            done,
                            origin@,
                            opt_text(bugs),
                        ).push(record@));
                        assert forall|i: int| 0 <= i < next.len() implies missing_field(
                            #[trigger] next[i].control@,
                        ) is None by {
                            if i < done.len() {
                                assert(next[i] == done[i]);
                            }
                        }
                    } else {
                        let i = choose|i: int|
                            0 <= i < done.len() && !(missing_field(
                                #[trigger] done[i].control@,
                            ) is None);
                        assert(next[i] == done[i]);
                    }
                }
            },
            Err(e) => {
                errors.push(e);
                proof {
                    assert(missing_views(errors@) =~= missing_views(old_errors).push(
                        (entry.filename@, missing_field(entry.control@)->0),
                    ));
                    assert(next[next.len() - 1] == entry);
                }
            },
        }
        proof {
            done = next;
        }
    }
    proof {
        assert(done =~= all);
    }
    if errors.len() > 0 {
        return Err(errors);
    }
    let sorted = sort_records(records, KeyOrder::Path);
    Ok(intersperse(sorted))
}

/// A file of the distribution, before it is compressed: the directory it
/// goes to, below the distribution's own, its name, its bytes in chunks,
/// and the formats it is written in.
pub struct IndexFile {
    pub directory: String,
    pub name: String,
    pub chunks: Vec<Vec<u8>>,
    pub support: u8,
}

/// The directory of a component's packages for one architecture.
pub open spec fn spec_binary_directory(component: Seq<char>, arch: Seq<char>) -> Seq<char> {
    component + "/"@ + spec_arch_directory(arch)
}

/// The name of an architecture's `Contents` index.
pub open spec fn spec_contents_name(arch: Seq<char>) -> Seq<char> {
    "Contents-"@ + arch
}

/// The `Contents` index of one architecture and the warnings that come
/// with it.
pub fn contents_file(arch: &str, contents: &Vec<ContentsEntry>) -> (r: (
    IndexFile,
    Vec<DuplicateContentsPath>,
))
    ensures
        is_contents_file(arch@, contents@, r),
{
    let index = contents_index(contents);
    let mut name: Vec<char> = Vec::new();
    push_str(&mut name, "Contents-");
    push_str(&mut name, arch);
    let name = string_of(name.as_slice());
    assert(name@ =~= spec_contents_name(arch@));
    (
        IndexFile {
            directory: String::new(),
            name,
            chunks: index.lines,
            support: UNCOMPRESSED | GZ_COMPRESS | XZ_COMPRESS,
        },
        index.duplicates,
    )
}

/// Whether `r` is what is written for one component and architecture.
///
/// With a supported architecture and complete packages these are two files
/// in the component's directory for the architecture: the `Packages` index,
/// written plain, as gzip and as xz, and the `Release` file, written plain.
/// An architecture outside the table gives that one failure; otherwise
/// every incomplete package gives its failure.
pub open spec fn is_component_files(
    config: Config,
    arch: Seq<char>,
    component: Seq<char>,
    packages: Seq<PackageEntry>,
    origin: Seq<char>,
    bugs: Option<Seq<char>>,
    r: Result<(IndexFile, IndexFile), Vec<Error>>,
) -> bool {
    match r {
        Ok((index, release)) => {
            &&& is_supported_arch(arch)
            &&& all_complete(packages)
            &&& index.directory@ == spec_binary_directory(component, arch)
            &&& index.name@ == "Packages"@
            &&& index.support == UNCOMPRESSED | GZ_COMPRESS | XZ_COMPRESS
            &&& byte_lines(index.chunks@) == packages_chunks(packages, origin, bugs)
            &&& release.directory@ == spec_binary_directory(component, arch)
            &&& release.name@ == "Release"@
            &&& release.support == UNCOMPRESSED
            &&& byte_lines(release.chunks@) == seq![
                encode_utf8(
                    spec_release_stanza(
                        config.archive@,
                        config.version@,
                        component,
                        config.origin@,
                        config.label@,
                        arch,
                    ),
                ),
            ]
        },
        Err(errors) => if is_supported_arch(arch) {
            !all_complete(packages) && all_missing_fields(errors@) && missing_views(errors@)
                == incomplete(packages)
        } else {
            errors@.len() == 1 && (errors@[0] matches Error::UnsupportedArchitecture { arch: a }
                && a@ == arch)
        },
    }
}

/// Whether `r` is the `Contents` index of one architecture as a file of the
/// distribution, written plain, as gzip and as xz, with its warnings.
pub open spec fn is_contents_file(
    arch: Seq<char>,
    contents: Seq<ContentsEntry>,
    r: (IndexFile, Vec<DuplicateContentsPath>),
) -> bool {
    &&& r.0.directory@ == Seq::<char>::empty()
    &&& r.0.name@ == spec_contents_name(arch)
    &&& r.0.support == UNCOMPRESSED | GZ_COMPRESS | XZ_COMPRESS
    &&& byte_lines(r.0.chunks@) == contents_lines(
        sorted_records(contents_records(contents), KeyOrder::Bytes),
    )
    &&& duplicate_views(r.1@) == duplicate_paths(
        sorted_records(contents_records(contents), KeyOrder::Bytes),
    )
}

/// The two files of one component and architecture.
pub fn component_files(
    config: &Config,
    arch: &str,
    component: &str,
    packages: Vec<PackageEntry>,
    origin: &str,
    bugs: Option<&str>,
) -> (r: Result<(IndexFile, IndexFile), Vec<Error>>)
    ensures
        is_component_files(*config, arch@, component@, packages@, origin@, opt_text(bugs), r),
{
    let arch_dir = match arch_directory(arch) {
        Ok(d) => d,
        Err(e) => {
            let mut errors: Vec<Error> = Vec::new();
            errors.push(e);
            return Err(errors);
        },
    };
    let chunks = match packages_index(packages, origin, bugs) {
        Ok(chunks) => chunks,
        Err(errors) => {
            return Err(errors);
        },
    };
    let mut dir: Vec<char> = Vec::new();
    push_str(&mut dir, component);
    push_str(&mut dir, "/");
    push_str(&mut dir, arch_dir.as_str());
    let directory = string_of(dir.as_slice());
    assert(directory@ =~= spec_binary_directory(component@, arch@));
    let text = release_stanza(
        config.archive.as_str(),
        config.version.as_str(),
        component,
        config.origin.as_str(),
        config.label.as_str(),
        arch,
    );
    let mut release_chunks: Vec<Vec<u8>> = Vec::new();
    release_chunks.push(text.as_str().as_bytes_vec());
    assert(byte_lines(release_chunks@) =~= seq![encode_utf8(text@)]);
    let release_directory = directory.clone();
    Ok(
        (
            IndexFile {
                directory,
                name: "Packages".to_owned(),
                chunks,
                support: UNCOMPRESSED | GZ_COMPRESS | XZ_COMPRESS,
            },
            IndexFile {
                directory: release_directory,
                name: "Release".to_owned(),
                chunks: release_chunks,
                support: UNCOMPRESSED,
            },
        ),
    )
}

/// What is written for one architecture.
pub struct ArchOutput {
    pub arch: String,
    /// The `Contents` index of the architecture.
    pub contents: IndexFile,
    /// The paths that several packages of the architecture ship.
    pub warnings: Vec<DuplicateContentsPath>,
    /// For each component, its two files or its failures.
    pub components: Vec<Result<(IndexFile, IndexFile), Vec<Error>>>,
}

/// The first of the architectures that has no directory in the layout.
pub open spec fn first_unsupported(archs: Seq<ArchModel>) -> Option<Seq<char>>
    decreases archs.len(),
{
    if archs.len() == 0 {
        None
    } else if !is_supported_arch(archs.first().arch) {
        Some(archs.first().arch)
    } else {
        first_unsupported(archs.drop_first())
    }
}

/// Whether `out` is what is written for the architecture `arch`, which has
/// its directory in the layout.
pub open spec fn is_arch_output(
    config: Config,
    arch: ArchModel,
    origin: Seq<char>,
    bugs: Option<Seq<char>>,
    out: ArchOutput,
) -> bool {
    &&& is_supported_arch(arch.arch)
    &&& out.arch@ == arch.arch
    &&& is_contents_file(arch.arch, arch.contents, (out.contents, out.warnings))
    &&& out.components@.len() == arch.components.len()
    &&& forall|j: int|
        0 <= j < arch.components.len() ==> is_component_files(
            config,
            arch.arch,
            arch.components[j].component,
            arch.components[j].packages,
            origin,
            bugs,
            #[trigger] out.components@[j],
        )
}

/// The entries of a build, ready to be written as a distribution.
pub struct DistFiles {
    pub entries: Entries,
}

fn arch_output(config: &Config, entry: ArchEntries, origin: &str, bugs: Option<&str>) -> (out:
    ArchOutput)
    requires
        is_supported_arch(entry.arch@),
    ensures
        is_arch_output(*config, entry@, origin@, opt_text(bugs), out),
{
    let (contents, warnings) = contents_file(entry.arch.as_str(), &entry.contents);
    let ghost all = entry.components@;
    let mut rest = reversed(entry.components);
    let mut components: Vec<Result<(IndexFile, IndexFile), Vec<Error>>> = Vec::new();
    while rest.len() > 0
        invariant
            components@.len() + rest@.len() == all.len(),
            rest@ == all.skip(components@.len() as int).reverse(),
            forall|j: int|
                0 <= j < components@.len() ==> is_component_files(
                    *config,
                    entry.arch@,
                    all[j].component@,
                    all[j].packages@,
                    origin@,
                    opt_text(bugs),
                    #[trigger] components@[j],
                ),
        decreases rest.len(),
    {
        let ghost n = components@.len() as int;
        let c = rest.pop().unwrap();
        assert(all.skip(n).reverse().last() == all[n]);
        let r = component_files(
            config,
            entry.arch.as_str(),
            c.component.as_str(),
            c.packages,
            origin,
            bugs,
        );
        components.push(r);
        assert(rest@ =~= all.skip(n + 1).reverse());
    }
    ArchOutput { arch: entry.arch, contents, warnings, components }
}

impl DistFiles {
    /// The entries of a build, ready to be written.
    pub fn new(entries: Entries) -> (r: DistFiles)
        ensures
            r.entries == entries,
    {
        DistFiles { entries }
    }

    /// What is written for the entries.
    ///
    /// An architecture without a directory in the layout stops everything:
    /// the first such architecture is the failure, and nothing is written.
    /// Otherwise each architecture has, in their order, its `Contents` index
    /// and, for each of its components, the `Packages` index and the
    /// `Release` file, or the failures of the packages that keep them from
    /// being written. Such a failure in one bucket leaves the others as
    /// they are.
    pub fn compress_and_release(self, config: &Config, origin: &str, bugs: Option<&str>) -> (r:
        Result<Vec<ArchOutput>, Error>)
        ensures
            match r {
                Ok(out) => {
                    &&& first_unsupported(self.entries@) is None
                    &&& out@.len() == self.entries@.len()
                    &&& forall|i: int|
                        0 <= i < out@.len() ==> is_arch_output(
                            *config,
                            self.entries@[i],
                            origin@,
                            opt_text(bugs),
                            #[trigger] out@[i],
                        )
                },
                Err(e) => e matches Error::UnsupportedArchitecture { arch } && Some(arch@)
                    == first_unsupported(self.entries@),
            },
    {
        let ghost all = self.entries.archs@;
        let ghost models = self.entries@;
        let mut k: usize = 0;
        proof {
            assert(models.skip(0) =~= models);
        }
        while k < self.entries.archs.len()
            invariant
                k <= all.len(),
                all == self.entries.archs@,
                models == self.entries@,
                first_unsupported(models) == first_unsupported(models.skip(k as int)),
                forall|i: int| 0 <= i < k ==> is_supported_arch(#[trigger] all[i].arch@),
            decreases all.len() - k,
        {
            proof {
                assert(models.skip(k as int).first() == all[k as int]@);
                assert(models.skip(k as int).drop_first() =~= models.skip(k + 1));
            }
            if !supported_arch(self.entries.archs[k].arch.as_str()) {
                return Err(
                    Error::UnsupportedArchitecture { arch: self.entries.archs[k].arch.clone() },
                );
            }
            k += 1;
        }
        proof {
            assert(models.skip(all.len() as int) =~= Seq::<ArchModel>::empty());
        }
        let mut rest = reversed(self.entries.archs);
        let mut out: Vec<ArchOutput> = Vec::new();
        while rest.len() > 0
            invariant
                out@.len() + rest@.len() == all.len(),
                rest@ == all.skip(out@.len() as int).reverse(),
                forall|i: int| 0 <= i < all.len() ==> is_supported_arch(#[trigger] all[i].arch@),
                forall|i: int|
                    0 <= i < out@.len() ==> is_arch_output(
                        *config,
                        all[i]@,
                        origin@,
                        opt_text(bugs),
                        #[trigger] out@[i],
                    ),
            decreases rest.len(),
        {
            let ghost n = out@.len() as int;
            let entry = rest.pop().unwrap();
            assert(all.skip(n).reverse().last() == all[n]);
            let o = arch_output(config, entry, origin, bugs);
            out.push(o);
            assert(rest@ =~= all.skip(n + 1).reverse());
        }
        Ok(out)
    }
}

/// Whether nothing keeps the distribution from being written.
pub open spec fn spec_is_complete(out: Seq<ArchOutput>) -> bool {
    forall|i: int, j: int|
        0 <= i < out.len() && 0 <= j < out[i].components@.len() ==> (
        #[trigger] out[i].components@[j]) is Ok
}

/// Whether nothing keeps the distribution from being written: whether
/// every component of every architecture has its two files.
pub fn is_complete(out: &Vec<ArchOutput>) -> (r: bool)
    ensures
        r == spec_is_complete(out@),
{
    let mut i: usize = 0;
    while i < out.len()
        invariant
            i <= out.len(),
            forall|a: int, b: int|
                0 <= a < i && 0 <= b < out@[a].components@.len() ==> (
                #[trigger] out@[a].components@[b]) is Ok,
        decreases out.len() - i,
    {
        let mut j: usize = 0;
        while j < out[i].components.len()
            invariant
                i < out.len(),
                j <= out@[i as int].components@.len(),
                forall|b: int| 0 <= b < j ==> (#[trigger] out@[i as int].components@[b]) is Ok,
            decreases out@[i as int].components@.len() - j,
        {
            match &out[i].components[j] {
                Ok(_) => {},
                Err(_) => {
                    return false;
                },
            }
            j += 1;
        }
        i += 1;
    }
    true
}

} // verus!
