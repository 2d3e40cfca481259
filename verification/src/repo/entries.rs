//! The entries of a build, one bucket for each architecture and component.

use vstd::prelude::*;
use crate::debian::contents::{package_id, spec_package_id, ContentsEntry};
use crate::debian::control::ControlMap;
use crate::debian::package::{first_missing_field, missing_field, PackageEntry};
use crate::error::Error;
use crate::seqs::reversed;
use crate::text::str_eq;

verus! {

/// The four digests of an archive, each as lower-case hexadecimal text.
pub struct Checksums {
    pub md5: String,
    pub sha1: String,
    pub sha256: String,
    pub sha512: String,
}

/// What one archive gives to the indices, with the bucket it belongs to.
pub struct BuiltEntry {
    pub package: PackageEntry,
    pub contents: ContentsEntry,
    pub arch: String,
    pub component: String,
}

/// Makes the two entries of one archive from what was read of it.
///
/// `control` is the archive's control data, `files` the paths of its data
/// member, `size` its length in bytes and `sums` its digests. Both entries
/// are made from the one control map. Fails, naming the archive, on the
/// first field that every stanza needs and the control data lacks.
pub fn build(
    path: &str,
    component: &str,
    default_component: &str,
    control: ControlMap,
    files: Vec<Vec<u8>>,
    size: u64,
    sums: Checksums,
) -> (r: Result<(PackageEntry, ContentsEntry), Error>)
    ensures
        match r {
            Ok((package, contents)) => {
                &&& missing_field(control@) is None
                &&& package.control@ == control@
                &&& package.filename@ == path@
                &&& package.size == size
                &&& package.md5sum@ == sums.md5@
                &&& package.sha1@ == sums.sha1@
                &&& package.sha256@ == sums.sha256@
                &&& package.sha512@ == sums.sha512@
                &&& contents.package@ == spec_package_id(
                    control@,
                    component@,
                    default_component@,
                )
                &&& contents.files == files
            },
            Err(e) => missing_field(control@) is Some && (e matches Error::ControlFieldMissing {
                archive,
                field,
            } && archive@ == path@ && Some(field@) == missing_field(control@)),
        },
{
    match first_missing_field(&control) {
        Some(key) => {
            return Err(
                Error::ControlFieldMissing { archive: path.to_owned(), field: key.to_owned() },
            );
        },
        None => {},
    }
    let id = match package_id(&control, component, default_component) {
        Some(id) => id,
        None => {
            return Err(
                Error::ControlFieldMissing {
                    archive: path.to_owned(),
                    field: "Package".to_owned(),
                },
            );
        },
    };
    let package = PackageEntry {
        control,
        filename: path.to_owned(),
        size,
        md5sum: sums.md5,
        sha1: sums.sha1,
        sha256: sums.sha256,
        sha512: sums.sha512,
    };
    Ok((package, ContentsEntry { package: id, files }))
}

/// The packages of one component of an architecture.
pub struct ComponentEntries {
    pub component: String,
    pub packages: Vec<PackageEntry>,
}

/// All that is indexed for one architecture: the packages of each of its
/// components, and the contents of all of them together.
pub struct ArchEntries {
    pub arch: String,
    pub components: Vec<ComponentEntries>,
    pub contents: Vec<ContentsEntry>,
}

/// The entries of a build, by architecture and component, in the order in
/// which architectures and components were first seen.
pub struct Entries {
    pub archs: Vec<ArchEntries>,
}

/// What `ComponentEntries` stands for.
pub struct ComponentModel {
    pub component: Seq<char>,
    pub packages: Seq<PackageEntry>,
}

/// What `ArchEntries` stands for.
pub struct ArchModel {
    pub arch: Seq<char>,
    pub components: Seq<ComponentModel>,
    pub contents: Seq<ContentsEntry>,
}

impl View for ComponentEntries {
    type V = ComponentModel;

    open spec fn view(&self) -> ComponentModel {
        ComponentModel { component: self.component@, packages: self.packages@ }
    }
}

/// What a list of components stands for.
pub open spec fn component_models(components: Seq<ComponentEntries>) -> Seq<ComponentModel> {
    components.map_values(|c: ComponentEntries| c@)
}

impl View for ArchEntries {
    type V = ArchModel;

    open spec fn view(&self) -> ArchModel {
        ArchModel {
            arch: self.arch@,
            components: component_models(self.components@),
            contents: self.contents@,
        }
    }
}

impl View for Entries {
    type V = Seq<ArchModel>;

    open spec fn view(&self) -> Seq<ArchModel> {
        self.archs@.map_values(|a: ArchEntries| a@)
    }
}

/// The names of a list of components.
pub open spec fn component_names(components: Seq<ComponentModel>) -> Seq<Seq<char>> {
    components.map_values(|c: ComponentModel| c.component)
}

/// The names of a list of architectures.
pub open spec fn arch_names(archs: Seq<ArchModel>) -> Seq<Seq<char>> {
    archs.map_values(|a: ArchModel| a.arch)
}

/// The components after `package` was added to `component`: it joins the
/// packages of the first component of that name, or of a new last one.
pub open spec fn add_package(
    components: Seq<ComponentModel>,
    component: Seq<char>,
    package: PackageEntry,
) -> Seq<ComponentModel> {
    match component_names(components).index_of_first(component) {
        Some(i) => components.update(
            i,
            ComponentModel { component, packages: components[i].packages.push(package) },
        ),
        None => components.push(ComponentModel { component, packages: seq![package] }),
    }
}

/// The architectures after one archive's entries were added to the bucket
/// of `arch` and `component`.
pub open spec fn add_entry(
    archs: Seq<ArchModel>,
    arch: Seq<char>,
    component: Seq<char>,
    package: PackageEntry,
    contents: ContentsEntry,
) -> Seq<ArchModel> {
    match arch_names(archs).index_of_first(arch) {
        Some(i) => archs.update(
            i,
            ArchModel {
                arch,
                components: add_package(archs[i].components, component, package),
                contents: archs[i].contents.push(contents),
            },
        ),
        None => archs.push(
            ArchModel {
                arch,
                components: seq![ComponentModel { component, packages: seq![package] }],
                contents: seq![contents],
            },
        ),
    }
}

/// The entries that the successful results make, added in their order.
pub open spec fn merged(results: Seq<Result<BuiltEntry, Error>>) -> Seq<ArchModel>
    decreases results.len(),
{
    if results.len() == 0 {
        Seq::empty()
    } else {
        let before = merged(results.drop_last());
        match results.last() {
            Ok(built) => add_entry(
                before,
                built.arch@,
                built.component@,
                built.package,
                built.contents,
            ),
            Err(_) => before,
        }
    }
}

/// The failures among the results, in their order.
pub open spec fn failures(results: Seq<Result<BuiltEntry, Error>>) -> Seq<Error>
    decreases results.len(),
{
    if results.len() == 0 {
        Seq::empty()
    } else {
        let before = failures(results.drop_last());
        match results.last() {
            Ok(_) => before,
            Err(e) => before.push(e),
        }
    }
}

/// The number of successful results.
pub open spec fn successes(results: Seq<Result<BuiltEntry, Error>>) -> nat
    decreases results.len(),
{
    if results.len() == 0 {
        0
    } else {
        successes(results.drop_last()) + if results.last() is Ok {
            1nat
        } else {
            0nat
        }
    }
}

/// The number of packages in a list of components.
pub open spec fn component_package_count(components: Seq<ComponentModel>) -> nat
    decreases components.len(),
{
    if components.len() == 0 {
        0
    } else {
        component_package_count(components.drop_last()) + components.last().packages.len()
    }
}

/// The number of packages in all buckets.
pub open spec fn package_count(archs: Seq<ArchModel>) -> nat
    decreases archs.len(),
{
    if archs.len() == 0 {
        0
    } else {
        package_count(archs.drop_last()) + component_package_count(archs.last().components)
    }
}

fn find_component(components: &Vec<ComponentEntries>, component: &str) -> (r: Option<usize>)
    ensures
        match r {
            Some(i) => i < components@.len() && components@[i as int].component@ == component@
                && component_names(component_models(components@)).index_of_first(component@)
                == Some(i as int),
            None => component_names(component_models(components@)).index_of_first(component@)
                is None,
        },
{
    let ghost names = component_names(component_models(components@));
    let mut i: usize = 0;
    while i < components.len()
        invariant
            i <= components@.len(),
            names == component_names(component_models(components@)),
            forall|j: int| 0 <= j < i ==> names[j] != component@,
        decreases components@.len() - i,
    {
        if str_eq(components[i].component.as_str(), component) {
            proof {
                names.index_of_first_ensures(component@);
                assert(names[i as int] == component@);
                let k = names.index_of_first(component@)->0;
                assert(k == i) by {
                    if k < i {
                        assert(names[k] != component@);
                    }
                }
            }
            return Some(i);
        }
        assert(names[i as int] != component@);
        i += 1;
    }
    proof {
        names.index_of_first_ensures(component@);
    }
    None
}

fn find_arch(archs: &Vec<ArchEntries>, arch: &str) -> (r: Option<usize>)
    ensures
        match r {
            Some(i) => i < archs@.len() && archs@[i as int].arch@ == arch@ && arch_names(
                archs@.map_values(|a: ArchEntries| a@),
            ).index_of_first(arch@) == Some(i as int),
            None => arch_names(archs@.map_values(|a: ArchEntries| a@)).index_of_first(arch@)
                is None,
        },
{
    let ghost names = arch_names(archs@.map_values(|a: ArchEntries| a@));
    let mut i: usize = 0;
    while i < archs.len()
        invariant
            i <= archs@.len(),
            names == arch_names(archs@.map_values(|a: ArchEntries| a@)),
            forall|j: int| 0 <= j < i ==> names[j] != arch@,
        decreases archs@.len() - i,
    {
        if str_eq(archs[i].arch.as_str(), arch) {
            proof {
                names.index_of_first_ensures(arch@);
                assert(names[i as int] == arch@);
                let k = names.index_of_first(arch@)->0;
                assert(k == i) by {
                    if k < i {
                        assert(names[k] != arch@);
                    }
                }
            }
            return Some(i);
        }
        assert(names[i as int] != arch@);
        i += 1;
    }
    proof {
        names.index_of_first_ensures(arch@);
    }
    None
}

fn add_to_components(components: &mut Vec<ComponentEntries>, component: String, package: PackageEntry)
    ensures
        component_models(final(components)@) == add_package(
            component_models(old(components)@),
            component@,
            package,
        ),
{
    match find_component(components, component.as_str()) {
        Some(i) => {
            let mut entry = components.remove(i);
            entry.packages.push(package);
            components.insert(i, entry);
            proof {
                let before = component_models(old(components)@);
                let expected = before.update(
                    i as int,
                    ComponentModel {
                        component: component@,
                        packages: before[i as int].packages.push(package),
                    },
                );
                assert(component_models(components@).len() == expected.len());
                assert forall|j: int| 0 <= j < expected.len() implies component_models(
                    components@,
                )[j] == expected[j] by {
                    if j != i {
                        assert(components@[j] == old(components)@[j]);
                    }
                }
            }
            assert(component_models(components@) =~= add_package(
                component_models(old(components)@),
                component@,
                package,
            ));
        },
        None => {
            let mut packages: Vec<PackageEntry> = Vec::new();
            packages.push(package);
            components.push(ComponentEntries { component, packages });
            assert(components@.last().packages@ =~= seq![package]);
            assert(component_models(components@) =~= add_package(
                component_models(old(components)@),
                component@,
                package,
            ));
        },
    }
}

impl Entries {
    /// No entries.
    pub fn new() -> (r: Entries)
        ensures
            r@ == Seq::<ArchModel>::empty(),
    {
        let r = Entries { archs: Vec::new() };
        assert(r@ =~= Seq::<ArchModel>::empty());
        r
    }

    /// Adds the entries of one archive to the bucket of `arch` and
    /// `component`, and to the contents of `arch`.
    pub fn insert(
        &mut self,
        arch: String,
        component: String,
        package: PackageEntry,
        contents: ContentsEntry,
    )
        ensures
            final(self)@ == add_entry(old(self)@, arch@, component@, package, contents),
    {
        match find_arch(&self.archs, arch.as_str()) {
            Some(i) => {
                let mut entry = self.archs.remove(i);
                add_to_components(&mut entry.components, component, package);
                entry.contents.push(contents);
                self.archs.insert(i, entry);
                proof {
                    let before = old(self)@;
                    let expected = before.update(
                        i as int,
                        ArchModel {
                            arch: arch@,
                            components: add_package(before[i as int].components, component@, package),
                            contents: before[i as int].contents.push(contents),
                        },
                    );
                    assert(self@.len() == expected.len());
                    assert forall|j: int| 0 <= j < expected.len() implies self@[j]
                        == expected[j] by {
                        if j != i {
                            assert(self.archs@[j] == old(self).archs@[j]);
                        }
                    }
                }
                assert(self@ =~= add_entry(old(self)@, arch@, component@, package, contents));
            },
            None => {
                let mut packages: Vec<PackageEntry> = Vec::new();
                packages.push(package);
                let mut components: Vec<ComponentEntries> = Vec::new();
                components.push(ComponentEntries { component, packages });
                let mut all: Vec<ContentsEntry> = Vec::new();
                all.push(contents);
                self.archs.push(ArchEntries { arch, components, contents: all });
                proof {
                    let a = self.archs@.last();
                    assert(a.components@[0].packages@ =~= seq![package]);
                    assert(component_models(a.components@) =~= seq![
                        ComponentModel { component: component@, packages: seq![package] },
                    ]);
                    assert(a.contents@ =~= seq![contents]);
                    assert(self@ =~= add_entry(old(self)@, arch@, component@, package, contents));
                }
            },
        }
    }
}

/// Gathers the results of a batch: the entries of every archive that was
/// read, and the failure of every archive that was not. One failure does
/// not keep the other archives out.
pub fn collect(results: Vec<Result<BuiltEntry, Error>>) -> (r: (Entries, Vec<Error>))
    ensures
        r.0@ == merged(results@),
        r.1@ == failures(results@),
        r.1@.len() + successes(results@) == results@.len(),
        package_count(r.0@) == successes(results@),
{
    let ghost all = results@;
    let mut rest = reversed(results);
    let mut entries = Entries::new();
    let mut errors: Vec<Error> = Vec::new();
    let ghost mut done: Seq<Result<BuiltEntry, Error>> = Seq::empty();
    proof {
        assert(all =~= done + rest@.reverse());
    }
    while rest.len() > 0
        invariant
            all == done + rest@.reverse(),
            entries@ == merged(done),
            errors@ == failures(done),
        decreases rest.len(),
    {
        let result = rest.pop().unwrap();
        proof {
            let next = done.push(result);
            assert(next.drop_last() =~= done);
            assert(all =~= next + rest@.reverse());
            done = next;
        }
        match result {
            Ok(built) => {
                entries.insert(built.arch, built.component, built.package, built.contents);
            },
            Err(e) => {
                errors.push(e);
            },
        }
    }
    proof {
        assert(done =~= all);
        lemma_failures_and_successes(all);
        lemma_merged_package_count(all);
    }
    (entries, errors)
}

/// Every result is a failure or a success.
pub proof fn lemma_failures_and_successes(results: Seq<Result<BuiltEntry, Error>>)
    ensures
        failures(results).len() + successes(results) == results.len(),
    decreases results.len(),
{
    if results.len() > 0 {
        lemma_failures_and_successes(results.drop_last());
    }
}

proof fn lemma_count_after_update(components: Seq<ComponentModel>, i: int, c: ComponentModel)
    requires
        0 <= i < components.len(),
    ensures
        component_package_count(components.update(i, c)) + components[i].packages.len()
            == component_package_count(components) + c.packages.len(),
    decreases components.len(),
{
    let updated = components.update(i, c);
    if i == components.len() - 1 {
        assert(updated.drop_last() =~= components.drop_last());
    } else {
        assert(updated.drop_last() =~= components.drop_last().update(i, c));
        lemma_count_after_update(components.drop_last(), i, c);
    }
}

proof fn lemma_add_package_count(
    components: Seq<ComponentModel>,
    component: Seq<char>,
    package: PackageEntry,
)
    ensures
        component_package_count(add_package(components, component, package))
            == component_package_count(components) + 1,
{
    let names = component_names(components);
    names.index_of_first_ensures(component);
    match names.index_of_first(component) {
        Some(i) => {
            lemma_count_after_update(
                components,
                i,
                ComponentModel { component, packages: components[i].packages.push(package) },
            );
        },
        None => {
            let c = ComponentModel { component, packages: seq![package] };
            assert(components.push(c).drop_last() =~= components);
        },
    }
}

proof fn lemma_arch_count_after_update(archs: Seq<ArchModel>, i: int, a: ArchModel)
    requires
        0 <= i < archs.len(),
    ensures
        package_count(archs.update(i, a)) + component_package_count(archs[i].components)
            == package_count(archs) + component_package_count(a.components),
    decreases archs.len(),
{
    let updated = archs.update(i, a);
    if i == archs.len() - 1 {
        assert(updated.drop_last() =~= archs.drop_last());
    } else {
        assert(updated.drop_last() =~= archs.drop_last().update(i, a));
        lemma_arch_count_after_update(archs.drop_last(), i, a);
    }
}

/// Adding the entries of one archive adds one package.
pub proof fn lemma_add_entry_count(
    archs: Seq<ArchModel>,
    arch: Seq<char>,
    component: Seq<char>,
    package: PackageEntry,
    contents: ContentsEntry,
)
    ensures
        package_count(add_entry(archs, arch, component, package, contents)) == package_count(
            archs,
        ) + 1,
{
    let names = arch_names(archs);
    names.index_of_first_ensures(arch);
    match names.index_of_first(arch) {
        Some(i) => {
            let a = ArchModel {
                arch,
                components: add_package(archs[i].components, component, package),
                contents: archs[i].contents.push(contents),
            };
            lemma_add_package_count(archs[i].components, component, package);
            lemma_arch_count_after_update(archs, i, a);
        },
        None => {
            let c = ComponentModel { component, packages: seq![package] };
            let a = ArchModel { arch, components: seq![c], contents: seq![contents] };
            assert(archs.push(a).drop_last() =~= archs);
            assert(seq![c].drop_last() =~= Seq::<ComponentModel>::empty());
            assert(component_package_count(seq![c].drop_last()) == 0);
        },
    }
}

/// The buckets hold one package for every successful result: a batch with
/// failures still yields the entries of all its other archives.
pub proof fn lemma_merged_package_count(results: Seq<Result<BuiltEntry, Error>>)
    ensures
        package_count(merged(results)) == successes(results),
    decreases results.len(),
{
    if results.len() > 0 {
        lemma_merged_package_count(results.drop_last());
        match results.last() {
            Ok(built) => {
                lemma_add_entry_count(
                    merged(results.drop_last()),
                    built.arch@,
                    built.component@,
                    built.package,
                    built.contents,
                );
            },
            Err(_) => {},
        }
    }
}

} // verus!
