//! The two catalogs and their merged view.
//!
//! The auxiliary catalog ([`MprCache`]) lists the packages that are built
//! from source. The system catalog ([`AptCache`]) is a snapshot of what the
//! system's package engine knows. [`Cache`] holds both.

use vstd::prelude::*;
use vstd::string::*;
use crate::apt::{AptCache, AptPackage, AptPackageModel};
use crate::text::{clone_opt, clone_strings, opt_eq, opt_str_text, opt_text, opt_texts, str_eq, texts};

verus! {

/// The packages that one relation lists for one distribution and
/// architecture. Either key may be absent.
#[derive(Debug)]
pub struct MprDependencyGroup {
    pub distro: Option<String>,
    pub arch: Option<String>,
    pub packages: Vec<String>,
}

/// The mathematical value of an [`MprDependencyGroup`].
pub ghost struct DependencyGroupModel {
    pub distro: Option<Seq<char>>,
    pub arch: Option<Seq<char>>,
    pub packages: Seq<Seq<char>>,
}

impl View for MprDependencyGroup {
    type V = DependencyGroupModel;

    open spec fn view(&self) -> DependencyGroupModel {
        DependencyGroupModel {
            distro: opt_text(self.distro),
            arch: opt_text(self.arch),
            packages: texts(self.packages@),
        }
    }
}

/// The values of a list of dependency groups, in order.
pub open spec fn groups(list: Seq<MprDependencyGroup>) -> Seq<DependencyGroupModel> {
    Seq::new(list.len(), |i: int| list[i]@)
}

/// The relations that a package declares.
#[derive(Clone, Copy, Debug, PartialEq, Eq, Structural)]
pub enum Relation {
    Depends,
    MakeDepends,
    CheckDepends,
    Conflicts,
    Provides,
}

/// A package of the auxiliary catalog.
#[derive(Debug)]
pub struct MprPackage {
    pub pkgname: String,
    pub pkgbase: String,
    pub version: String,
    pub pkgdesc: Option<String>,
    pub maintainer: Option<String>,
    pub num_votes: u32,
    /// The popularity score as the bit pattern of a single-precision number.
    /// The library carries it through and never reads it.
    pub popularity_bits: u32,
    pub ood: Option<u32>,
    pub depends: Vec<MprDependencyGroup>,
    pub makedepends: Vec<MprDependencyGroup>,
    pub checkdepends: Vec<MprDependencyGroup>,
    pub conflicts: Vec<MprDependencyGroup>,
    pub provides: Vec<MprDependencyGroup>,
}

/// The mathematical value of an [`MprPackage`].
pub ghost struct PackageModel {
    pub pkgname: Seq<char>,
    pub pkgbase: Seq<char>,
    pub version: Seq<char>,
    pub pkgdesc: Option<Seq<char>>,
    pub maintainer: Option<Seq<char>>,
    pub num_votes: u32,
    pub popularity_bits: u32,
    pub ood: Option<u32>,
    pub depends: Seq<DependencyGroupModel>,
    pub makedepends: Seq<DependencyGroupModel>,
    pub checkdepends: Seq<DependencyGroupModel>,
    pub conflicts: Seq<DependencyGroupModel>,
    pub provides: Seq<DependencyGroupModel>,
}

impl View for MprPackage {
    type V = PackageModel;

    open spec fn view(&self) -> PackageModel {
        PackageModel {
            pkgname: self.pkgname@,
            pkgbase: self.pkgbase@,
            version: self.version@,
            pkgdesc: opt_text(self.pkgdesc),
            maintainer: opt_text(self.maintainer),
            num_votes: self.num_votes,
            popularity_bits: self.popularity_bits,
            ood: self.ood,
            depends: groups(self.depends@),
            makedepends: groups(self.makedepends@),
            checkdepends: groups(self.checkdepends@),
            conflicts: groups(self.conflicts@),
            provides: groups(self.provides@),
        }
    }
}

/// The packages of the first group at or after index `from` whose keys are
/// exactly `distro` and `arch`.
pub open spec fn group_from(
    list: Seq<DependencyGroupModel>,
    distro: Option<Seq<char>>,
    arch: Option<Seq<char>>,
    from: int,
) -> Option<Seq<Seq<char>>>
    decreases list.len() - from,
{
    if from < 0 || from >= list.len() {
        None
    } else if list[from].distro == distro && list[from].arch == arch {
        Some(list[from].packages)
    } else {
        group_from(list, distro, arch, from + 1)
    }
}

/// The packages of the first group whose keys are exactly `distro` and `arch`.
pub open spec fn spec_pkg_group(
    list: Seq<DependencyGroupModel>,
    distro: Option<Seq<char>>,
    arch: Option<Seq<char>>,
) -> Option<Seq<Seq<char>>> {
    group_from(list, distro, arch, 0)
}

/// The packages that apply on a system: those of the most specific key that
/// is present. From most to least specific the keys are distribution and
/// architecture, distribution alone, architecture alone, neither. Groups of
/// different keys are never merged.
pub open spec fn spec_system_pkgs(
    list: Seq<DependencyGroupModel>,
    distro: Seq<char>,
    arch: Seq<char>,
) -> Option<Seq<Seq<char>>> {
    if spec_pkg_group(list, Some(distro), Some(arch)) is Some {
        spec_pkg_group(list, Some(distro), Some(arch))
    } else if spec_pkg_group(list, Some(distro), None) is Some {
        spec_pkg_group(list, Some(distro), None)
    } else if spec_pkg_group(list, None, Some(arch)) is Some {
        spec_pkg_group(list, None, Some(arch))
    } else {
        spec_pkg_group(list, None, None)
    }
}

impl PackageModel {
    /// The groups of one relation.
    pub open spec fn relation(self, relation: Relation) -> Seq<DependencyGroupModel> {
        match relation {
            Relation::Depends => self.depends,
            Relation::MakeDepends => self.makedepends,
            Relation::CheckDepends => self.checkdepends,
            Relation::Conflicts => self.conflicts,
            Relation::Provides => self.provides,
        }
    }

    /// What one relation lists on a system; nothing where no key is present.
    pub open spec fn system_list(
        self,
        relation: Relation,
        distro: Seq<char>,
        arch: Seq<char>,
    ) -> Seq<
        Seq<char>,
    > {
        match spec_system_pkgs(self.relation(relation), distro, arch) {
            Some(list) => list,
            None => Seq::empty(),
        }
    }

    /// The dependency expressions that must hold to build and install the
    /// package on a system: run-time, then build-time, then check-time.
    pub open spec fn dep_groups(self, distro: Seq<char>, arch: Seq<char>) -> Seq<Seq<char>> {
        self.system_list(Relation::Depends, distro, arch) + self.system_list(
            Relation::MakeDepends,
            distro,
            arch,
        ) + self.system_list(Relation::CheckDepends, distro, arch)
    }
}

impl MprDependencyGroup {
    /// A group for the given keys.
    pub fn new(distro: Option<String>, arch: Option<String>, packages: Vec<String>) -> (r: Self)
        ensures
            r.distro == distro,
            r.arch == arch,
            r.packages == packages,
    {
        MprDependencyGroup { distro, arch, packages }
    }

    /// A copy of the group.
    pub fn duplicate(&self) -> (r: Self)
        ensures
            r@ == self@,
    {
        MprDependencyGroup {
            distro: clone_opt(&self.distro),
            arch: clone_opt(&self.arch),
            packages: clone_strings(&self.packages),
        }
    }
}

/// A copy of a list of dependency groups.
pub fn clone_groups(list: &Vec<MprDependencyGroup>) -> (r: Vec<MprDependencyGroup>)
    ensures
        groups(r@) == groups(list@),
{
    let mut out: Vec<MprDependencyGroup> = Vec::new();
    let mut i: usize = 0;
    while i < list.len()
        invariant
            i <= list.len(),
            out.len() == i,
            forall|j: int| 0 <= j < i ==> out@[j]@ == list@[j]@,
        decreases list.len() - i,
    {
        out.push(list[i].duplicate());
        i += 1;
    }
    assert(groups(out@) =~= groups(list@));
    out
}

impl MprPackage {
    /// A copy of the package.
    pub fn duplicate(&self) -> (r: Self)
        ensures
            r@ == self@,
    {
        MprPackage {
            pkgname: self.pkgname.clone(),
            pkgbase: self.pkgbase.clone(),
            version: self.version.clone(),
            pkgdesc: clone_opt(&self.pkgdesc),
            maintainer: clone_opt(&self.maintainer),
            num_votes: self.num_votes,
            popularity_bits: self.popularity_bits,
            ood: self.ood,
            depends: clone_groups(&self.depends),
            makedepends: clone_groups(&self.makedepends),
            checkdepends: clone_groups(&self.checkdepends),
            conflicts: clone_groups(&self.conflicts),
            provides: clone_groups(&self.provides),
        }
    }

    /// The packages of the first of `dep_groups` whose keys are exactly
    /// `distro` and `arch`.
    pub fn get_pkg_group(
        &self,
        distro: Option<&str>,
        arch: Option<&str>,
        dep_groups: &Vec<MprDependencyGroup>,
    ) -> (r: Option<Vec<String>>)
        ensures
            opt_texts(r) == spec_pkg_group(groups(dep_groups@), opt_str_text(distro), opt_str_text(arch)),
    {
        let mut i: usize = 0;
        while i < dep_groups.len()
            invariant
                i <= dep_groups.len(),
                spec_pkg_group(groups(dep_groups@), opt_str_text(distro), opt_str_text(arch))
                    == group_from(
                    groups(dep_groups@),
                    opt_str_text(distro),
                    opt_str_text(arch),
                    i as int,
                ),
            decreases dep_groups.len() - i,
        {
            let group = &dep_groups[i];
            assert(groups(dep_groups@)[i as int] == group@);
            if opt_eq(&group.distro, distro) && opt_eq(&group.arch, arch) {
                return Some(clone_strings(&group.packages));
            }
            i += 1;
        }
        None
    }

    /// The groups of one relation.
    pub fn relation(&self, relation: Relation) -> (r: &Vec<MprDependencyGroup>)
        ensures
            groups(r@) == self@.relation(relation),
    {
        match relation {
            Relation::Depends => &self.depends,
            Relation::MakeDepends => &self.makedepends,
            Relation::CheckDepends => &self.checkdepends,
            Relation::Conflicts => &self.conflicts,
            Relation::Provides => &self.provides,
        }
    }

    /// The run-time dependencies listed for exactly this distribution and
    /// architecture.
    pub fn get_depends(&self, distro: Option<&str>, arch: Option<&str>) -> (r: Option<Vec<String>>)
        ensures
            opt_texts(r) == spec_pkg_group(self@.depends, opt_str_text(distro), opt_str_text(arch)),
    {
        self.get_pkg_group(distro, arch, &self.depends)
    }

    /// The build-time dependencies listed for exactly this distribution and
    /// architecture.
    pub fn get_makedepends(&self, distro: Option<&str>, arch: Option<&str>) -> (r: Option<
        Vec<String>,
    >)
        ensures
            opt_texts(r) == spec_pkg_group(self@.makedepends, opt_str_text(distro), opt_str_text(arch)),
    {
        self.get_pkg_group(distro, arch, &self.makedepends)
    }

    /// The check-time dependencies listed for exactly this distribution and
    /// architecture.
    pub fn get_checkdepends(&self, distro: Option<&str>, arch: Option<&str>) -> (r: Option<
        Vec<String>,
    >)
        ensures
            opt_texts(r) == spec_pkg_group(self@.checkdepends, opt_str_text(distro), opt_str_text(arch)),
    {
        self.get_pkg_group(distro, arch, &self.checkdepends)
    }

    /// The conflicts listed for exactly this distribution and architecture.
    pub fn get_conflicts(&self, distro: Option<&str>, arch: Option<&str>) -> (r: Option<
        Vec<String>,
    >)
        ensures
            opt_texts(r) == spec_pkg_group(self@.conflicts, opt_str_text(distro), opt_str_text(arch)),
    {
        self.get_pkg_group(distro, arch, &self.conflicts)
    }

    /// The provided names listed for exactly this distribution and
    /// architecture.
    pub fn get_provides(&self, distro: Option<&str>, arch: Option<&str>) -> (r: Option<Vec<String>>)
        ensures
            opt_texts(r) == spec_pkg_group(self@.provides, opt_str_text(distro), opt_str_text(arch)),
    {
        self.get_pkg_group(distro, arch, &self.provides)
    }

    /// What one relation lists on a system with the given distribution and
    /// architecture: the packages of the most specific key that is present.
    pub fn get_system_pkgs(&self, relation: Relation, distro: &str, arch: &str) -> (r: Option<
        Vec<String>,
    >)
        ensures
            opt_texts(r) == spec_system_pkgs(self@.relation(relation), distro@, arch@),
    {
        let list = self.relation(relation);
        if let Some(deps) = self.get_pkg_group(Some(distro), Some(arch), list) {
            Some(deps)
        } else if let Some(deps) = self.get_pkg_group(Some(distro), None, list) {
            Some(deps)
        } else if let Some(deps) = self.get_pkg_group(None, Some(arch), list) {
            Some(deps)
        } else {
            self.get_pkg_group(None, None, list)
        }
    }

    /// The run-time dependencies that apply on a system.
    pub fn get_system_depends(&self, distro: &str, arch: &str) -> (r: Option<Vec<String>>)
        ensures
            opt_texts(r) == spec_system_pkgs(self@.depends, distro@, arch@),
    {
        self.get_system_pkgs(Relation::Depends, distro, arch)
    }

    /// The build-time dependencies that apply on a system.
    pub fn get_system_makedepends(&self, distro: &str, arch: &str) -> (r: Option<Vec<String>>)
        ensures
            opt_texts(r) == spec_system_pkgs(self@.makedepends, distro@, arch@),
    {
        self.get_system_pkgs(Relation::MakeDepends, distro, arch)
    }

    /// The check-time dependencies that apply on a system.
    pub fn get_system_checkdepends(&self, distro: &str, arch: &str) -> (r: Option<Vec<String>>)
        ensures
            opt_texts(r) == spec_system_pkgs(self@.checkdepends, distro@, arch@),
    {
        self.get_system_pkgs(Relation::CheckDepends, distro, arch)
    }

    /// The conflicts that apply on a system.
    pub fn get_system_conflicts(&self, distro: &str, arch: &str) -> (r: Option<Vec<String>>)
        ensures
            opt_texts(r) == spec_system_pkgs(self@.conflicts, distro@, arch@),
    {
        self.get_system_pkgs(Relation::Conflicts, distro, arch)
    }

    /// The provided names that apply on a system.
    pub fn get_system_provides(&self, distro: &str, arch: &str) -> (r: Option<Vec<String>>)
        ensures
            opt_texts(r) == spec_system_pkgs(self@.provides, distro@, arch@),
    {
        self.get_system_pkgs(Relation::Provides, distro, arch)
    }

    /// The dependency expressions that must hold to build and install the
    /// package on a system: run-time, then build-time, then check-time.
    pub fn dep_groups(&self, distro: &str, arch: &str) -> (r: Vec<String>)
        ensures
            texts(r@) == self@.dep_groups(distro@, arch@),
    {
        let mut out: Vec<String> = Vec::new();
        if let Some(mut deps) = self.get_system_depends(distro, arch) {
            let ghost before = texts(out@);
            let ghost added = texts(deps@);
            out.append(&mut deps);
            assert(texts(out@) =~= before + added);
        }
        if let Some(mut deps) = self.get_system_makedepends(distro, arch) {
            let ghost before = texts(out@);
            let ghost added = texts(deps@);
            out.append(&mut deps);
            assert(texts(out@) =~= before + added);
        }
        if let Some(mut deps) = self.get_system_checkdepends(distro, arch) {
            let ghost before = texts(out@);
            let ghost added = texts(deps@);
            out.append(&mut deps);
            assert(texts(out@) =~= before + added);
        }
        assert(texts(out@) =~= self@.dep_groups(distro@, arch@));
        out
    }
}

/// The values of a list of packages, in order.
pub open spec fn pkgs(list: Seq<MprPackage>) -> Seq<PackageModel> {
    Seq::new(list.len(), |i: int| list[i]@)
}

/// The first package at or after index `from` that is called `name`.
pub open spec fn lookup_from(list: Seq<PackageModel>, name: Seq<char>, from: int) -> Option<
    PackageModel,
>
    decreases list.len() - from,
{
    if from < 0 || from >= list.len() {
        None
    } else if list[from].pkgname == name {
        Some(list[from])
    } else {
        lookup_from(list, name, from + 1)
    }
}

/// The first package of `list` that is called `name`.
pub open spec fn spec_lookup(list: Seq<PackageModel>, name: Seq<char>) -> Option<PackageModel> {
    lookup_from(list, name, 0)
}

/// The last package at or after index `from` that is called `name`.
pub open spec fn last_from(list: Seq<PackageModel>, name: Seq<char>, from: int) -> Option<
    PackageModel,
>
    decreases list.len() - from,
{
    if from < 0 || from >= list.len() {
        None
    } else if last_from(list, name, from + 1) is Some {
        last_from(list, name, from + 1)
    } else if list[from].pkgname == name {
        Some(list[from])
    } else {
        None
    }
}

/// Those of the packages from index `from` on that no later package shares
/// its name with, from the last to the first.
pub open spec fn last_of_each_from(list: Seq<PackageModel>, from: int) -> Seq<PackageModel>
    decreases list.len() - from,
{
    if from < 0 || from >= list.len() {
        Seq::empty()
    } else if last_from(list, list[from].pkgname, from + 1) is None {
        last_of_each_from(list, from + 1).push(list[from])
    } else {
        last_of_each_from(list, from + 1)
    }
}

/// The packages that no later package shares its name with, in their
/// order: the last package of each name.
pub open spec fn last_of_each(list: Seq<PackageModel>) -> Seq<PackageModel> {
    last_of_each_from(list, 0).reverse()
}

/// Whether no two packages of `list` share a name.
pub open spec fn unique_names(list: Seq<PackageModel>) -> bool {
    forall|i: int, j: int|
        0 <= i < j < list.len() ==> (#[trigger] list[i]).pkgname != (#[trigger] list[j]).pkgname
}

/// Whether `list` holds a package called `name`.
pub open spec fn has_package(list: Seq<PackageModel>, name: Seq<char>) -> bool {
    spec_lookup(list, name) is Some
}

/// Whether `list` holds a package of every one of `names`.
pub open spec fn all_known(list: Seq<PackageModel>, names: Seq<Seq<char>>) -> bool {
    forall|i: int| 0 <= i < names.len() ==> has_package(list, #[trigger] names[i])
}

/// Names that are known, one list after the other, are all known.
pub proof fn lemma_all_known_add(list: Seq<PackageModel>, a: Seq<Seq<char>>, b: Seq<Seq<char>>)
    requires
        all_known(list, a),
        all_known(list, b),
    ensures
        all_known(list, a + b),
{
    assert forall|i: int| 0 <= i < (a + b).len() implies has_package(list, #[trigger] (a + b)[i]) by {
        if i < a.len() {
            assert((a + b)[i] == a[i]);
        } else {
            assert((a + b)[i] == b[i - a.len()]);
        }
    }
}

/// A first match, if there is one, is a member that bears the name.
pub proof fn lemma_lookup_from(list: Seq<PackageModel>, name: Seq<char>, from: int)
    requires
        0 <= from,
    ensures
        match lookup_from(list, name, from) {
            Some(p) => exists|i: int| from <= i < list.len() && list[i] == p && p.pkgname == name,
            None => forall|i: int| from <= i < list.len() ==> (#[trigger] list[i]).pkgname != name,
        },
    decreases list.len() - from,
{
    if from < list.len() && list[from].pkgname != name {
        lemma_lookup_from(list, name, from + 1);
    }
}

/// Adding a package at the end changes the first match only for a name that
/// had none.
pub proof fn lemma_lookup_push(
    list: Seq<PackageModel>,
    added: PackageModel,
    name: Seq<char>,
    from: int,
)
    requires
        0 <= from <= list.len(),
    ensures
        lookup_from(list.push(added), name, from) == if lookup_from(list, name, from) is Some {
            lookup_from(list, name, from)
        } else if added.pkgname == name {
            Some(added)
        } else {
            None
        },
    decreases list.len() - from,
{
    let longer = list.push(added);
    if from < list.len() {
        assert(longer[from] == list[from]);
        if list[from].pkgname != name {
            lemma_lookup_push(list, added, name, from + 1);
        }
    } else {
        assert(longer[from] == added);
        assert(lookup_from(longer, name, from + 1) is None);
    }
}

/// The index of the first package called `name`.
pub fn find_package(list: &Vec<MprPackage>, name: &str) -> (r: Option<usize>)
    ensures
        match r {
            Some(i) => i < list.len() && spec_lookup(pkgs(list@), name@) == Some(list@[i as int]@),
            None => spec_lookup(pkgs(list@), name@) is None,
        },
{
    let mut i: usize = 0;
    while i < list.len()
        invariant
            i <= list.len(),
            spec_lookup(pkgs(list@), name@) == lookup_from(pkgs(list@), name@, i as int),
        decreases list.len() - i,
    {
        assert(pkgs(list@)[i as int] == list@[i as int]@);
        if str_eq(list[i].pkgname.as_str(), name) {
            return Some(i);
        }
        i += 1;
    }
    None
}

/// The text that a gzip archive holds, where the bytes are such an archive
/// and what it holds is text in UTF-8.
pub uninterp spec fn gunzip_text(data: Seq<u8>) -> Option<Seq<char>>;

/// Unpacks a gzip archive into text with `flate2::read::GzDecoder`.
///
/// Trusted: the result is what the decoder reads from these bytes, and
/// nothing where the decoder or the decoding of the text as UTF-8 fails.
/// It depends on the bytes alone.
#[verifier::external_body]
fn gunzip_to_string(data: &[u8]) -> (r: Option<String>)
    ensures
        opt_text(r) == gunzip_text(data@),
{
    let mut text = String::new();
    let mut decoder = flate2::read::GzDecoder::new(data);
    match std::io::Read::read_to_string(&mut decoder, &mut text) {
        Ok(_) => Some(text),
        Err(_) => None,
    }
}

/// The auxiliary catalog: the packages that are built from source, keyed by
/// name.
#[derive(Debug)]
pub struct MprCache {
    packages: Vec<MprPackage>,
}

impl View for MprCache {
    type V = Seq<PackageModel>;

    closed spec fn view(&self) -> Seq<PackageModel> {
        pkgs(self.packages@)
    }
}

impl MprCache {
    /// No two packages of the catalog share a name.
    #[verifier::type_invariant]
    closed spec fn keyed_by_name(self) -> bool {
        unique_names(pkgs(self.packages@))
    }

    /// Keys a list of packages by name. Where several packages share a name
    /// the last one stays, as in a map that is filled in order. The
    /// packages that stay keep their order.
    pub fn vec_to_map(packages: Vec<MprPackage>) -> (r: Vec<MprPackage>)
        ensures
            pkgs(r@) == last_of_each(pkgs(packages@)),
            unique_names(pkgs(r@)),
            forall|name: Seq<char>|
                spec_lookup(pkgs(r@), name) == last_from(pkgs(packages@), name, 0),
    {
        let found = Self::last_of_each_name(packages);
        let ghost backwards = pkgs(found@);
        let mut rest = found;
        let mut out: Vec<MprPackage> = Vec::new();
        while rest.len() > 0
            invariant
                rest.len() <= backwards.len(),
                pkgs(rest@) == backwards.take(rest.len() as int),
                out.len() == backwards.len() - rest.len(),
                forall|i: int|
                    0 <= i < out.len() ==> (#[trigger] pkgs(out@)[i]) == backwards[backwards.len()
                        - 1 - i],
            decreases rest.len(),
        {
            let ghost k = rest.len() - 1;
            let ghost before = pkgs(out@);
            assert(pkgs(rest@)[k] == rest@[k]@);
            let pkg = rest.pop().unwrap();
            assert(pkgs(rest@) =~= backwards.take(k));
            out.push(pkg);
            assert(pkgs(out@) =~= before.push(backwards[k]));
        }
        proof {
            let forwards = pkgs(out@);
            let n = backwards.len() as int;
            assert(forwards =~= backwards.reverse());
            assert forall|i: int, j: int| 0 <= i < j < n implies (#[trigger] forwards[i]).pkgname != (
            #[trigger] forwards[j]).pkgname by {
                assert(forwards[i] == backwards[n - 1 - i]);
                assert(forwards[j] == backwards[n - 1 - j]);
            }
            assert forall|name: Seq<char>| spec_lookup(forwards, name) == spec_lookup(
                backwards,
                name,
            ) by {
                lemma_lookup_from(forwards, name, 0);
                lemma_lookup_from(backwards, name, 0);
                if let Some(p) = spec_lookup(backwards, name) {
                    let i = choose|i: int| 0 <= i < n && backwards[i] == p && p.pkgname == name;
                    assert(forwards[n - 1 - i] == p);
                    if let Some(q) = spec_lookup(forwards, name) {
                        let j = choose|j: int| 0 <= j < n && forwards[j] == q && q.pkgname == name;
                        assert(backwards[n - 1 - j] == q);
                        if n - 1 - j != i {
                            assert(backwards[i].pkgname == backwards[n - 1 - j].pkgname);
                        }
                    }
                } else if let Some(q) = spec_lookup(forwards, name) {
                    let j = choose|j: int| 0 <= j < n && forwards[j] == q && q.pkgname == name;
                    assert(backwards[n - 1 - j] == q);
                }
            }
        }
        out
    }

    /// The last package of each name, from the last to the first.
    fn last_of_each_name(packages: Vec<MprPackage>) -> (r: Vec<MprPackage>)
        ensures
            pkgs(r@) == last_of_each_from(pkgs(packages@), 0),
            unique_names(pkgs(r@)),
            forall|name: Seq<char>|
                spec_lookup(pkgs(r@), name) == last_from(pkgs(packages@), name, 0),
    {
        let ghost input = pkgs(packages@);
        let mut rest = packages;
        let mut out: Vec<MprPackage> = Vec::new();
        while rest.len() > 0
            invariant
                rest.len() <= input.len(),
                pkgs(rest@) == input.take(rest.len() as int),
                pkgs(out@) == last_of_each_from(input, rest.len() as int),
                unique_names(pkgs(out@)),
                forall|name: Seq<char>|
                    spec_lookup(pkgs(out@), name) == last_from(input, name, rest.len() as int),
            decreases rest.len(),
        {
            let ghost k = rest.len() - 1;
            let ghost before = pkgs(out@);
            assert(pkgs(rest@)[k] == rest@[k]@);
            let pkg = rest.pop().unwrap();
            assert(pkg@ == input[k]);
            assert(pkgs(rest@) =~= input.take(k));
            let found = find_package(&out, pkg.pkgname.as_str());
            if found.is_none() {
                out.push(pkg);
                assert(pkgs(out@) =~= before.push(input[k]));
                proof {
                    lemma_lookup_from(before, input[k].pkgname, 0);
                    assert forall|name: Seq<char>|
                        spec_lookup(pkgs(out@), name) == last_from(input, name, k) by {
                        lemma_lookup_push(before, input[k], name, 0);
                        assert(spec_lookup(before, name) == last_from(input, name, k + 1));
                    }
                }
            }
        }
        out
    }

    /// Checks that `data` is a gzip archive of text, and unpacks it. The
    /// text is the list of the repository's packages in JSON, which the
    /// caller reads into packages for [`MprCache::from_packages`].
    pub fn validate_data(data: &[u8]) -> (r: Result<String, ()>)
        ensures
            match gunzip_text(data@) {
                Some(text) => r is Ok && r->Ok_0@ == text,
                None => r is Err,
            },
    {
        match gunzip_to_string(data) {
            Some(text) => Ok(text),
            None => Err(()),
        }
    }

    /// The catalog of the given packages. Where several packages share a
    /// name the last one stays.
    pub fn from_packages(packages: Vec<MprPackage>) -> (r: Self)
        ensures
            r@ == last_of_each(pkgs(packages@)),
            unique_names(r@),
            forall|name: Seq<char>| spec_lookup(r@, name) == last_from(pkgs(packages@), name, 0),
    {
        MprCache { packages: Self::vec_to_map(packages) }
    }

    /// The packages of the catalog. No two share a name.
    pub fn packages(&self) -> (r: &Vec<MprPackage>)
        ensures
            pkgs(r@) == self@,
            unique_names(self@),
    {
        proof {
            use_type_invariant(self);
        }
        &self.packages
    }

    /// The package called `name`.
    pub fn get(&self, name: &str) -> (r: Option<&MprPackage>)
        ensures
            match r {
                Some(p) => Some(p@),
                None => None,
            } == spec_lookup(self@, name@),
    {
        match find_package(&self.packages, name) {
            Some(i) => Some(&self.packages[i]),
            None => None,
        }
    }

    /// Whether the catalog holds a package called `name`.
    pub fn contains_key(&self, name: &str) -> (r: bool)
        ensures
            r == has_package(self@, name@),
    {
        find_package(&self.packages, name).is_some()
    }

    /// Whether the catalog holds a package of every one of `names`.
    pub fn contains_all(&self, names: &Vec<String>) -> (r: bool)
        ensures
            r == all_known(self@, texts(names@)),
    {
        let mut i: usize = 0;
        while i < names.len()
            invariant
                i <= names.len(),
                forall|k: int| 0 <= k < i ==> has_package(self@, #[trigger] texts(names@)[k]),
            decreases names.len() - i,
        {
            assert(texts(names@)[i as int] == names@[i as int]@);
            if !self.contains_key(names[i].as_str()) {
                return false;
            }
            i += 1;
        }
        true
    }
}

/// The catalog that a package comes from.
#[derive(Clone, Copy, Debug, PartialEq, Eq, Structural)]
pub enum CachePackageSource {
    Apt,
    Mpr,
}

/// What the merged catalog records of a package of either origin. Some
/// fields make sense for one origin only.
#[derive(Debug)]
pub struct CachePackage {
    pub pkgname: String,
    pub pkgbase: Option<String>,
    pub version: String,
    pub pkgdesc: Option<String>,
    pub arch: Option<String>,
    pub maintainer: Option<String>,
    pub num_votes: Option<u32>,
    /// The popularity score as the bit pattern of a single-precision number.
    pub popularity_bits: Option<u32>,
    pub ood: Option<u32>,
    pub source: CachePackageSource,
}

/// The mathematical value of a [`CachePackage`].
pub ghost struct CachePackageModel {
    pub pkgname: Seq<char>,
    pub pkgbase: Option<Seq<char>>,
    pub version: Seq<char>,
    pub pkgdesc: Option<Seq<char>>,
    pub arch: Option<Seq<char>>,
    pub maintainer: Option<Seq<char>>,
    pub num_votes: Option<u32>,
    pub popularity_bits: Option<u32>,
    pub ood: Option<u32>,
    pub source: CachePackageSource,
}

impl View for CachePackage {
    type V = CachePackageModel;

    open spec fn view(&self) -> CachePackageModel {
        CachePackageModel {
            pkgname: self.pkgname@,
            pkgbase: opt_text(self.pkgbase),
            version: self.version@,
            pkgdesc: opt_text(self.pkgdesc),
            arch: opt_text(self.arch),
            maintainer: opt_text(self.maintainer),
            num_votes: self.num_votes,
            popularity_bits: self.popularity_bits,
            ood: self.ood,
            source: self.source,
        }
    }
}

/// The values of a list of records, in order.
pub open spec fn records(list: Seq<CachePackage>) -> Seq<CachePackageModel> {
    Seq::new(list.len(), |i: int| list[i]@)
}

/// The values of a list of borrowed records, in order.
pub open spec fn record_refs(list: Seq<&CachePackage>) -> Seq<CachePackageModel> {
    Seq::new(list.len(), |i: int| list[i]@)
}

/// The values of a list of borrowed system packages, in order.
pub open spec fn apt_refs(list: Seq<&AptPackage>) -> Seq<AptPackageModel> {
    Seq::new(list.len(), |i: int| list[i]@)
}

/// The record of a system package. Its version and description are those
/// of its candidate.
pub open spec fn apt_record(p: AptPackageModel) -> CachePackageModel {
    CachePackageModel {
        pkgname: p.name,
        pkgbase: None,
        version: match p.candidate {
            Some(v) => v,
            None => Seq::empty(),
        },
        pkgdesc: p.summary,
        arch: Some(p.arch),
        maintainer: None,
        num_votes: None,
        popularity_bits: None,
        ood: None,
        source: CachePackageSource::Apt,
    }
}

/// The record of a package of the auxiliary catalog.
pub open spec fn mpr_record(p: PackageModel) -> CachePackageModel {
    CachePackageModel {
        pkgname: p.pkgname,
        pkgbase: Some(p.pkgbase),
        version: p.version,
        pkgdesc: p.pkgdesc,
        arch: None,
        maintainer: p.maintainer,
        num_votes: Some(p.num_votes),
        popularity_bits: Some(p.popularity_bits),
        ood: p.ood,
        source: CachePackageSource::Mpr,
    }
}

/// Of the first `upto` system packages, those that are real: the ones with
/// a candidate.
pub open spec fn nonvirtual(system: Seq<AptPackageModel>, upto: int) -> Seq<AptPackageModel>
    decreases upto,
{
    if upto <= 0 {
        Seq::empty()
    } else if system[upto - 1].candidate is Some {
        nonvirtual(system, upto - 1).push(system[upto - 1])
    } else {
        nonvirtual(system, upto - 1)
    }
}

/// The names of the real system packages, in the catalog's order.
pub open spec fn apt_names(system: Seq<AptPackageModel>) -> Seq<Seq<char>> {
    nonvirtual(system, system.len() as int).map_values(|p: AptPackageModel| p.name)
}

/// The names of the auxiliary packages, in the catalog's order.
pub open spec fn mpr_names(aux: Seq<PackageModel>) -> Seq<Seq<char>> {
    aux.map_values(|p: PackageModel| p.pkgname)
}

/// The records of both catalogs: the real system packages, then the
/// packages of the auxiliary catalog.
pub open spec fn spec_pkglist(system: Seq<AptPackageModel>, aux: Seq<PackageModel>) -> Seq<
    CachePackageModel,
> {
    nonvirtual(system, system.len() as int).map_values(|p: AptPackageModel| apt_record(p))
        + aux.map_values(|p: PackageModel| mpr_record(p))
}

/// The first record at or after index `from` with this name and origin.
pub open spec fn record_from(
    list: Seq<CachePackageModel>,
    name: Seq<char>,
    source: CachePackageSource,
    from: int,
) -> Option<CachePackageModel>
    decreases list.len() - from,
{
    if from < 0 || from >= list.len() {
        None
    } else if list[from].pkgname == name && list[from].source == source {
        Some(list[from])
    } else {
        record_from(list, name, source, from + 1)
    }
}

/// Of the first `upto` records, those called `name`.
pub open spec fn records_named(list: Seq<CachePackageModel>, name: Seq<char>, upto: int) -> Seq<
    CachePackageModel,
>
    decreases upto,
{
    if upto <= 0 {
        Seq::empty()
    } else if list[upto - 1].pkgname == name {
        records_named(list, name, upto - 1).push(list[upto - 1])
    } else {
        records_named(list, name, upto - 1)
    }
}

/// The merged view of the system catalog and the auxiliary catalog. A name
/// resolves to no record, to one, or to one of each origin.
#[derive(Debug)]
pub struct Cache {
    apt_cache: AptCache,
    mpr_cache: MprCache,
    pkglist: Vec<CachePackage>,
}

impl Cache {
    /// The system catalog that the cache was made of.
    pub closed spec fn apt(&self) -> Seq<AptPackageModel> {
        self.apt_cache@
    }

    /// The auxiliary catalog that the cache was made of.
    pub closed spec fn mpr(&self) -> Seq<PackageModel> {
        self.mpr_cache@
    }

    /// The records of the cache.
    pub closed spec fn pkglist(&self) -> Seq<CachePackageModel> {
        records(self.pkglist@)
    }

    /// The records are those of the two catalogs.
    #[verifier::type_invariant]
    closed spec fn merged(self) -> bool {
        records(self.pkglist@) == spec_pkglist(self.apt_cache@, self.mpr_cache@)
    }

    /// The real packages of a system catalog, in its order: those with a
    /// candidate.
    pub fn get_nonvirtual_packages(apt_cache: &AptCache) -> (r: Vec<&AptPackage>)
        ensures
            apt_refs(r@) == nonvirtual(apt_cache@, apt_cache@.len() as int),
            forall|j: int| 0 <= j < r@.len() ==> (#[trigger] r@[j]).candidate is Some,
    {
        let mut out: Vec<&AptPackage> = Vec::new();
        let mut i: usize = 0;
        while i < apt_cache.packages.len()
            invariant
                i <= apt_cache.packages.len(),
                apt_refs(out@) == nonvirtual(apt_cache@, i as int),
                forall|j: int| 0 <= j < out@.len() ==> (#[trigger] out@[j]).candidate is Some,
            decreases apt_cache.packages.len() - i,
        {
            let ghost before = apt_refs(out@);
            let pkg = &apt_cache.packages[i];
            assert(apt_cache@[i as int] == pkg@);
            if pkg.candidate.is_some() {
                out.push(pkg);
                assert(apt_refs(out@) =~= before.push(pkg@));
            }
            i += 1;
        }
        out
    }

    /// Merges the two catalogs.
    pub fn new(apt_cache: AptCache, mpr_cache: MprCache) -> (r: Self)
        ensures
            r.apt() == apt_cache@,
            r.mpr() == mpr_cache@,
            r.pkglist() == spec_pkglist(apt_cache@, mpr_cache@),
    {
        let mut pkglist: Vec<CachePackage> = Vec::new();
        let present = Self::get_nonvirtual_packages(&apt_cache);
        let mut i: usize = 0;
        while i < present.len()
            invariant
                i <= present.len(),
                pkglist.len() == i,
                forall|j: int| 0 <= j < present.len() ==> (#[trigger] present@[j]).candidate is Some,
                forall|j: int| 0 <= j < i ==> (#[trigger] pkglist@[j])@ == apt_record(present@[j]@),
            decreases present.len() - i,
        {
            let pkg = present[i];
            let version = match &pkg.candidate {
                Some(v) => v.clone(),
                None => String::new(),
            };
            pkglist.push(
                CachePackage {
                    pkgname: pkg.name.clone(),
                    pkgbase: None,
                    version,
                    pkgdesc: clone_opt(&pkg.summary),
                    arch: Some(pkg.arch.clone()),
                    maintainer: None,
                    num_votes: None,
                    popularity_bits: None,
                    ood: None,
                    source: CachePackageSource::Apt,
                },
            );
            i += 1;
        }
        let ghost from_apt = records(pkglist@);
        assert(from_apt =~= nonvirtual(apt_cache@, apt_cache@.len() as int).map_values(
            |p: AptPackageModel| apt_record(p),
        )) by {
            assert(apt_refs(present@) == nonvirtual(apt_cache@, apt_cache@.len() as int));
            assert forall|j: int| 0 <= j < present.len() implies from_apt[j] == apt_record(
                nonvirtual(apt_cache@, apt_cache@.len() as int)[j],
            ) by {
                assert(apt_refs(present@)[j] == present@[j]@);
            }
        }
        let aux = mpr_cache.packages();
        let mut k: usize = 0;
        while k < aux.len()
            invariant
                k <= aux.len(),
                pkglist.len() == from_apt.len() + k,
                forall|j: int| 0 <= j < from_apt.len() ==> (#[trigger] pkglist@[j])@ == from_apt[j],
                forall|j: int|
                    0 <= j < k ==> (#[trigger] pkglist@[from_apt.len() + j])@ == mpr_record(
                        aux@[j]@,
                    ),
            decreases aux.len() - k,
        {
            let pkg = &aux[k];
            pkglist.push(
                CachePackage {
                    pkgname: pkg.pkgname.clone(),
                    pkgbase: Some(pkg.pkgbase.clone()),
                    version: pkg.version.clone(),
                    pkgdesc: clone_opt(&pkg.pkgdesc),
                    arch: None,
                    maintainer: clone_opt(&pkg.maintainer),
                    num_votes: Some(pkg.num_votes),
                    popularity_bits: Some(pkg.popularity_bits),
                    ood: pkg.ood,
                    source: CachePackageSource::Mpr,
                },
            );
            k += 1;
        }
        assert(records(pkglist@) =~= spec_pkglist(apt_cache@, mpr_cache@)) by {
            let from_aux = mpr_cache@.map_values(|p: PackageModel| mpr_record(p));
            assert(pkgs(aux@) == mpr_cache@);
            assert(from_aux.len() == aux.len());
            assert forall|j: int| 0 <= j < aux.len() implies records(pkglist@)[from_apt.len() + j]
                == from_aux[j] by {
                assert(pkgs(aux@)[j] == aux@[j]@);
                assert(records(pkglist@)[from_apt.len() + j] == pkglist@[from_apt.len() + j]@);
            }
            assert forall|j: int| 0 <= j < from_apt.len() implies records(pkglist@)[j]
                == from_apt[j] by {
                assert(records(pkglist@)[j] == pkglist@[j]@);
            }
            assert(records(pkglist@) =~= from_apt + from_aux);
        }
        Cache { apt_cache, mpr_cache, pkglist }
    }

    /// The system catalog.
    pub fn apt_cache(&self) -> (r: &AptCache)
        ensures
            r@ == self.apt(),
    {
        &self.apt_cache
    }

    /// The auxiliary catalog.
    pub fn mpr_cache(&self) -> (r: &MprCache)
        ensures
            r@ == self.mpr(),
    {
        &self.mpr_cache
    }

    /// The names of the real system packages, in the catalog's order.
    pub fn apt_names(&self) -> (r: Vec<String>)
        ensures
            texts(r@) == apt_names(self.apt()),
    {
        let present = Self::get_nonvirtual_packages(&self.apt_cache);
        let mut out: Vec<String> = Vec::new();
        let mut i: usize = 0;
        while i < present.len()
            invariant
                i <= present.len(),
                out.len() == i,
                forall|k: int| 0 <= k < i ==> (#[trigger] out@[k])@ == present@[k]@.name,
            decreases present.len() - i,
        {
            out.push(present[i].name.clone());
            i += 1;
        }
        assert(texts(out@) =~= apt_names(self.apt())) by {
            assert forall|k: int| 0 <= k < present.len() implies apt_refs(present@)[k]
                == present@[k]@ by {}
        }
        out
    }

    /// The names of the auxiliary packages, in the catalog's order.
    pub fn mpr_names(&self) -> (r: Vec<String>)
        ensures
            texts(r@) == mpr_names(self.mpr()),
    {
        let listed = self.mpr_cache.packages();
        let mut out: Vec<String> = Vec::new();
        let mut i: usize = 0;
        while i < listed.len()
            invariant
                i <= listed.len(),
                out.len() == i,
                forall|k: int| 0 <= k < i ==> (#[trigger] out@[k])@ == listed@[k]@.pkgname,
            decreases listed.len() - i,
        {
            out.push(listed[i].pkgname.clone());
            i += 1;
        }
        assert(texts(out@) =~= mpr_names(self.mpr())) by {
            assert forall|k: int| 0 <= k < listed.len() implies pkgs(listed@)[k] == listed@[k]@ by {}
        }
        out
    }

    /// The records called `pkgname`, of either origin: those of the system
    /// catalog first.
    pub fn pkgmap(&self, pkgname: &str) -> (r: Vec<&CachePackage>)
        ensures
            self.pkglist() == spec_pkglist(self.apt(), self.mpr()),
            record_refs(r@) == records_named(self.pkglist(), pkgname@, self.pkglist().len() as int),
    {
        proof {
            use_type_invariant(self);
        }
        let mut out: Vec<&CachePackage> = Vec::new();
        let mut i: usize = 0;
        while i < self.pkglist.len()
            invariant
                i <= self.pkglist.len(),
                self.pkglist() == spec_pkglist(self.apt(), self.mpr()),
                record_refs(out@) == records_named(records(self.pkglist@), pkgname@, i as int),
            decreases self.pkglist.len() - i,
        {
            let ghost before = record_refs(out@);
            let pkg = &self.pkglist[i];
            assert(records(self.pkglist@)[i as int] == pkg@);
            if str_eq(pkg.pkgname.as_str(), pkgname) {
                out.push(pkg);
                assert(record_refs(out@) =~= before.push(pkg@));
            }
            i += 1;
        }
        out
    }

    /// The first record with this name and origin.
    fn get_pkg(&self, pkgname: &str, source: CachePackageSource) -> (r: Option<&CachePackage>)
        ensures
            self.pkglist() == spec_pkglist(self.apt(), self.mpr()),
            match r {
                Some(p) => Some(p@),
                None => None,
            } == record_from(self.pkglist(), pkgname@, source, 0),
    {
        proof {
            use_type_invariant(self);
        }
        let mut i: usize = 0;
        while i < self.pkglist.len()
            invariant
                i <= self.pkglist.len(),
                self.pkglist() == spec_pkglist(self.apt(), self.mpr()),
                record_from(records(self.pkglist@), pkgname@, source, 0) == record_from(
                    records(self.pkglist@),
                    pkgname@,
                    source,
                    i as int,
                ),
            decreases self.pkglist.len() - i,
        {
            let pkg = &self.pkglist[i];
            assert(records(self.pkglist@)[i as int] == pkg@);
            if str_eq(pkg.pkgname.as_str(), pkgname) && pkg.source == source {
                return Some(pkg);
            }
            i += 1;
        }
        None
    }

    /// The record of the system package called `pkgname`.
    pub fn get_apt_pkg(&self, pkgname: &str) -> (r: Option<&CachePackage>)
        ensures
            self.pkglist() == spec_pkglist(self.apt(), self.mpr()),
            match r {
                Some(p) => Some(p@),
                None => None,
            } == record_from(self.pkglist(), pkgname@, CachePackageSource::Apt, 0),
    {
        self.get_pkg(pkgname, CachePackageSource::Apt)
    }

    /// The record of the auxiliary package called `pkgname`.
    pub fn get_mpr_pkg(&self, pkgname: &str) -> (r: Option<&CachePackage>)
        ensures
            self.pkglist() == spec_pkglist(self.apt(), self.mpr()),
            match r {
                Some(p) => Some(p@),
                None => None,
            } == record_from(self.pkglist(), pkgname@, CachePackageSource::Mpr, 0),
    {
        self.get_pkg(pkgname, CachePackageSource::Mpr)
    }

    /// The package base that builds the auxiliary package called `pkgname`.
    pub fn find_pkgbase(&self, pkgname: &str) -> (r: Option<String>)
        ensures
            opt_text(r) == match spec_lookup(self.mpr(), pkgname@) {
                Some(p) => Some(p.pkgbase),
                None => None,
            },
    {
        match self.mpr_cache.get(pkgname) {
            Some(pkg) => Some(pkg.pkgbase.clone()),
            None => None,
        }
    }
}

} // verus!
