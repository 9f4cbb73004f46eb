//! A snapshot of the system catalog, and the plan of what to install from it.
//!
//! The system's package engine owns the system catalog. The library reads a
//! snapshot of it, as plain values, and never changes it: what a resolution
//! marks for installation is recorded in an [`InstallPlan`], which the caller
//! hands to the engine afterwards.

use vstd::prelude::*;
use vstd::string::*;
use crate::depend::{opt_constraint, Constraint, ConstraintModel};
use crate::text::{opt_text, str_eq, texts};
use crate::version::{admits, constraint_holds, VersionOrder};

verus! {

/// A version of a system package.
#[derive(Debug)]
pub struct AptVersion {
    /// The package that the version belongs to.
    pub package: String,
    pub version: String,
}

/// A version of another package that declares to fulfil a name.
#[derive(Debug)]
pub struct AptProvider {
    /// The package that provides the name.
    pub package: String,
    /// The version of that package.
    pub version: String,
    /// The version of the name that it provides, where it says one.
    pub provided_version: Option<String>,
}

/// What the engine has marked a system package for.
#[derive(Clone, Copy, Debug, PartialEq, Eq, Structural)]
pub struct AptMarks {
    pub install: bool,
    pub delete: bool,
    pub purge: bool,
    pub upgrade: bool,
    pub downgrade: bool,
    pub reinstall: bool,
    pub keep: bool,
}

/// What a mark asks the engine to do with a package.
#[derive(Clone, Copy, Debug, PartialEq, Eq, Structural)]
pub enum AptAction {
    Install,
    Delete,
    Purge,
    Keep,
}

impl AptMarks {
    /// No mark at all.
    pub fn none() -> (r: Self)
        ensures
            r == (AptMarks {
                install: false,
                delete: false,
                purge: false,
                upgrade: false,
                downgrade: false,
                reinstall: false,
                keep: false,
            }),
    {
        AptMarks {
            install: false,
            delete: false,
            purge: false,
            upgrade: false,
            downgrade: false,
            reinstall: false,
            keep: false,
        }
    }

    /// What the marks ask for when they are carried over to another engine:
    /// to install for any mark that brings a version in, else to delete, to
    /// purge or to keep, in this order; nothing where there is no mark.
    pub open spec fn spec_action(self) -> Option<AptAction> {
        if self.install || self.downgrade || self.reinstall || self.upgrade {
            Some(AptAction::Install)
        } else if self.delete {
            Some(AptAction::Delete)
        } else if self.purge {
            Some(AptAction::Purge)
        } else if self.keep {
            Some(AptAction::Keep)
        } else {
            None
        }
    }

    /// What the marks ask for when they are carried over to another engine.
    pub fn action(self) -> (r: Option<AptAction>)
        ensures
            r == self.spec_action(),
    {
        if self.install || self.downgrade || self.reinstall || self.upgrade {
            Some(AptAction::Install)
        } else if self.delete {
            Some(AptAction::Delete)
        } else if self.purge {
            Some(AptAction::Purge)
        } else if self.keep {
            Some(AptAction::Keep)
        } else {
            None
        }
    }
}

/// A package of the system catalog.
#[derive(Debug)]
pub struct AptPackage {
    pub name: String,
    pub arch: String,
    /// Whether some version of the package is installed.
    pub installed: bool,
    /// The version that the engine would install; absent for a package that
    /// exists only because others provide it.
    pub candidate: Option<String>,
    /// The one-line summary of the candidate.
    pub summary: Option<String>,
    /// The description of the candidate.
    pub description: Option<String>,
    /// The versions of the package, in the engine's order.
    pub versions: Vec<String>,
    /// The versions of other packages that provide this name, in the
    /// engine's order.
    pub providers: Vec<AptProvider>,
    /// What the engine has marked the package for.
    pub marks: AptMarks,
    /// Whether a newer version than the installed one can be installed.
    pub upgradable: bool,
    /// Whether the package was installed to satisfy a dependency.
    pub auto_installed: bool,
    /// Whether the package was installed to satisfy a dependency that is
    /// gone.
    pub auto_removable: bool,
}

/// The system catalog.
#[derive(Debug)]
pub struct AptCache {
    pub packages: Vec<AptPackage>,
}

/// The system versions marked for installation, in the order in which they
/// were marked. None of them was asked for by the user: each is there to
/// satisfy a dependency.
#[derive(Debug)]
pub struct InstallPlan {
    pub marked: Vec<AptVersion>,
}

/// The mathematical value of an [`AptVersion`].
pub ghost struct VersionRef {
    pub package: Seq<char>,
    pub version: Seq<char>,
}

/// The mathematical value of an [`AptProvider`].
pub ghost struct ProviderModel {
    pub package: Seq<char>,
    pub version: Seq<char>,
    pub provided_version: Option<Seq<char>>,
}

/// The mathematical value of an [`AptPackage`].
pub ghost struct AptPackageModel {
    pub name: Seq<char>,
    pub arch: Seq<char>,
    pub installed: bool,
    pub candidate: Option<Seq<char>>,
    pub summary: Option<Seq<char>>,
    pub description: Option<Seq<char>>,
    pub versions: Seq<Seq<char>>,
    pub providers: Seq<ProviderModel>,
    pub marks: AptMarks,
    pub upgradable: bool,
    pub auto_installed: bool,
    pub auto_removable: bool,
}

impl View for AptVersion {
    type V = VersionRef;

    open spec fn view(&self) -> VersionRef {
        VersionRef { package: self.package@, version: self.version@ }
    }
}

impl View for AptProvider {
    type V = ProviderModel;

    open spec fn view(&self) -> ProviderModel {
        ProviderModel {
            package: self.package@,
            version: self.version@,
            provided_version: opt_text(self.provided_version),
        }
    }
}

impl View for AptPackage {
    type V = AptPackageModel;

    open spec fn view(&self) -> AptPackageModel {
        AptPackageModel {
            name: self.name@,
            arch: self.arch@,
            installed: self.installed,
            candidate: opt_text(self.candidate),
            summary: opt_text(self.summary),
            description: opt_text(self.description),
            versions: texts(self.versions@),
            providers: Seq::new(self.providers@.len(), |i: int| self.providers@[i]@),
            marks: self.marks,
            upgradable: self.upgradable,
            auto_installed: self.auto_installed,
            auto_removable: self.auto_removable,
        }
    }
}

impl View for AptCache {
    type V = Seq<AptPackageModel>;

    open spec fn view(&self) -> Seq<AptPackageModel> {
        Seq::new(self.packages@.len(), |i: int| self.packages@[i]@)
    }
}

impl View for InstallPlan {
    type V = Seq<VersionRef>;

    open spec fn view(&self) -> Seq<VersionRef> {
        version_refs(self.marked@)
    }
}

/// The values of a list of versions, in order.
pub open spec fn version_refs(list: Seq<AptVersion>) -> Seq<VersionRef> {
    Seq::new(list.len(), |i: int| list[i]@)
}

/// The first system package at or after index `from` that is called `name`.
pub open spec fn apt_lookup_from(
    system: Seq<AptPackageModel>,
    name: Seq<char>,
    from: int,
) -> Option<
    AptPackageModel,
>
    decreases system.len() - from,
{
    if from < 0 || from >= system.len() {
        None
    } else if system[from].name == name {
        Some(system[from])
    } else {
        apt_lookup_from(system, name, from + 1)
    }
}

/// The system package called `name`.
pub open spec fn apt_lookup(system: Seq<AptPackageModel>, name: Seq<char>) -> Option<
    AptPackageModel,
> {
    apt_lookup_from(system, name, 0)
}

/// The system package called `name`, if it is a real package: one that has
/// a candidate, and does not exist only because others provide it.
pub open spec fn apt_real(
    system: Seq<AptPackageModel>,
    name: Seq<char>,
) -> Option<AptPackageModel> {
    match apt_lookup(system, name) {
        Some(p) => if p.candidate is Some {
            Some(p)
        } else {
            None
        },
        None => None,
    }
}

impl AptPackageModel {
    /// The first `upto` own versions that the constraint admits, in order.
    pub open spec fn own_satisfying(
        self,
        order: Seq<(Seq<char>, u64)>,
        constraint: Option<ConstraintModel>,
        upto: int,
    ) -> Seq<VersionRef>
        decreases upto,
    {
        if upto <= 0 {
            Seq::empty()
        } else {
            let before = self.own_satisfying(order, constraint, upto - 1);
            if admits(order, self.versions[upto - 1], constraint) {
                before.push(VersionRef { package: self.name, version: self.versions[upto - 1] })
            } else {
                before
            }
        }
    }

    /// Whether a provider counts for the constraint: any provider where
    /// there is none, else one whose provided version meets it.
    pub open spec fn provider_counts(
        order: Seq<(Seq<char>, u64)>,
        provider: ProviderModel,
        constraint: Option<ConstraintModel>,
    ) -> bool {
        match constraint {
            None => true,
            Some(c) => match provider.provided_version {
                Some(v) => constraint_holds(order, v, c),
                None => false,
            },
        }
    }

    /// Of the first `upto` providers, those that count for the constraint.
    pub open spec fn provided_satisfying(
        self,
        order: Seq<(Seq<char>, u64)>,
        constraint: Option<ConstraintModel>,
        upto: int,
    ) -> Seq<VersionRef>
        decreases upto,
    {
        if upto <= 0 {
            Seq::empty()
        } else {
            let before = self.provided_satisfying(order, constraint, upto - 1);
            let provider = self.providers[upto - 1];
            if Self::provider_counts(order, provider, constraint) {
                before.push(VersionRef { package: provider.package, version: provider.version })
            } else {
                before
            }
        }
    }

    /// The versions that can satisfy a dependency on this package: its own
    /// versions that the constraint admits, then the versions of other
    /// packages that provide it acceptably.
    pub open spec fn versions_satisfying(
        self,
        order: Seq<(Seq<char>, u64)>,
        constraint: Option<ConstraintModel>,
    ) -> Seq<VersionRef> {
        self.own_satisfying(order, constraint, self.versions.len() as int)
            + self.provided_satisfying(order, constraint, self.providers.len() as int)
    }
}

/// The version of `package` that the plan marked last.
pub open spec fn planned_candidate(plan: Seq<VersionRef>, package: Seq<char>) -> Option<Seq<char>>
    decreases plan.len(),
{
    if plan.len() == 0 {
        None
    } else if plan.last().package == package {
        Some(plan.last().version)
    } else {
        planned_candidate(plan.drop_last(), package)
    }
}

/// The candidate of `package` once the plan is applied: the version that
/// the plan marked last, else the candidate of the snapshot.
pub open spec fn active_candidate(
    system: Seq<AptPackageModel>,
    plan: Seq<VersionRef>,
    package: Seq<char>,
) -> Option<Seq<char>> {
    match planned_candidate(plan, package) {
        Some(v) => Some(v),
        None => match apt_lookup(system, package) {
            Some(p) => p.candidate,
            None => None,
        },
    }
}

/// Whether `version` needs no action: its package is installed and the
/// version is the active candidate.
pub open spec fn installed_candidate(
    system: Seq<AptPackageModel>,
    plan: Seq<VersionRef>,
    version: VersionRef,
) -> bool {
    match apt_lookup(system, version.package) {
        Some(p) => p.installed && active_candidate(system, plan, version.package) == Some(
            version.version,
        ),
        None => false,
    }
}

/// Whether one of the first `upto` of `versions` needs no action.
pub open spec fn any_installed_candidate(
    system: Seq<AptPackageModel>,
    plan: Seq<VersionRef>,
    versions: Seq<VersionRef>,
    upto: int,
) -> bool
    decreases upto,
{
    if upto <= 0 {
        false
    } else {
        any_installed_candidate(system, plan, versions, upto - 1) || installed_candidate(
            system,
            plan,
            versions[upto - 1],
        )
    }
}

impl AptVersion {
    /// A copy of the version.
    pub fn duplicate(&self) -> (r: Self)
        ensures
            r@ == self@,
    {
        AptVersion { package: self.package.clone(), version: self.version.clone() }
    }
}

impl AptPackage {
    /// The versions that can satisfy a dependency on this package under the
    /// constraint: its own versions, then those that provide it.
    pub fn versions_satisfying(&self, order: &VersionOrder, constraint: &Option<Constraint>) -> (r:
        Vec<AptVersion>)
        ensures
            version_refs(r@) == self@.versions_satisfying(
                order@,
                opt_constraint(*constraint),
            ),
    {
        let ghost wanted = opt_constraint(*constraint);
        let mut out: Vec<AptVersion> = Vec::new();
        let mut i: usize = 0;
        while i < self.versions.len()
            invariant
                i <= self.versions.len(),
                wanted == opt_constraint(*constraint),
                version_refs(out@) == self@.own_satisfying(order@, wanted, i as int),
            decreases self.versions.len() - i,
        {
            let ghost before = version_refs(out@);
            assert(self@.versions[i as int] == self.versions@[i as int]@);
            if order.admits(self.versions[i].as_str(), constraint) {
                out.push(AptVersion { package: self.name.clone(), version: self.versions[i].clone() });
                assert(version_refs(out@) =~= before.push(
                    VersionRef { package: self@.name, version: self@.versions[i as int] },
                ));
            }
            i += 1;
        }
        let ghost own = version_refs(out@);
        let mut j: usize = 0;
        while j < self.providers.len()
            invariant
                j <= self.providers.len(),
                wanted == opt_constraint(*constraint),
                version_refs(out@) == own + self@.provided_satisfying(order@, wanted, j as int),
            decreases self.providers.len() - j,
        {
            let ghost before = version_refs(out@);
            let provider = &self.providers[j];
            assert(self@.providers[j as int] == provider@);
            let counts = match constraint {
                None => true,
                Some(c) => match &provider.provided_version {
                    Some(v) => order.check_version_requirement(
                        v.as_str(),
                        c.operator,
                        c.version.as_str(),
                    ),
                    None => false,
                },
            };
            if counts {
                out.push(
                    AptVersion {
                        package: provider.package.clone(),
                        version: provider.version.clone(),
                    },
                );
                assert(version_refs(out@) =~= before.push(
                    VersionRef { package: provider@.package, version: provider@.version },
                ));
                assert(version_refs(out@) =~= own + self@.provided_satisfying(
                    order@,
                    wanted,
                    j + 1,
                ));
            }
            j += 1;
        }
        out
    }
}

impl AptCache {
    /// The system package called `name`.
    pub fn get(&self, name: &str) -> (r: Option<&AptPackage>)
        ensures
            match r {
                Some(p) => Some(p@),
                None => None,
            } == apt_lookup(self@, name@),
    {
        let mut i: usize = 0;
        while i < self.packages.len()
            invariant
                i <= self.packages.len(),
                apt_lookup(self@, name@) == apt_lookup_from(self@, name@, i as int),
            decreases self.packages.len() - i,
        {
            assert(self@[i as int] == self.packages@[i as int]@);
            if str_eq(self.packages[i].name.as_str(), name) {
                return Some(&self.packages[i]);
            }
            i += 1;
        }
        None
    }

    /// The system package called `name`, if it is a real package.
    pub fn get_real(&self, name: &str) -> (r: Option<&AptPackage>)
        ensures
            match r {
                Some(p) => Some(p@),
                None => None,
            } == apt_real(self@, name@),
    {
        match self.get(name) {
            Some(p) => if p.candidate.is_some() {
                Some(p)
            } else {
                None
            },
            None => None,
        }
    }
}

impl InstallPlan {
    /// A plan that marks nothing.
    pub fn new() -> (r: Self)
        ensures
            r@ == Seq::<VersionRef>::empty(),
    {
        let r = InstallPlan { marked: Vec::new() };
        assert(r@ =~= Seq::<VersionRef>::empty());
        r
    }

    /// Marks `version` for installation, after what is marked already.
    pub fn mark_install(&mut self, version: AptVersion)
        ensures
            final(self)@ == old(self)@.push(version@),
    {
        self.marked.push(version);
        assert(self@ =~= old(self)@.push(version@));
    }

    /// The version of `package` that the plan marked last.
    pub fn planned_candidate(&self, package: &str) -> (r: Option<&String>)
        ensures
            match r {
                Some(v) => Some(v@),
                None => None,
            } == planned_candidate(self@, package@),
    {
        let mut i: usize = self.marked.len();
        assert(self@.take(i as int) =~= self@);
        while i > 0
            invariant
                i <= self.marked.len(),
                planned_candidate(self@, package@) == planned_candidate(
                    self@.take(i as int),
                    package@,
                ),
            decreases i,
        {
            assert(self@.take(i as int).last() == self.marked@[i - 1]@);
            assert(self@.take(i as int).drop_last() =~= self@.take(i - 1));
            if str_eq(self.marked[i - 1].package.as_str(), package) {
                return Some(&self.marked[i - 1].version);
            }
            i -= 1;
        }
        None
    }

    /// Whether `version` needs no action: its package is installed and the
    /// version is the candidate once the plan is applied.
    pub fn is_installed_candidate(&self, system: &AptCache, version: &AptVersion) -> (r: bool)
        ensures
            r == installed_candidate(system@, self@, version@),
    {
        match system.get(version.package.as_str()) {
            Some(p) => {
                if !p.installed {
                    return false;
                }
                match self.planned_candidate(version.package.as_str()) {
                    Some(v) => str_eq(v.as_str(), version.version.as_str()),
                    None => match &p.candidate {
                        Some(c) => str_eq(c.as_str(), version.version.as_str()),
                        None => false,
                    },
                }
            },
            None => false,
        }
    }
}

} // verus!
