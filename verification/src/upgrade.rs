//! Which packages an upgrade brings up to date.

use vstd::prelude::*;
use vstd::string::*;
use crate::apt::AptPackageModel;
use crate::cache::{apt_refs, nonvirtual, spec_lookup, Cache, PackageModel};
use crate::text::{str_eq, texts};
use crate::version::{spec_compare, Comparison, VersionOrder};

verus! {

/// A package as the system's record of installed packages lists it.
#[derive(Debug)]
pub struct InstalledPackage {
    pub name: String,
    pub version: String,
    /// Whether the package was built from the auxiliary catalog.
    pub mpr_package: bool,
}

/// The mathematical value of an [`InstalledPackage`].
pub ghost struct InstalledModel {
    pub name: Seq<char>,
    pub version: Seq<char>,
    pub mpr_package: bool,
}

impl View for InstalledPackage {
    type V = InstalledModel;

    open spec fn view(&self) -> InstalledModel {
        InstalledModel { name: self.name@, version: self.version@, mpr_package: self.mpr_package }
    }
}

/// The values of a list of installed packages, in order.
pub open spec fn installed_view(list: Seq<InstalledPackage>) -> Seq<InstalledModel> {
    Seq::new(list.len(), |i: int| list[i]@)
}

/// What an upgrade does with a package.
#[derive(Clone, Copy, Debug, PartialEq, Eq, Structural)]
pub enum UpgradeAction {
    /// The system's engine installs the newer version.
    Apt,
    /// The package is built anew from the auxiliary catalog.
    Mpr,
    /// The package stays as it is.
    Stay,
}

/// The packages that an upgrade brings up to date.
#[derive(Debug)]
pub struct UpgradePlan {
    /// The packages that the system's engine upgrades.
    pub apt_pkgs: Vec<String>,
    /// The packages to build anew from the auxiliary catalog.
    pub mpr_pkgs: Vec<String>,
}

/// The last of the first `upto` installed packages that is called `name`.
pub open spec fn installed_entry(
    installed: Seq<InstalledModel>,
    name: Seq<char>,
    upto: int,
) -> Option<
    InstalledModel,
>
    decreases upto,
{
    if upto <= 0 {
        None
    } else if installed[upto - 1].name == name {
        Some(installed[upto - 1])
    } else {
        installed_entry(installed, name, upto - 1)
    }
}

/// What an upgrade does with a real system package.
///
/// A package that was not built from the auxiliary catalog is upgraded by
/// the system's engine where a newer version can be installed, unless only
/// the auxiliary catalog is upgraded. A package that was built from the
/// auxiliary catalog is built anew where the catalog lists a version above
/// the installed one, unless only the system catalog is upgraded. A package
/// that the record of installed packages does not list stays.
pub open spec fn spec_upgrade_action(
    aux: Seq<PackageModel>,
    order: Seq<(Seq<char>, u64)>,
    installed: Seq<InstalledModel>,
    apt_only: bool,
    mpr_only: bool,
    pkg: AptPackageModel,
) -> UpgradeAction {
    match installed_entry(installed, pkg.name, installed.len() as int) {
        None => UpgradeAction::Stay,
        Some(entry) => if !mpr_only && pkg.upgradable && !entry.mpr_package {
            UpgradeAction::Apt
        } else if !apt_only && entry.mpr_package {
            match spec_lookup(aux, pkg.name) {
                Some(listed) => if spec_compare(order, entry.version, listed.version) == Some(
                    Comparison::Less,
                ) {
                    UpgradeAction::Mpr
                } else {
                    UpgradeAction::Stay
                },
                None => UpgradeAction::Stay,
            }
        } else {
            UpgradeAction::Stay
        },
    }
}

/// Of the first `upto` packages, the names of those with which an upgrade
/// does `action`.
pub open spec fn upgraded(
    aux: Seq<PackageModel>,
    order: Seq<(Seq<char>, u64)>,
    installed: Seq<InstalledModel>,
    apt_only: bool,
    mpr_only: bool,
    packages: Seq<AptPackageModel>,
    action: UpgradeAction,
    upto: int,
) -> Seq<Seq<char>>
    decreases upto,
{
    if upto <= 0 {
        Seq::empty()
    } else if spec_upgrade_action(aux, order, installed, apt_only, mpr_only, packages[upto - 1])
        == action {
        upgraded(aux, order, installed, apt_only, mpr_only, packages, action, upto - 1).push(
            packages[upto - 1].name,
        )
    } else {
        upgraded(aux, order, installed, apt_only, mpr_only, packages, action, upto - 1)
    }
}

/// The last installed package that is called `name`.
pub fn find_installed<'a>(installed: &'a Vec<InstalledPackage>, name: &str) -> (r: Option<
    &'a InstalledPackage,
>)
    ensures
        match r {
            Some(e) => Some(e@),
            None => None,
        } == installed_entry(installed_view(installed@), name@, installed.len() as int),
{
    let mut i: usize = installed.len();
    while i > 0
        invariant
            i <= installed.len(),
            installed_entry(installed_view(installed@), name@, installed.len() as int)
                == installed_entry(installed_view(installed@), name@, i as int),
        decreases i,
    {
        assert(installed_view(installed@)[i - 1] == installed@[i - 1]@);
        if str_eq(installed[i - 1].name.as_str(), name) {
            return Some(&installed[i - 1]);
        }
        i -= 1;
    }
    None
}

/// The packages that an upgrade brings up to date.
///
/// `installed` is the system's record of installed packages. Where it
/// lists a name more than once the last entry counts.
pub fn upgrade(
    cache: &Cache,
    versions: &VersionOrder,
    installed: &Vec<InstalledPackage>,
    apt_only: bool,
    mpr_only: bool,
) -> (r: UpgradePlan)
    ensures
        texts(r.apt_pkgs@) == upgraded(
            cache.mpr(),
            versions@,
            installed_view(installed@),
            apt_only,
            mpr_only,
            nonvirtual(cache.apt(), cache.apt().len() as int),
            UpgradeAction::Apt,
            nonvirtual(cache.apt(), cache.apt().len() as int).len() as int,
        ),
        texts(r.mpr_pkgs@) == upgraded(
            cache.mpr(),
            versions@,
            installed_view(installed@),
            apt_only,
            mpr_only,
            nonvirtual(cache.apt(), cache.apt().len() as int),
            UpgradeAction::Mpr,
            nonvirtual(cache.apt(), cache.apt().len() as int).len() as int,
        ),
{
    let present = Cache::get_nonvirtual_packages(cache.apt_cache());
    let ghost listed = nonvirtual(cache.apt(), cache.apt().len() as int);
    let ghost record = installed_view(installed@);
    let mut apt_pkgs: Vec<String> = Vec::new();
    let mut mpr_pkgs: Vec<String> = Vec::new();
    assert(texts(apt_pkgs@) =~= Seq::<Seq<char>>::empty());
    assert(texts(mpr_pkgs@) =~= Seq::<Seq<char>>::empty());
    let mut i: usize = 0;
    while i < present.len()
        invariant
            i <= present.len(),
            apt_refs(present@) == listed,
            record == installed_view(installed@),
            texts(apt_pkgs@) == upgraded(
                cache.mpr(),
                versions@,
                record,
                apt_only,
                mpr_only,
                listed,
                UpgradeAction::Apt,
                i as int,
            ),
            texts(mpr_pkgs@) == upgraded(
                cache.mpr(),
                versions@,
                record,
                apt_only,
                mpr_only,
                listed,
                UpgradeAction::Mpr,
                i as int,
            ),
        decreases present.len() - i,
    {
        let pkg = present[i];
        assert(apt_refs(present@)[i as int] == pkg@);
        let ghost b_apt = texts(apt_pkgs@);
        let ghost b_mpr = texts(mpr_pkgs@);
        let action = match find_installed(installed, pkg.name.as_str()) {
            None => UpgradeAction::Stay,
            Some(entry) => {
                if !mpr_only && pkg.upgradable && !entry.mpr_package {
                    UpgradeAction::Apt
                } else if !apt_only && entry.mpr_package {
                    match cache.mpr_cache().get(pkg.name.as_str()) {
                        Some(found) => match versions.compare(
                            entry.version.as_str(),
                            found.version.as_str(),
                        ) {
                            Some(Comparison::Less) => UpgradeAction::Mpr,
                            _ => UpgradeAction::Stay,
                        },
                        None => UpgradeAction::Stay,
                    }
                } else {
                    UpgradeAction::Stay
                }
            },
        };
        assert(action == spec_upgrade_action(
            cache.mpr(),
            versions@,
            record,
            apt_only,
            mpr_only,
            pkg@,
        ));
        match action {
            UpgradeAction::Apt => {
                apt_pkgs.push(pkg.name.clone());
                assert(texts(apt_pkgs@) =~= b_apt.push(pkg@.name));
            },
            UpgradeAction::Mpr => {
                mpr_pkgs.push(pkg.name.clone());
                assert(texts(mpr_pkgs@) =~= b_mpr.push(pkg@.name));
            },
            UpgradeAction::Stay => {},
        }
        i += 1;
    }
    UpgradePlan { apt_pkgs, mpr_pkgs }
}

} // verus!
