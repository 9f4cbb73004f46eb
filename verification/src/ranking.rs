//! The versions that the library compares, for the caller to have them
//! ordered.
//!
//! The system's package engine decides how versions compare. Before a
//! resolution or an upgrade the caller collects the versions in use with
//! [`versions_in_use`], sorts them as the engine compares them, says which
//! of them the engine takes for equal to the one before, and has them
//! ranked by [`rank_sorted`].

use vstd::prelude::*;
use vstd::string::*;
use crate::apt::{AptCache, AptPackageModel, AptProvider, ProviderModel};
use crate::cache::{groups, pkgs, DependencyGroupModel, MprCache, MprDependencyGroup, PackageModel};
use crate::depend::{alternatives, parse_expression, spec_expression, AlternativeModel};
use crate::text::{append_strings, texts};
use crate::upgrade::{installed_view, InstalledModel, InstalledPackage};
use crate::version::VersionOrder;

verus! {

/// The versions that the constraints of the first `upto` alternatives
/// name.
pub open spec fn alternative_versions(alts: Seq<AlternativeModel>, upto: int) -> Seq<Seq<char>>
    decreases upto,
{
    if upto <= 0 {
        Seq::empty()
    } else {
        match alts[upto - 1].constraint {
            Some(c) => alternative_versions(alts, upto - 1).push(c.version),
            None => alternative_versions(alts, upto - 1),
        }
    }
}

/// The versions that the constraints of the first `upto` dependency
/// expressions name.
pub open spec fn expression_versions(expressions: Seq<Seq<char>>, upto: int) -> Seq<Seq<char>>
    decreases upto,
{
    if upto <= 0 {
        Seq::empty()
    } else {
        let alts = spec_expression(expressions[upto - 1]);
        expression_versions(expressions, upto - 1) + alternative_versions(alts, alts.len() as int)
    }
}

/// The versions that the constraints of the first `upto` groups name.
pub open spec fn group_versions(list: Seq<DependencyGroupModel>, upto: int) -> Seq<Seq<char>>
    decreases upto,
{
    if upto <= 0 {
        Seq::empty()
    } else {
        group_versions(list, upto - 1) + expression_versions(
            list[upto - 1].packages,
            list[upto - 1].packages.len() as int,
        )
    }
}

/// The versions in use in an auxiliary package: its own, and those that
/// its dependencies and conflicts name, under every key.
pub open spec fn package_versions(p: PackageModel) -> Seq<Seq<char>> {
    seq![p.version] + group_versions(p.depends, p.depends.len() as int) + group_versions(
        p.makedepends,
        p.makedepends.len() as int,
    ) + group_versions(p.checkdepends, p.checkdepends.len() as int) + group_versions(
        p.conflicts,
        p.conflicts.len() as int,
    )
}

/// The versions in use in the first `upto` auxiliary packages.
pub open spec fn aux_versions(aux: Seq<PackageModel>, upto: int) -> Seq<Seq<char>>
    decreases upto,
{
    if upto <= 0 {
        Seq::empty()
    } else {
        aux_versions(aux, upto - 1) + package_versions(aux[upto - 1])
    }
}

/// The versions in use in the first `upto` providers: the version of each,
/// and the version that it provides where it says one.
pub open spec fn provider_versions(providers: Seq<ProviderModel>, upto: int) -> Seq<Seq<char>>
    decreases upto,
{
    if upto <= 0 {
        Seq::empty()
    } else {
        let before = provider_versions(providers, upto - 1).push(providers[upto - 1].version);
        match providers[upto - 1].provided_version {
            Some(v) => before.push(v),
            None => before,
        }
    }
}

/// The versions in use in the first `upto` system packages: their own
/// versions, and those of their providers.
pub open spec fn system_versions(system: Seq<AptPackageModel>, upto: int) -> Seq<Seq<char>>
    decreases upto,
{
    if upto <= 0 {
        Seq::empty()
    } else {
        system_versions(system, upto - 1) + system[upto - 1].versions + provider_versions(
            system[upto - 1].providers,
            system[upto - 1].providers.len() as int,
        )
    }
}

/// The versions in use: those of the system catalog, of the auxiliary
/// catalog, and of the record of installed packages, in this order and
/// with repeats.
pub open spec fn spec_versions_in_use(
    system: Seq<AptPackageModel>,
    aux: Seq<PackageModel>,
    installed: Seq<InstalledModel>,
) -> Seq<Seq<char>> {
    system_versions(system, system.len() as int) + aux_versions(aux, aux.len() as int)
        + installed.map_values(|p: InstalledModel| p.version)
}

/// Adds to `out` the versions that the constraints of the groups name.
fn add_group_versions(list: &Vec<MprDependencyGroup>, out: &mut Vec<String>)
    ensures
        texts(final(out)@) == texts(old(out)@) + group_versions(
            groups(list@),
            list.len() as int,
        ),
{
    let ghost start = texts(out@);
    let mut g: usize = 0;
    assert(texts(out@) =~= start + group_versions(groups(list@), 0));
    while g < list.len()
        invariant
            g <= list.len(),
            texts(out@) == start + group_versions(groups(list@), g as int),
        decreases list.len() - g,
    {
        let expressions = &list[g].packages;
        assert(groups(list@)[g as int].packages == texts(expressions@));
        let ghost group_start = texts(out@);
        let mut e: usize = 0;
        assert(texts(out@) =~= group_start + expression_versions(texts(expressions@), 0));
        while e < expressions.len()
            invariant
                e <= expressions.len(),
                texts(out@) == group_start + expression_versions(texts(expressions@), e as int),
            decreases expressions.len() - e,
        {
            assert(texts(expressions@)[e as int] == expressions@[e as int]@);
            let alts = parse_expression(expressions[e].as_str());
            let ghost wanted = alternatives(alts@);
            let ghost expression_start = texts(out@);
            let mut a: usize = 0;
            assert(texts(out@) =~= expression_start + alternative_versions(wanted, 0));
            while a < alts.len()
                invariant
                    a <= alts.len(),
                    wanted == alternatives(alts@),
                    texts(out@) == expression_start + alternative_versions(wanted, a as int),
                decreases alts.len() - a,
            {
                assert(wanted[a as int] == alts@[a as int]@);
                if let Some(constraint) = &alts[a].constraint {
                    let ghost before = texts(out@);
                    out.push(constraint.version.clone());
                    assert(texts(out@) =~= before.push(constraint@.version));
                    assert(texts(out@) =~= expression_start + alternative_versions(wanted, a + 1));
                }
                a += 1;
            }
            assert(texts(out@) =~= group_start + expression_versions(texts(expressions@), e + 1));
            e += 1;
        }
        assert(texts(out@) =~= start + group_versions(groups(list@), g + 1));
        g += 1;
    }
}

/// Adds to `out` the versions in use in the providers.
fn add_provider_versions(providers: &Vec<AptProvider>, out: &mut Vec<String>)
    ensures
        texts(final(out)@) == texts(old(out)@) + provider_versions(
            Seq::new(providers@.len(), |i: int| providers@[i]@),
            providers.len() as int,
        ),
{
    let ghost start = texts(out@);
    let ghost all = Seq::new(providers@.len(), |i: int| providers@[i]@);
    let mut i: usize = 0;
    assert(texts(out@) =~= start + provider_versions(all, 0));
    while i < providers.len()
        invariant
            i <= providers.len(),
            all == Seq::new(providers@.len(), |i: int| providers@[i]@),
            texts(out@) == start + provider_versions(all, i as int),
        decreases providers.len() - i,
    {
        let provider = &providers[i];
        assert(all[i as int] == provider@);
        let ghost before = texts(out@);
        out.push(provider.version.clone());
        assert(texts(out@) =~= before.push(provider@.version));
        if let Some(v) = &provider.provided_version {
            let ghost middle = texts(out@);
            out.push(v.clone());
            assert(texts(out@) =~= middle.push(v@));
        }
        assert(texts(out@) =~= start + provider_versions(all, i + 1));
        i += 1;
    }
}

/// The versions that the library may compare in a resolution or an
/// upgrade, with repeats.
pub fn versions_in_use(
    system: &AptCache,
    mpr_cache: &MprCache,
    installed: &Vec<InstalledPackage>,
) -> (r: Vec<String>)
    ensures
        texts(r@) == spec_versions_in_use(system@, mpr_cache@, installed_view(installed@)),
{
    let mut out: Vec<String> = Vec::new();
    let mut i: usize = 0;
    assert(texts(out@) =~= system_versions(system@, 0));
    while i < system.packages.len()
        invariant
            i <= system.packages.len(),
            texts(out@) == system_versions(system@, i as int),
        decreases system.packages.len() - i,
    {
        let pkg = &system.packages[i];
        assert(system@[i as int] == pkg@);
        let ghost before = texts(out@);
        append_strings(&mut out, &pkg.versions);
        add_provider_versions(&pkg.providers, &mut out);
        assert(texts(out@) =~= system_versions(system@, i + 1));
        i += 1;
    }
    let ghost from_system = texts(out@);
    let listed = mpr_cache.packages();
    let mut k: usize = 0;
    assert(texts(out@) =~= from_system + aux_versions(mpr_cache@, 0));
    while k < listed.len()
        invariant
            k <= listed.len(),
            pkgs(listed@) == mpr_cache@,
            texts(out@) == from_system + aux_versions(mpr_cache@, k as int),
        decreases listed.len() - k,
    {
        let pkg = &listed[k];
        assert(pkgs(listed@)[k as int] == pkg@);
        let ghost before = texts(out@);
        out.push(pkg.version.clone());
        assert(texts(out@) =~= before + seq![pkg@.version]);
        add_group_versions(&pkg.depends, &mut out);
        add_group_versions(&pkg.makedepends, &mut out);
        add_group_versions(&pkg.checkdepends, &mut out);
        add_group_versions(&pkg.conflicts, &mut out);
        assert(texts(out@) =~= before + package_versions(pkg@));
        assert(texts(out@) =~= from_system + aux_versions(mpr_cache@, k + 1));
        k += 1;
    }
    let ghost from_catalogs = texts(out@);
    let ghost record = installed_view(installed@);
    let mut n: usize = 0;
    while n < installed.len()
        invariant
            n <= installed.len(),
            out.len() == from_catalogs.len() + n,
            forall|j: int| 0 <= j < from_catalogs.len() ==> (#[trigger] out@[j])@ == from_catalogs[j],
            forall|j: int|
                0 <= j < n ==> (#[trigger] out@[from_catalogs.len() + j])@
                    == installed@[j].version@,
        decreases installed.len() - n,
    {
        out.push(installed[n].version.clone());
        n += 1;
    }
    assert(texts(out@) =~= from_catalogs + record.map_values(|p: InstalledModel| p.version)) by {
        let added = record.map_values(|p: InstalledModel| p.version);
        assert(added.len() == installed.len());
        assert forall|j: int| 0 <= j < out.len() implies texts(out@)[j] == (from_catalogs
            + added)[j] by {
            if j >= from_catalogs.len() {
                let t = j - from_catalogs.len();
                assert(out@[from_catalogs.len() + t]@ == installed@[t].version@);
                assert(record[t] == installed@[t]@);
            }
        }
    }
    out
}

/// The rank of the version at index `i` of a sorted list: as many as there
/// are versions up to it that are not equal to the one before them.
pub open spec fn rank_at(same_as_previous: Seq<bool>, i: int) -> int
    decreases i,
{
    if i <= 0 {
        0
    } else {
        rank_at(same_as_previous, i - 1) + if same_as_previous[i] {
            0int
        } else {
            1int
        }
    }
}

proof fn lemma_rank_bounds(same_as_previous: Seq<bool>, i: int)
    requires
        0 <= i,
    ensures
        0 <= rank_at(same_as_previous, i) <= i,
    decreases i,
{
    if i > 0 {
        lemma_rank_bounds(same_as_previous, i - 1);
    }
}

/// Ranks versions that are sorted from the lowest to the highest.
/// `same_as_previous` says of each whether it is equal to the one before
/// it; what it says of the first does not count. Equal versions get the
/// same rank, and a higher version the next rank.
pub fn rank_sorted(sorted: Vec<String>, same_as_previous: &Vec<bool>) -> (r: VersionOrder)
    requires
        same_as_previous.len() == sorted.len(),
    ensures
        r@ == Seq::new(
            sorted.len() as nat,
            |i: int| (sorted@[i]@, rank_at(same_as_previous@, i) as u64),
        ),
{
    let mut order = VersionOrder::new();
    let mut rank: u64 = 0;
    let mut i: usize = 0;
    while i < sorted.len()
        invariant
            i <= sorted.len(),
            same_as_previous.len() == sorted.len(),
            order@.len() == i,
            i > 0 ==> rank == rank_at(same_as_previous@, i - 1),
            i == 0 ==> rank == 0,
            forall|j: int|
                0 <= j < i ==> (#[trigger] order@[j]) == (
                    sorted@[j]@,
                    rank_at(same_as_previous@, j) as u64,
                ),
        decreases sorted.len() - i,
    {
        proof {
            lemma_rank_bounds(same_as_previous@, i as int);
        }
        if i > 0 && !same_as_previous[i] {
            rank = rank + 1;
        }
        order.push(sorted[i].clone(), rank);
        i += 1;
    }
    assert(order@ =~= Seq::new(
        sorted.len() as nat,
        |i: int| (sorted@[i]@, rank_at(same_as_previous@, i) as u64),
    ));
    order
}

/// In a ranking of sorted versions a later version has no lower rank, and
/// the rank rises exactly where a version is not equal to the one before.
pub proof fn law_ranks_follow_the_order(same_as_previous: Seq<bool>, i: int, j: int)
    requires
        0 <= i <= j < same_as_previous.len(),
    ensures
        rank_at(same_as_previous, i) <= rank_at(same_as_previous, j),
        rank_at(same_as_previous, i) == rank_at(same_as_previous, j) <==> forall|k: int|
            i < k <= j ==> same_as_previous[k],
    decreases j - i,
{
    if i < j {
        law_ranks_follow_the_order(same_as_previous, i, j - 1);
        if rank_at(same_as_previous, i) == rank_at(same_as_previous, j) {
            assert forall|k: int| i < k <= j implies same_as_previous[k] by {
                if k < j {
                }
            }
        }
    }
}

} // verus!
