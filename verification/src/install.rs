//! What a request to install packages asks of each catalog.

use vstd::prelude::*;
use vstd::string::*;
use crate::apt::{apt_lookup, AptPackageModel};
use crate::cache::{has_package, Cache, PackageModel};
use crate::text::texts;

verus! {

/// The catalogs that list a name.
#[derive(Clone, Copy, Debug, PartialEq, Eq, Structural)]
pub enum Origin {
    /// Neither catalog lists the name.
    Unfindable,
    /// Only the system catalog lists the name.
    Apt,
    /// Only the auxiliary catalog lists the name.
    Mpr,
    /// Both catalogs list the name: the user is asked to choose.
    Both,
}

/// The packages that were asked for, sorted by the catalogs that list them.
#[derive(Debug)]
pub struct Requests {
    /// The names that no catalog lists. Where there is one, nothing is
    /// installed.
    pub unfindable: Vec<String>,
    /// The names that only the system catalog lists.
    pub apt_pkgs: Vec<String>,
    /// The names that only the auxiliary catalog lists.
    pub mpr_pkgs: Vec<String>,
    /// The names that both catalogs list.
    pub both: Vec<String>,
}

/// The catalogs that list `name`.
pub open spec fn spec_origin(
    system: Seq<AptPackageModel>,
    aux: Seq<PackageModel>,
    name: Seq<char>,
) -> Origin {
    if apt_lookup(system, name) is Some {
        if has_package(aux, name) {
            Origin::Both
        } else {
            Origin::Apt
        }
    } else if has_package(aux, name) {
        Origin::Mpr
    } else {
        Origin::Unfindable
    }
}

/// Of the first `upto` names, those of the given origin, in order.
pub open spec fn names_of_origin(
    system: Seq<AptPackageModel>,
    aux: Seq<PackageModel>,
    names: Seq<Seq<char>>,
    origin: Origin,
    upto: int,
) -> Seq<Seq<char>>
    decreases upto,
{
    if upto <= 0 {
        Seq::empty()
    } else if spec_origin(system, aux, names[upto - 1]) == origin {
        names_of_origin(system, aux, names, origin, upto - 1).push(names[upto - 1])
    } else {
        names_of_origin(system, aux, names, origin, upto - 1)
    }
}

/// The catalogs that list `name`.
pub fn origin(cache: &Cache, name: &str) -> (r: Origin)
    ensures
        r == spec_origin(cache.apt(), cache.mpr(), name@),
{
    let in_apt = cache.apt_cache().get(name).is_some();
    let in_mpr = cache.mpr_cache().contains_key(name);
    if in_apt {
        if in_mpr {
            Origin::Both
        } else {
            Origin::Apt
        }
    } else if in_mpr {
        Origin::Mpr
    } else {
        Origin::Unfindable
    }
}

/// Sorts the packages that were asked for by the catalogs that list them.
/// Every list keeps the order of the request.
pub fn install(cache: &Cache, pkglist: &Vec<String>) -> (r: Requests)
    ensures
        texts(r.unfindable@) == names_of_origin(
            cache.apt(),
            cache.mpr(),
            texts(pkglist@),
            Origin::Unfindable,
            pkglist.len() as int,
        ),
        texts(r.apt_pkgs@) == names_of_origin(
            cache.apt(),
            cache.mpr(),
            texts(pkglist@),
            Origin::Apt,
            pkglist.len() as int,
        ),
        texts(r.mpr_pkgs@) == names_of_origin(
            cache.apt(),
            cache.mpr(),
            texts(pkglist@),
            Origin::Mpr,
            pkglist.len() as int,
        ),
        texts(r.both@) == names_of_origin(
            cache.apt(),
            cache.mpr(),
            texts(pkglist@),
            Origin::Both,
            pkglist.len() as int,
        ),
{
    let mut unfindable: Vec<String> = Vec::new();
    let mut apt_pkgs: Vec<String> = Vec::new();
    let mut mpr_pkgs: Vec<String> = Vec::new();
    let mut both: Vec<String> = Vec::new();
    let ghost names = texts(pkglist@);
    let ghost system = cache.apt();
    let ghost aux = cache.mpr();
    let mut i: usize = 0;
    assert(texts(unfindable@) =~= Seq::<Seq<char>>::empty());
    assert(texts(apt_pkgs@) =~= Seq::<Seq<char>>::empty());
    assert(texts(mpr_pkgs@) =~= Seq::<Seq<char>>::empty());
    assert(texts(both@) =~= Seq::<Seq<char>>::empty());
    while i < pkglist.len()
        invariant
            i <= pkglist.len(),
            names == texts(pkglist@),
            system == cache.apt(),
            aux == cache.mpr(),
            texts(unfindable@) == names_of_origin(system, aux, names, Origin::Unfindable, i as int),
            texts(apt_pkgs@) == names_of_origin(system, aux, names, Origin::Apt, i as int),
            texts(mpr_pkgs@) == names_of_origin(system, aux, names, Origin::Mpr, i as int),
            texts(both@) == names_of_origin(system, aux, names, Origin::Both, i as int),
        decreases pkglist.len() - i,
    {
        let name = &pkglist[i];
        assert(names[i as int] == name@);
        let ghost before_unfindable = texts(unfindable@);
        let ghost before_apt = texts(apt_pkgs@);
        let ghost before_mpr = texts(mpr_pkgs@);
        let ghost before_both = texts(both@);
        match origin(cache, name.as_str()) {
            Origin::Unfindable => {
                unfindable.push(name.clone());
                assert(texts(unfindable@) =~= before_unfindable.push(name@));
            },
            Origin::Apt => {
                apt_pkgs.push(name.clone());
                assert(texts(apt_pkgs@) =~= before_apt.push(name@));
            },
            Origin::Mpr => {
                mpr_pkgs.push(name.clone());
                assert(texts(mpr_pkgs@) =~= before_mpr.push(name@));
            },
            Origin::Both => {
                both.push(name.clone());
                assert(texts(both@) =~= before_both.push(name@));
            },
        }
        i += 1;
    }
    Requests { unfindable, apt_pkgs, mpr_pkgs, both }
}

} // verus!
