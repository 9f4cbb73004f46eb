//! The packages that a listing shows.

use vstd::prelude::*;
use vstd::string::*;
use crate::apt::AptPackageModel;
use crate::cache::{apt_names, mpr_names, Cache, PackageModel};
use crate::install::{origin, spec_origin, Origin};
use crate::text::{append_strings, distinct, distinct_names, texts};

verus! {

/// Of the first `upto` names, those that a catalog lists, in order.
pub open spec fn findable(
    system: Seq<AptPackageModel>,
    aux: Seq<PackageModel>,
    names: Seq<Seq<char>>,
    upto: int,
) -> Seq<Seq<char>>
    decreases upto,
{
    if upto <= 0 {
        Seq::empty()
    } else if spec_origin(system, aux, names[upto - 1]) != Origin::Unfindable {
        findable(system, aux, names, upto - 1).push(names[upto - 1])
    } else {
        findable(system, aux, names, upto - 1)
    }
}

/// The names of both catalogs: those of the real system packages, then
/// those of the auxiliary packages.
pub open spec fn all_names(system: Seq<AptPackageModel>, aux: Seq<PackageModel>) -> Seq<Seq<char>> {
    apt_names(system) + mpr_names(aux)
}

/// The packages that a listing shows: those of the names asked for that a
/// catalog lists; or, where none is asked for, every package of both
/// catalogs, once.
pub open spec fn spec_list(
    system: Seq<AptPackageModel>,
    aux: Seq<PackageModel>,
    names: Seq<Seq<char>>,
) -> Seq<
    Seq<char>,
> {
    if names.len() > 0 {
        findable(system, aux, names, names.len() as int)
    } else {
        distinct(all_names(system, aux), all_names(system, aux).len() as int)
    }
}

/// The names of both catalogs.
pub fn names_of_both(cache: &Cache) -> (r: Vec<String>)
    ensures
        texts(r@) == all_names(cache.apt(), cache.mpr()),
{
    let mut names = cache.apt_names();
    let more = cache.mpr_names();
    append_strings(&mut names, &more);
    names
}

/// The packages that a listing shows.
pub fn list(cache: &Cache, pkglist: &Vec<String>) -> (r: Vec<String>)
    ensures
        texts(r@) == spec_list(cache.apt(), cache.mpr(), texts(pkglist@)),
{
    if pkglist.len() == 0 {
        let names = names_of_both(cache);
        return distinct_names(&names);
    }
    let mut candidates: Vec<String> = Vec::new();
    let mut i: usize = 0;
    assert(texts(candidates@) =~= Seq::<Seq<char>>::empty());
    while i < pkglist.len()
        invariant
            i <= pkglist.len(),
            texts(candidates@) == findable(cache.apt(), cache.mpr(), texts(pkglist@), i as int),
        decreases pkglist.len() - i,
    {
        assert(texts(pkglist@)[i as int] == pkglist@[i as int]@);
        match origin(cache, pkglist[i].as_str()) {
            Origin::Unfindable => {},
            _ => {
                let ghost before = texts(candidates@);
                candidates.push(pkglist[i].clone());
                assert(texts(candidates@) =~= before.push(pkglist@[i as int]@));
            },
        }
        i += 1;
    }
    candidates
}

} // verus!
