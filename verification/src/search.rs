//! The packages that a search finds.

use vstd::prelude::*;
use vstd::string::*;
use crate::apt::AptPackageModel;
use crate::cache::{apt_refs, nonvirtual, pkgs, Cache, PackageModel};
use crate::text::{contains_text, distinct, distinct_names, opt_text, spec_contains_text, texts};

verus! {

/// Whether a package answers a query: its name or its description holds
/// the query. A package without a description has an empty one.
pub open spec fn answers(
    name: Seq<char>,
    description: Option<Seq<char>>,
    query: Seq<char>,
) -> bool {
    spec_contains_text(name, query) || spec_contains_text(
        match description {
            Some(d) => d,
            None => Seq::empty(),
        },
        query,
    )
}

/// Of the first `upto` system packages, the names of those that answer
/// the query.
pub open spec fn apt_hits(packages: Seq<AptPackageModel>, query: Seq<char>, upto: int) -> Seq<
    Seq<char>,
>
    decreases upto,
{
    if upto <= 0 {
        Seq::empty()
    } else if answers(packages[upto - 1].name, packages[upto - 1].description, query) {
        apt_hits(packages, query, upto - 1).push(packages[upto - 1].name)
    } else {
        apt_hits(packages, query, upto - 1)
    }
}

/// Of the first `upto` auxiliary packages, the names of those that answer
/// the query.
pub open spec fn mpr_hits(packages: Seq<PackageModel>, query: Seq<char>, upto: int) -> Seq<
    Seq<char>,
>
    decreases upto,
{
    if upto <= 0 {
        Seq::empty()
    } else if answers(packages[upto - 1].pkgname, packages[upto - 1].pkgdesc, query) {
        mpr_hits(packages, query, upto - 1).push(packages[upto - 1].pkgname)
    } else {
        mpr_hits(packages, query, upto - 1)
    }
}

/// The names that answer one query: those of the real system packages,
/// then those of the auxiliary packages.
pub open spec fn hits(
    system: Seq<AptPackageModel>,
    aux: Seq<PackageModel>,
    query: Seq<char>,
) -> Seq<
    Seq<char>,
> {
    let present = nonvirtual(system, system.len() as int);
    apt_hits(present, query, present.len() as int) + mpr_hits(aux, query, aux.len() as int)
}

/// The names that answer the first `upto` queries, query by query.
pub open spec fn all_hits(
    system: Seq<AptPackageModel>,
    aux: Seq<PackageModel>,
    queries: Seq<Seq<char>>,
    upto: int,
) -> Seq<Seq<char>>
    decreases upto,
{
    if upto <= 0 {
        Seq::empty()
    } else {
        all_hits(system, aux, queries, upto - 1) + hits(system, aux, queries[upto - 1])
    }
}

/// The packages that a search finds: every package that answers one of the
/// queries, once, in the order in which the queries find them.
pub open spec fn spec_search(
    system: Seq<AptPackageModel>,
    aux: Seq<PackageModel>,
    queries: Seq<Seq<char>>,
) -> Seq<
    Seq<char>,
> {
    let found = all_hits(system, aux, queries, queries.len() as int);
    distinct(found, found.len() as int)
}

/// Whether a package answers a query.
pub fn answers_query(name: &str, description: &Option<String>, query: &str) -> (r: bool)
    ensures
        r == answers(name@, opt_text(*description), query@),
{
    proof {
        reveal_strlit("");
        assert(""@ =~= Seq::<char>::empty());
    }
    contains_text(name, query) || match description {
        Some(d) => contains_text(d.as_str(), query),
        None => contains_text("", query),
    }
}

/// Adds to `found` the names that answer one query.
fn add_hits(cache: &Cache, query: &str, found: &mut Vec<String>)
    ensures
        texts(final(found)@) == texts(old(found)@) + hits(cache.apt(), cache.mpr(), query@),
{
    let ghost start = texts(found@);
    let present = Cache::get_nonvirtual_packages(cache.apt_cache());
    let ghost listed = nonvirtual(cache.apt(), cache.apt().len() as int);
    let mut i: usize = 0;
    assert(texts(found@) =~= start + apt_hits(listed, query@, 0));
    while i < present.len()
        invariant
            i <= present.len(),
            apt_refs(present@) == listed,
            texts(found@) == start + apt_hits(listed, query@, i as int),
        decreases present.len() - i,
    {
        let pkg = present[i];
        assert(apt_refs(present@)[i as int] == pkg@);
        if answers_query(pkg.name.as_str(), &pkg.description, query) {
            let ghost before = texts(found@);
            found.push(pkg.name.clone());
            assert(texts(found@) =~= before.push(pkg@.name));
            assert(texts(found@) =~= start + apt_hits(listed, query@, i + 1));
        }
        i += 1;
    }
    let ghost middle = texts(found@);
    let aux = cache.mpr_cache().packages();
    let mut k: usize = 0;
    assert(texts(found@) =~= middle + mpr_hits(cache.mpr(), query@, 0));
    while k < aux.len()
        invariant
            k <= aux.len(),
            pkgs(aux@) == cache.mpr(),
            texts(found@) == middle + mpr_hits(cache.mpr(), query@, k as int),
        decreases aux.len() - k,
    {
        let pkg = &aux[k];
        assert(pkgs(aux@)[k as int] == pkg@);
        if answers_query(pkg.pkgname.as_str(), &pkg.pkgdesc, query) {
            let ghost before = texts(found@);
            found.push(pkg.pkgname.clone());
            assert(texts(found@) =~= before.push(pkg@.pkgname));
            assert(texts(found@) =~= middle + mpr_hits(cache.mpr(), query@, k + 1));
        }
        k += 1;
    }
    assert(texts(found@) =~= start + hits(cache.apt(), cache.mpr(), query@));
}

/// The packages that a search finds.
pub fn search(cache: &Cache, query_list: &Vec<String>) -> (r: Vec<String>)
    ensures
        texts(r@) == spec_search(cache.apt(), cache.mpr(), texts(query_list@)),
{
    let mut found: Vec<String> = Vec::new();
    let mut i: usize = 0;
    assert(texts(found@) =~= Seq::<Seq<char>>::empty());
    while i < query_list.len()
        invariant
            i <= query_list.len(),
            texts(found@) == all_hits(cache.apt(), cache.mpr(), texts(query_list@), i as int),
        decreases query_list.len() - i,
    {
        assert(texts(query_list@)[i as int] == query_list@[i as int]@);
        add_hits(cache, query_list[i].as_str(), &mut found);
        i += 1;
    }
    distinct_names(&found)
}

} // verus!
