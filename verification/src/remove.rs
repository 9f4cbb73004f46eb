//! Which system packages a removal deletes.

use vstd::prelude::*;
use vstd::string::*;
use crate::apt::{apt_lookup, AptPackageModel};
use crate::cache::{apt_refs, nonvirtual, Cache};
use crate::text::texts;

verus! {

/// What a removal does.
#[derive(Debug)]
pub struct RemovalPlan {
    /// The packages to delete: those that were asked for and are
    /// installed, then those that are no longer needed.
    pub delete: Vec<String>,
    /// The packages that were asked for and are not installed. The user is
    /// warned that they are not removed.
    pub not_installed: Vec<String>,
}

/// Of the first `upto` names, those of system packages that are installed
/// (or, for `installed` false, that are not), as the catalog writes them.
pub open spec fn asked(
    system: Seq<AptPackageModel>,
    names: Seq<Seq<char>>,
    installed: bool,
    upto: int,
) -> Seq<
    Seq<char>,
>
    decreases upto,
{
    if upto <= 0 {
        Seq::empty()
    } else {
        match apt_lookup(system, names[upto - 1]) {
            Some(p) => if p.installed == installed {
                asked(system, names, installed, upto - 1).push(p.name)
            } else {
                asked(system, names, installed, upto - 1)
            },
            None => asked(system, names, installed, upto - 1),
        }
    }
}

/// Of the first `upto` packages, the names of those that are no longer
/// needed.
pub open spec fn unneeded(packages: Seq<AptPackageModel>, upto: int) -> Seq<Seq<char>>
    decreases upto,
{
    if upto <= 0 {
        Seq::empty()
    } else if packages[upto - 1].auto_removable {
        unneeded(packages, upto - 1).push(packages[upto - 1].name)
    } else {
        unneeded(packages, upto - 1)
    }
}

/// What the removal of `pkglist` does. A name that the system catalog does
/// not list is passed over. With `autoremove` the real packages that are
/// no longer needed are deleted too.
pub fn remove(cache: &Cache, pkglist: &Vec<String>, autoremove: bool) -> (r: RemovalPlan)
    ensures
        texts(r.not_installed@) == asked(cache.apt(), texts(pkglist@), false, pkglist.len() as int),
        texts(r.delete@) == asked(cache.apt(), texts(pkglist@), true, pkglist.len() as int) + (
        if autoremove {
            unneeded(
                nonvirtual(cache.apt(), cache.apt().len() as int),
                nonvirtual(cache.apt(), cache.apt().len() as int).len() as int,
            )
        } else {
            Seq::empty()
        }),
{
    let mut delete: Vec<String> = Vec::new();
    let mut not_installed: Vec<String> = Vec::new();
    let mut i: usize = 0;
    assert(texts(delete@) =~= Seq::<Seq<char>>::empty());
    assert(texts(not_installed@) =~= Seq::<Seq<char>>::empty());
    while i < pkglist.len()
        invariant
            i <= pkglist.len(),
            texts(delete@) == asked(cache.apt(), texts(pkglist@), true, i as int),
            texts(not_installed@) == asked(cache.apt(), texts(pkglist@), false, i as int),
        decreases pkglist.len() - i,
    {
        assert(texts(pkglist@)[i as int] == pkglist@[i as int]@);
        let ghost b_delete = texts(delete@);
        let ghost b_not = texts(not_installed@);
        if let Some(pkg) = cache.apt_cache().get(pkglist[i].as_str()) {
            if pkg.installed {
                delete.push(pkg.name.clone());
                assert(texts(delete@) =~= b_delete.push(pkg@.name));
            } else {
                not_installed.push(pkg.name.clone());
                assert(texts(not_installed@) =~= b_not.push(pkg@.name));
            }
        }
        i += 1;
    }
    let ghost first = texts(delete@);
    if autoremove {
        let present = Cache::get_nonvirtual_packages(cache.apt_cache());
        let ghost listed = nonvirtual(cache.apt(), cache.apt().len() as int);
        let mut k: usize = 0;
        assert(texts(delete@) =~= first + unneeded(listed, 0));
        while k < present.len()
            invariant
                k <= present.len(),
                apt_refs(present@) == listed,
                texts(delete@) == first + unneeded(listed, k as int),
            decreases present.len() - k,
        {
            let pkg = present[k];
            assert(apt_refs(present@)[k as int] == pkg@);
            if pkg.auto_removable {
                let ghost before = texts(delete@);
                delete.push(pkg.name.clone());
                assert(texts(delete@) =~= before.push(pkg@.name));
                assert(texts(delete@) =~= first + unneeded(listed, k + 1));
            }
            k += 1;
        }
    } else {
        assert(texts(delete@) =~= first + Seq::<Seq<char>>::empty());
    }
    RemovalPlan { delete, not_installed }
}

} // verus!
