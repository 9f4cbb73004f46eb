//! Which package base a request to clone fetches.

use vstd::prelude::*;
use vstd::string::*;
use crate::cache::{pkgs, spec_lookup, Cache, PackageModel};
use crate::text::{opt_text, str_eq};

verus! {

/// Why nothing is cloned: the repository has no such package base.
#[derive(Debug)]
pub struct CloneError {
    /// The package base that builds a package of the name that was asked
    /// for, where there is one: the user probably meant it.
    pub builds_it: Option<String>,
}

/// Whether one of the first `upto` packages has the package base `base`.
pub open spec fn base_listed(aux: Seq<PackageModel>, base: Seq<char>, upto: int) -> bool
    decreases upto,
{
    if upto <= 0 {
        false
    } else {
        base_listed(aux, base, upto - 1) || aux[upto - 1].pkgbase == base
    }
}

/// Whether the repository has the package base `base`.
pub fn has_pkgbase(cache: &Cache, base: &str) -> (r: bool)
    ensures
        r == base_listed(cache.mpr(), base@, cache.mpr().len() as int),
{
    let listed = cache.mpr_cache().packages();
    let mut i: usize = 0;
    while i < listed.len()
        invariant
            i <= listed.len(),
            pkgs(listed@) == cache.mpr(),
            !base_listed(cache.mpr(), base@, i as int),
        decreases listed.len() - i,
    {
        assert(pkgs(listed@)[i as int] == listed@[i as int]@);
        if str_eq(listed[i].pkgbase.as_str(), base) {
            proof {
                lemma_base_listed(cache.mpr(), base@, i + 1, listed.len() as int);
            }
            return true;
        }
        i += 1;
    }
    false
}

proof fn lemma_base_listed(aux: Seq<PackageModel>, base: Seq<char>, upto: int, more: int)
    requires
        upto <= more,
        base_listed(aux, base, upto),
    ensures
        base_listed(aux, base, more),
    decreases more - upto,
{
    if upto < more {
        lemma_base_listed(aux, base, upto, more - 1);
    }
}

/// The address to clone the package base `pkg` from, where the repository
/// at `mpr_url` has it.
pub fn clone(cache: &Cache, pkg: &str, mpr_url: &str) -> (r: Result<String, CloneError>)
    ensures
        match r {
            Ok(url) => base_listed(cache.mpr(), pkg@, cache.mpr().len() as int) && url@ == mpr_url@
                + "/"@ + pkg@,
            Err(e) => !base_listed(cache.mpr(), pkg@, cache.mpr().len() as int) && opt_text(
                e.builds_it,
            ) == match spec_lookup(cache.mpr(), pkg@) {
                Some(p) => Some(p.pkgbase),
                None => None,
            },
        },
{
    if has_pkgbase(cache, pkg) {
        Ok(mpr_url.to_owned().concat("/").concat(pkg))
    } else {
        Err(CloneError { builds_it: cache.find_pkgbase(pkg) })
    }
}

} // verus!
