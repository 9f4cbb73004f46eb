//! The names that complete what the user has typed.

use vstd::prelude::*;
use vstd::string::*;
use crate::apt::AptPackageModel;
use crate::cache::{apt_names, mpr_names, Cache, PackageModel};
use crate::text::{append_strings, names_with_prefix, texts, with_prefix};

verus! {

/// The names that begin with `prefix`: those of the system catalog unless
/// only the auxiliary catalog is asked, then those of the auxiliary catalog
/// unless only the system catalog is asked.
pub open spec fn spec_quick_list(
    system: Seq<AptPackageModel>,
    aux: Seq<PackageModel>,
    prefix: Seq<char>,
    apt_only: bool,
    mpr_only: bool,
) -> Seq<Seq<char>> {
    (if mpr_only {
        Seq::empty()
    } else {
        with_prefix(apt_names(system), prefix, apt_names(system).len() as int)
    }) + (if apt_only {
        Seq::empty()
    } else {
        with_prefix(mpr_names(aux), prefix, mpr_names(aux).len() as int)
    })
}

/// The names of both catalogs that begin with `prefix`.
pub fn quick_list(cache: &Cache, prefix: &str, apt_only: bool, mpr_only: bool) -> (r: Vec<String>)
    ensures
        texts(r@) == spec_quick_list(cache.apt(), cache.mpr(), prefix@, apt_only, mpr_only),
{
    let mut out: Vec<String> = Vec::new();
    assert(texts(out@) =~= Seq::<Seq<char>>::empty());
    if !mpr_only {
        let names = cache.apt_names();
        let found = names_with_prefix(&names, prefix);
        append_strings(&mut out, &found);
    }
    let ghost first = texts(out@);
    if !apt_only {
        let names = cache.mpr_names();
        let found = names_with_prefix(&names, prefix);
        append_strings(&mut out, &found);
    } else {
        assert(texts(out@) =~= first + Seq::<Seq<char>>::empty());
    }
    assert(texts(out@) =~= spec_quick_list(cache.apt(), cache.mpr(), prefix@, apt_only, mpr_only));
    out
}

} // verus!
