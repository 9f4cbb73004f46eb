//! What is shown of a package, and which packages are shown.

use vstd::prelude::*;
use vstd::string::*;
use crate::apt::{apt_lookup, AptPackageModel};
use crate::cache::{spec_lookup, Cache, PackageModel};
use crate::date::{utc_date, utc_day};
use crate::text::{clone_opt, join, opt_text, spec_join, texts};

verus! {

/// A colour, by its red, green and blue parts.
#[derive(Clone, Copy, Debug, PartialEq, Eq, Structural)]
pub struct Rgb {
    pub r: u8,
    pub g: u8,
    pub b: u8,
}

/// The colour of package names.
pub fn ubuntu_orange() -> (c: Rgb)
    ensures
        c == (Rgb { r: 255, g: 175, b: 0 }),
{
    Rgb { r: 255, g: 175, b: 0 }
}

/// The colour of catalog names.
pub fn ubuntu_purple() -> (c: Rgb)
    ensures
        c == (Rgb { r: 95, g: 95, b: 255 }),
{
    Rgb { r: 95, g: 95, b: 255 }
}

/// What the auxiliary catalog adds to the entry of a package.
#[derive(Debug)]
pub struct MprDetails {
    pub maintainer: Option<String>,
    pub num_votes: u32,
    /// The popularity score as the bit pattern of a single-precision number.
    pub popularity_bits: u32,
    /// The day on which the package was flagged out of date, or `N/A`.
    pub ood_date: String,
}

/// The entry of a package in a listing.
#[derive(Debug)]
pub struct PkgInfo {
    pub pkgname: String,
    pub version: String,
    pub pkgdesc: Option<String>,
    /// Whether the system catalog lists the package.
    pub in_apt: bool,
    /// What the auxiliary catalog tells, where it lists the package.
    pub mpr: Option<MprDetails>,
}

/// The mathematical value of [`MprDetails`].
pub ghost struct MprDetailsModel {
    pub maintainer: Option<Seq<char>>,
    pub num_votes: u32,
    pub popularity_bits: u32,
    pub ood_date: Seq<char>,
}

/// The mathematical value of a [`PkgInfo`].
pub ghost struct PkgInfoModel {
    pub pkgname: Seq<char>,
    pub version: Seq<char>,
    pub pkgdesc: Option<Seq<char>>,
    pub in_apt: bool,
    pub mpr: Option<MprDetailsModel>,
}

impl View for MprDetails {
    type V = MprDetailsModel;

    open spec fn view(&self) -> MprDetailsModel {
        MprDetailsModel {
            maintainer: opt_text(self.maintainer),
            num_votes: self.num_votes,
            popularity_bits: self.popularity_bits,
            ood_date: self.ood_date@,
        }
    }
}

impl View for PkgInfo {
    type V = PkgInfoModel;

    open spec fn view(&self) -> PkgInfoModel {
        PkgInfoModel {
            pkgname: self.pkgname@,
            version: self.version@,
            pkgdesc: opt_text(self.pkgdesc),
            in_apt: self.in_apt,
            mpr: match self.mpr {
                Some(d) => Some(d@),
                None => None,
            },
        }
    }
}

/// The day on which a package was flagged out of date, as it is shown:
/// `N/A` for a package that is not flagged, or whose day the calendar does
/// not reach.
pub open spec fn spec_ood_date(ood: Option<u32>) -> Seq<char> {
    match ood {
        Some(epoch) => match utc_date(epoch as int) {
            Some(day) => day,
            None => "N/A"@,
        },
        None => "N/A"@,
    }
}

/// What the auxiliary catalog adds to the entry of a package.
pub open spec fn spec_details(p: PackageModel) -> MprDetailsModel {
    MprDetailsModel {
        maintainer: p.maintainer,
        num_votes: p.num_votes,
        popularity_bits: p.popularity_bits,
        ood_date: spec_ood_date(p.ood),
    }
}

/// The entry of the package called `name`.
///
/// Version and description are those of the system package where it is
/// installed; else those of the auxiliary package where there is one; else
/// those of the system package. A system package without a candidate has
/// neither. Where none of this gives a version there is no entry.
pub open spec fn spec_pkginfo(
    system: Seq<AptPackageModel>,
    aux: Seq<PackageModel>,
    name: Seq<char>,
) -> Option<
    PkgInfoModel,
> {
    let apt = apt_lookup(system, name);
    let mpr = spec_lookup(aux, name);
    let details = match mpr {
        Some(p) => Some(spec_details(p)),
        None => None,
    };
    if apt is Some && apt->0.installed && apt->0.candidate is Some {
        Some(
            PkgInfoModel {
                pkgname: name,
                version: apt->0.candidate->0,
                pkgdesc: apt->0.description,
                in_apt: true,
                mpr: details,
            },
        )
    } else if mpr is Some {
        Some(
            PkgInfoModel {
                pkgname: name,
                version: mpr->0.version,
                pkgdesc: mpr->0.pkgdesc,
                in_apt: apt is Some,
                mpr: details,
            },
        )
    } else if apt is Some && apt->0.candidate is Some {
        Some(
            PkgInfoModel {
                pkgname: name,
                version: apt->0.candidate->0,
                pkgdesc: apt->0.description,
                in_apt: true,
                mpr: details,
            },
        )
    } else {
        None
    }
}

/// The day on which a package was flagged out of date, as it is shown.
pub fn ood_date(ood: Option<u32>) -> (r: String)
    ensures
        r@ == spec_ood_date(ood),
{
    match ood {
        Some(epoch) => match utc_day(epoch as i64) {
            Some(day) => day,
            None => "N/A".to_owned(),
        },
        None => "N/A".to_owned(),
    }
}

/// The entry of the package called `pkgname`.
pub fn generate_pkginfo_entry(pkgname: &str, cache: &Cache) -> (r: Option<PkgInfo>)
    ensures
        match r {
            Some(entry) => Some(entry@),
            None => None,
        } == spec_pkginfo(cache.apt(), cache.mpr(), pkgname@),
{
    let apt = cache.apt_cache().get(pkgname);
    let mpr = cache.mpr_cache().get(pkgname);
    let details = match mpr {
        Some(p) => Some(
            MprDetails {
                maintainer: clone_opt(&p.maintainer),
                num_votes: p.num_votes,
                popularity_bits: p.popularity_bits,
                ood_date: ood_date(p.ood),
            },
        ),
        None => None,
    };
    if let Some(a) = apt {
        if a.installed {
            if let Some(version) = &a.candidate {
                return Some(
                    PkgInfo {
                        pkgname: pkgname.to_owned(),
                        version: version.clone(),
                        pkgdesc: clone_opt(&a.description),
                        in_apt: true,
                        mpr: details,
                    },
                );
            }
        }
    }
    if let Some(p) = mpr {
        return Some(
            PkgInfo {
                pkgname: pkgname.to_owned(),
                version: p.version.clone(),
                pkgdesc: clone_opt(&p.pkgdesc),
                in_apt: apt.is_some(),
                mpr: details,
            },
        );
    }
    if let Some(a) = apt {
        if let Some(version) = &a.candidate {
            return Some(
                PkgInfo {
                    pkgname: pkgname.to_owned(),
                    version: version.clone(),
                    pkgdesc: clone_opt(&a.description),
                    in_apt: true,
                    mpr: details,
                },
            );
        }
    }
    None
}

/// Whether a listing shows the package called `name`: the system catalog
/// must list it; with `mpr_only` the auxiliary catalog must list it too;
/// and with `installed_only` it must be installed.
pub open spec fn is_shown(
    system: Seq<AptPackageModel>,
    aux: Seq<PackageModel>,
    name: Seq<char>,
    mpr_only: bool,
    installed_only: bool,
) -> bool {
    match apt_lookup(system, name) {
        Some(p) => (!mpr_only || spec_lookup(aux, name) is Some) && (!installed_only || p.installed),
        None => false,
    }
}

/// Of the first `upto` names, those that a listing shows, in order.
pub open spec fn shown(
    system: Seq<AptPackageModel>,
    aux: Seq<PackageModel>,
    names: Seq<Seq<char>>,
    mpr_only: bool,
    installed_only: bool,
    upto: int,
) -> Seq<Seq<char>>
    decreases upto,
{
    if upto <= 0 {
        Seq::empty()
    } else if is_shown(system, aux, names[upto - 1], mpr_only, installed_only) {
        shown(system, aux, names, mpr_only, installed_only, upto - 1).push(names[upto - 1])
    } else {
        shown(system, aux, names, mpr_only, installed_only, upto - 1)
    }
}

/// The packages of `pkgs` that a listing shows under the given filters.
///
/// `apt_only` changes nothing: a package that the system catalog does not
/// list is never shown.
pub fn generate_pkginfo_entries(
    pkgs: &Vec<String>,
    cache: &Cache,
    apt_only: bool,
    mpr_only: bool,
    installed_only: bool,
) -> (r: Vec<String>)
    ensures
        texts(r@) == shown(
            cache.apt(),
            cache.mpr(),
            texts(pkgs@),
            mpr_only,
            installed_only,
            pkgs.len() as int,
        ),
{
    let mut matches: Vec<String> = Vec::new();
    let mut i: usize = 0;
    assert(texts(matches@) =~= Seq::<Seq<char>>::empty());
    while i < pkgs.len()
        invariant
            i <= pkgs.len(),
            texts(matches@) == shown(
                cache.apt(),
                cache.mpr(),
                texts(pkgs@),
                mpr_only,
                installed_only,
                i as int,
            ),
        decreases pkgs.len() - i,
    {
        let pkgname = pkgs[i].as_str();
        assert(texts(pkgs@)[i as int] == pkgname@);
        let apt = cache.apt_cache().get(pkgname);
        let in_mpr = cache.mpr_cache().get(pkgname).is_some();
        let skip = if apt_only && apt.is_none() {
            true
        } else if mpr_only && !in_mpr {
            true
        } else {
            match apt {
                Some(p) => installed_only && !p.installed,
                None => true,
            }
        };
        if !skip {
            let ghost before = texts(matches@);
            matches.push(pkgs[i].clone());
            assert(texts(matches@) =~= before.push(pkgname@));
        }
        i += 1;
    }
    matches
}

/// The entries of a listing as one text. Entries that are names stand one
/// below the other; full entries have a blank line between them. The text
/// ends with a line break unless there is no entry.
pub open spec fn spec_join_entries(entries: Seq<Seq<char>>, name_only: bool) -> Seq<char> {
    if entries.len() == 0 {
        Seq::empty()
    } else {
        spec_join(
            entries,
            if name_only {
                "\n"@
            } else {
                "\n\n"@
            },
        ) + "\n"@
    }
}

/// Joins the entries of a listing.
pub fn join_entries(entries: &Vec<String>, name_only: bool) -> (r: String)
    ensures
        r@ == spec_join_entries(texts(entries@), name_only),
{
    if entries.len() == 0 {
        return String::new();
    }
    let sep = if name_only {
        "\n"
    } else {
        "\n\n"
    };
    join(entries, sep).concat("\n")
}

} // verus!
