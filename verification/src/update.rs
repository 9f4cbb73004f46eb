//! What an update of the catalogs computes: which auxiliary packages need
//! a new placeholder archive, and the control file of such an archive.

use vstd::prelude::*;
use vstd::string::*;
use crate::cache::{MprPackage, PackageModel, Relation};
use crate::depend::{split_bars, spec_split_package};
use crate::text::{join, spec_join, spec_strip_prefix, str_eq, strip_prefix, texts};

verus! {

/// An operator as a control file writes it: `<` and `>` are doubled.
pub open spec fn control_operator(operator: Seq<char>) -> Seq<char> {
    if operator == "<"@ || operator == ">"@ {
        operator + operator
    } else {
        operator
    }
}

/// One alternative as a control file writes it: the name, and in
/// parentheses the operator and the version where there are any.
pub open spec fn control_segment(piece: Seq<char>) -> Seq<char> {
    let (name, operator, version) = spec_split_package(piece);
    match (operator, version) {
        (Some(op), Some(v)) => name + " ("@ + control_operator(op) + " "@ + v + ")"@,
        _ => name,
    }
}

/// A dependency expression as a control file writes it: its alternatives
/// with ` | ` between them.
pub open spec fn spec_as_control(expression: Seq<char>) -> Seq<char> {
    spec_join(
        split_bars(expression).map_values(|piece: Seq<char>| control_segment(piece)),
        " | "@,
    )
}

/// Writes a dependency expression for a control file with
/// `makedeb_srcinfo::SplitDependency::new` and `as_control`.
///
/// Trusted: the contract restates the two functions. The first cuts the
/// expression at every `|` and splits each piece as
/// `makedeb_srcinfo::SplitPackage::new` does; the second writes each piece
/// as its name, followed in parentheses by operator and version where it
/// has them, with `<` and `>` doubled, and joins the pieces with ` | `.
#[verifier::external_body]
fn as_control(expression: &str) -> (r: String)
    ensures
        r@ == spec_as_control(expression@),
{
    makedeb_srcinfo::SplitDependency::new(expression).as_control()
}

/// Of the first `upto` dependency expressions, those that are not marked
/// `p!`, in order.
pub open spec fn plain_depends(all: Seq<Seq<char>>, upto: int) -> Seq<Seq<char>>
    decreases upto,
{
    if upto <= 0 {
        Seq::empty()
    } else if spec_strip_prefix(all[upto - 1], "p!"@) is Some {
        plain_depends(all, upto - 1)
    } else {
        plain_depends(all, upto - 1).push(all[upto - 1])
    }
}

/// Of the first `upto` dependency expressions, those that are marked `p!`,
/// without the mark, in order.
pub open spec fn pre_depends(all: Seq<Seq<char>>, upto: int) -> Seq<Seq<char>>
    decreases upto,
{
    if upto <= 0 {
        Seq::empty()
    } else {
        match spec_strip_prefix(all[upto - 1], "p!"@) {
            Some(rest) => pre_depends(all, upto - 1).push(rest),
            None => pre_depends(all, upto - 1),
        }
    }
}

/// A field of a control file that lists dependency expressions, with `, `
/// between them; nothing where there is none to list.
pub open spec fn control_field(label: Seq<char>, expressions: Seq<Seq<char>>) -> Seq<char> {
    if expressions.len() == 0 {
        Seq::empty()
    } else {
        label + spec_join(
            expressions.map_values(|e: Seq<char>| spec_as_control(e)),
            ", "@,
        ) + "\n"@
    }
}

/// The first lines of every control file.
pub open spec fn control_head(pkgname: Seq<char>, version: Seq<char>) -> Seq<char> {
    "Package: "@ + pkgname + "\nVersion: "@ + version
        + "\nArchitecture: all\nDescription: Dummy description so 'dpkg-deb' doesn't complain.\n"@
}

/// The control file of the placeholder archive of a package on a system:
/// name and version, then what the package depends on, what it depends on
/// before its installation, and what it conflicts with.
pub open spec fn spec_control_file(
    pkg: PackageModel,
    distro: Seq<char>,
    arch: Seq<char>,
) -> Seq<char> {
    let all = pkg.dep_groups(distro, arch);
    control_head(pkg.pkgname, pkg.version) + control_field(
        "Depends: "@,
        plain_depends(all, all.len() as int),
    ) + control_field("Pre-Depends: "@, pre_depends(all, all.len() as int)) + control_field(
        "Conflicts: "@,
        pkg.system_list(Relation::Conflicts, distro, arch),
    )
}

/// Writes a field of a control file.
fn write_field(label: &str, expressions: &Vec<String>) -> (r: String)
    ensures
        r@ == control_field(label@, texts(expressions@)),
{
    if expressions.len() == 0 {
        return String::new();
    }
    let mut written: Vec<String> = Vec::new();
    let mut i: usize = 0;
    while i < expressions.len()
        invariant
            i <= expressions.len(),
            written.len() == i,
            forall|k: int|
                0 <= k < i ==> (#[trigger] written@[k])@ == spec_as_control(expressions@[k]@),
        decreases expressions.len() - i,
    {
        written.push(as_control(expressions[i].as_str()));
        i += 1;
    }
    assert(texts(written@) =~= texts(expressions@).map_values(
        |e: Seq<char>| spec_as_control(e),
    ));
    label.to_owned().concat(join(&written, ", ").as_str()).concat("\n")
}

/// The control file of the placeholder archive of a package.
pub fn control_file(pkg: &MprPackage, distro: &str, arch: &str) -> (r: String)
    ensures
        r@ == spec_control_file(pkg@, distro@, arch@),
{
    let all = pkg.dep_groups(distro, arch);
    let mut depends: Vec<String> = Vec::new();
    let mut predepends: Vec<String> = Vec::new();
    let mut i: usize = 0;
    assert(texts(depends@) =~= Seq::<Seq<char>>::empty());
    assert(texts(predepends@) =~= Seq::<Seq<char>>::empty());
    while i < all.len()
        invariant
            i <= all.len(),
            texts(depends@) == plain_depends(texts(all@), i as int),
            texts(predepends@) == pre_depends(texts(all@), i as int),
        decreases all.len() - i,
    {
        assert(texts(all@)[i as int] == all@[i as int]@);
        let ghost plain_before = texts(depends@);
        let ghost pre_before = texts(predepends@);
        match strip_prefix(all[i].as_str(), "p!") {
            Some(rest) => {
                predepends.push(rest);
                assert(texts(predepends@) =~= pre_before.push(rest@));
            },
            None => {
                depends.push(all[i].clone());
                assert(texts(depends@) =~= plain_before.push(all@[i as int]@));
            },
        }
        i += 1;
    }
    let conflicts = match pkg.get_system_conflicts(distro, arch) {
        Some(list) => list,
        None => {
            let none: Vec<String> = Vec::new();
            assert(texts(none@) =~= Seq::<Seq<char>>::empty());
            none
        },
    };
    let head = "Package: ".to_owned().concat(pkg.pkgname.as_str()).concat("\nVersion: ").concat(
        pkg.version.as_str(),
    ).concat(
        "\nArchitecture: all\nDescription: Dummy description so 'dpkg-deb' doesn't complain.\n",
    );
    head.concat(write_field("Depends: ", &depends).as_str()).concat(
        write_field("Pre-Depends: ", &predepends).as_str(),
    ).concat(write_field("Conflicts: ", &conflicts).as_str())
}

/// Whether the placeholder archive of a package must be built anew.
///
/// It must where there is no archive yet, and where the control file that
/// the archive was built from names another version than the catalog does.
/// An archive without a control file is left as it is.
pub fn needs_build(deb_exists: bool, control_version: Option<&str>, version: &str) -> (r: bool)
    ensures
        r == (!deb_exists || match control_version {
            Some(v) => v@ != version@,
            None => false,
        }),
{
    if !deb_exists {
        true
    } else {
        match control_version {
            Some(v) => !str_eq(v, version),
            None => false,
        }
    }
}

} // verus!
