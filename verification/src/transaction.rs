//! What a transaction will do, for the user to review before it is run.

use vstd::prelude::*;
use vstd::string::*;
use crate::apt::{AptMarks, AptPackageModel};
use crate::cache::{apt_refs, nonvirtual, Cache};
use crate::install_util::{all_before, batch_texts};
use crate::text::{spec_split, split_on, str_chars, str_eq, texts};

verus! {

/// What happens to a package in a transaction.
#[derive(Clone, Copy, Debug, PartialEq, Eq, Structural)]
pub enum Change {
    Install,
    Remove,
    Purge,
    Upgrade,
    Downgrade,
}

/// The packages that a transaction touches, by what happens to them.
#[derive(Debug)]
pub struct Transaction {
    /// The system packages to install.
    pub apt_install: Vec<String>,
    /// The auxiliary packages to build and install.
    pub mpr_install: Vec<String>,
    pub to_remove: Vec<String>,
    /// The packages to remove along with their configuration files.
    pub to_purge: Vec<String>,
    pub to_upgrade: Vec<String>,
    pub to_downgrade: Vec<String>,
}

/// What the marks of a system package let the transaction do with it. Of
/// several marks the first counts, in the order installation, removal,
/// purge, upgrade, downgrade.
pub open spec fn spec_change(marks: AptMarks) -> Option<Change> {
    if marks.install {
        Some(Change::Install)
    } else if marks.delete {
        Some(Change::Remove)
    } else if marks.purge {
        Some(Change::Purge)
    } else if marks.upgrade {
        Some(Change::Upgrade)
    } else if marks.downgrade {
        Some(Change::Downgrade)
    } else {
        None
    }
}

/// Of the first `upto` system packages, the names of those to which
/// `change` happens.
pub open spec fn changed(
    packages: Seq<AptPackageModel>,
    change: Change,
    upto: int,
) -> Seq<Seq<char>>
    decreases upto,
{
    if upto <= 0 {
        Seq::empty()
    } else if spec_change(packages[upto - 1].marks) == Some(change) {
        changed(packages, change, upto - 1).push(packages[upto - 1].name)
    } else {
        changed(packages, change, upto - 1)
    }
}

/// What the marks of a system package let the transaction do with it.
pub fn change(marks: AptMarks) -> (r: Option<Change>)
    ensures
        r == spec_change(marks),
{
    if marks.install {
        Some(Change::Install)
    } else if marks.delete {
        Some(Change::Remove)
    } else if marks.purge {
        Some(Change::Purge)
    } else if marks.upgrade {
        Some(Change::Upgrade)
    } else if marks.downgrade {
        Some(Change::Downgrade)
    } else {
        None
    }
}

/// All names of a list of batches, batch by batch.
pub fn flatten(batches: &Vec<Vec<String>>) -> (r: Vec<String>)
    ensures
        texts(r@) == all_before(batch_texts(batches@), batches.len() as int),
{
    let mut out: Vec<String> = Vec::new();
    let mut k: usize = 0;
    assert(texts(out@) =~= Seq::<Seq<char>>::empty());
    while k < batches.len()
        invariant
            k <= batches.len(),
            texts(out@) == all_before(batch_texts(batches@), k as int),
        decreases batches.len() - k,
    {
        let ghost before = texts(out@);
        assert(batch_texts(batches@)[k as int] == texts(batches@[k as int]@));
        crate::text::append_strings(&mut out, &batches[k]);
        k += 1;
    }
    out
}

impl Transaction {
    /// Whether the transaction touches no package.
    pub fn is_empty(&self) -> (r: bool)
        ensures
            r == (self.apt_install@.len() == 0 && self.mpr_install@.len() == 0
                && self.to_remove@.len() == 0 && self.to_purge@.len() == 0
                && self.to_upgrade@.len() == 0 && self.to_downgrade@.len() == 0),
    {
        self.apt_install.len() == 0 && self.mpr_install.len() == 0 && self.to_remove.len() == 0
            && self.to_purge.len() == 0 && self.to_upgrade.len() == 0
            && self.to_downgrade.len() == 0
    }
}

/// What a transaction will do: what the engine has marked the real system
/// packages for, and the auxiliary packages of `mpr_pkgs` to install.
pub fn transaction(cache: &Cache, mpr_pkgs: &Vec<Vec<String>>) -> (r: Transaction)
    ensures
        texts(r.apt_install@) == changed(
            nonvirtual(cache.apt(), cache.apt().len() as int),
            Change::Install,
            nonvirtual(cache.apt(), cache.apt().len() as int).len() as int,
        ),
        texts(r.to_remove@) == changed(
            nonvirtual(cache.apt(), cache.apt().len() as int),
            Change::Remove,
            nonvirtual(cache.apt(), cache.apt().len() as int).len() as int,
        ),
        texts(r.to_purge@) == changed(
            nonvirtual(cache.apt(), cache.apt().len() as int),
            Change::Purge,
            nonvirtual(cache.apt(), cache.apt().len() as int).len() as int,
        ),
        texts(r.to_upgrade@) == changed(
            nonvirtual(cache.apt(), cache.apt().len() as int),
            Change::Upgrade,
            nonvirtual(cache.apt(), cache.apt().len() as int).len() as int,
        ),
        texts(r.to_downgrade@) == changed(
            nonvirtual(cache.apt(), cache.apt().len() as int),
            Change::Downgrade,
            nonvirtual(cache.apt(), cache.apt().len() as int).len() as int,
        ),
        texts(r.mpr_install@) == all_before(batch_texts(mpr_pkgs@), mpr_pkgs.len() as int),
{
    let present = Cache::get_nonvirtual_packages(cache.apt_cache());
    let ghost listed = nonvirtual(cache.apt(), cache.apt().len() as int);
    let mut apt_install: Vec<String> = Vec::new();
    let mut to_remove: Vec<String> = Vec::new();
    let mut to_purge: Vec<String> = Vec::new();
    let mut to_upgrade: Vec<String> = Vec::new();
    let mut to_downgrade: Vec<String> = Vec::new();
    assert(texts(apt_install@) =~= Seq::<Seq<char>>::empty());
    assert(texts(to_remove@) =~= Seq::<Seq<char>>::empty());
    assert(texts(to_purge@) =~= Seq::<Seq<char>>::empty());
    assert(texts(to_upgrade@) =~= Seq::<Seq<char>>::empty());
    assert(texts(to_downgrade@) =~= Seq::<Seq<char>>::empty());
    let mut i: usize = 0;
    while i < present.len()
        invariant
            i <= present.len(),
            apt_refs(present@) == listed,
            texts(apt_install@) == changed(listed, Change::Install, i as int),
            texts(to_remove@) == changed(listed, Change::Remove, i as int),
            texts(to_purge@) == changed(listed, Change::Purge, i as int),
            texts(to_upgrade@) == changed(listed, Change::Upgrade, i as int),
            texts(to_downgrade@) == changed(listed, Change::Downgrade, i as int),
        decreases present.len() - i,
    {
        let pkg = present[i];
        assert(apt_refs(present@)[i as int] == pkg@);
        let ghost b_install = texts(apt_install@);
        let ghost b_remove = texts(to_remove@);
        let ghost b_purge = texts(to_purge@);
        let ghost b_upgrade = texts(to_upgrade@);
        let ghost b_downgrade = texts(to_downgrade@);
        match change(pkg.marks) {
            Some(Change::Install) => {
                apt_install.push(pkg.name.clone());
                assert(texts(apt_install@) =~= b_install.push(pkg@.name));
            },
            Some(Change::Remove) => {
                to_remove.push(pkg.name.clone());
                assert(texts(to_remove@) =~= b_remove.push(pkg@.name));
            },
            Some(Change::Purge) => {
                to_purge.push(pkg.name.clone());
                assert(texts(to_purge@) =~= b_purge.push(pkg@.name));
            },
            Some(Change::Upgrade) => {
                to_upgrade.push(pkg.name.clone());
                assert(texts(to_upgrade@) =~= b_upgrade.push(pkg@.name));
            },
            Some(Change::Downgrade) => {
                to_downgrade.push(pkg.name.clone());
                assert(texts(to_downgrade@) =~= b_downgrade.push(pkg@.name));
            },
            None => {},
        }
        i += 1;
    }
    Transaction {
        apt_install,
        mpr_install: flatten(mpr_pkgs),
        to_remove,
        to_purge,
        to_upgrade,
        to_downgrade,
    }
}

/// A line without the carriage return that may end it.
pub open spec fn without_cr(line: Seq<char>) -> Seq<char> {
    if line.len() > 0 && line.last() == '\r' {
        line.drop_last()
    } else {
        line
    }
}

/// The first `upto` lines of a text that was cut at every line feed. A
/// carriage return before a line feed belongs to the line ending. What
/// follows the last line feed is a line unless it is empty.
pub open spec fn lines_of(pieces: Seq<Seq<char>>, upto: int) -> Seq<Seq<char>>
    decreases upto,
{
    if upto <= 0 {
        Seq::empty()
    } else if upto == pieces.len() {
        if pieces[upto - 1].len() == 0 {
            lines_of(pieces, upto - 1)
        } else {
            lines_of(pieces, upto - 1).push(pieces[upto - 1])
        }
    } else {
        lines_of(pieces, upto - 1).push(without_cr(pieces[upto - 1]))
    }
}

/// The lines of a text.
pub open spec fn spec_lines(text: Seq<char>) -> Seq<Seq<char>> {
    lines_of(spec_split(text, '\n'), spec_split(text, '\n').len() as int)
}

/// Of the first `upto` files, those that the user reviews: all but
/// `.SRCINFO`, which is made by a program.
pub open spec fn reviewed(files: Seq<Seq<char>>, upto: int) -> Seq<Seq<char>>
    decreases upto,
{
    if upto <= 0 {
        Seq::empty()
    } else if files[upto - 1] == ".SRCINFO"@ {
        reviewed(files, upto - 1)
    } else {
        reviewed(files, upto - 1).push(files[upto - 1])
    }
}

/// The lines of a text.
pub fn lines(text: &str) -> (r: Vec<String>)
    ensures
        texts(r@) == spec_lines(text@),
{
    let pieces = split_on(text, '\n');
    let mut out: Vec<String> = Vec::new();
    let mut i: usize = 0;
    assert(texts(out@) =~= Seq::<Seq<char>>::empty());
    while i < pieces.len()
        invariant
            i <= pieces.len(),
            texts(out@) == lines_of(texts(pieces@), i as int),
        decreases pieces.len() - i,
    {
        let piece = pieces[i].as_str();
        assert(texts(pieces@)[i as int] == piece@);
        let ghost before = texts(out@);
        let chars = str_chars(piece);
        if i + 1 == pieces.len() {
            if chars.len() > 0 {
                out.push(pieces[i].clone());
                assert(texts(out@) =~= before.push(piece@));
            }
        } else if chars.len() > 0 && chars[chars.len() - 1] == '\r' {
            out.push(piece.substring_char(0, chars.len() - 1).to_owned());
            assert(piece@.subrange(0, chars.len() - 1) =~= piece@.drop_last());
            assert(texts(out@) =~= before.push(without_cr(piece@)));
        } else {
            out.push(pieces[i].clone());
            assert(texts(out@) =~= before.push(without_cr(piece@)));
        }
        i += 1;
    }
    out
}

/// The files of a package base that the user reviews before it is built,
/// from the listing of the files, one to a line.
pub fn review_files(listing: &str) -> (r: Vec<String>)
    ensures
        texts(r@) == reviewed(spec_lines(listing@), spec_lines(listing@).len() as int),
{
    let files = lines(listing);
    let mut out: Vec<String> = Vec::new();
    let mut i: usize = 0;
    assert(texts(out@) =~= Seq::<Seq<char>>::empty());
    while i < files.len()
        invariant
            i <= files.len(),
            texts(out@) == reviewed(texts(files@), i as int),
        decreases files.len() - i,
    {
        assert(texts(files@)[i as int] == files@[i as int]@);
        if !str_eq(files[i].as_str(), ".SRCINFO") {
            let ghost before = texts(out@);
            out.push(files[i].clone());
            assert(texts(out@) =~= before.push(files@[i as int]@));
        }
        i += 1;
    }
    out
}

/// The path of the archive that a build leaves for a package.
pub fn deb_path(git_dir: &str, pkgname: &str, version: &str, arch: &str) -> (r: String)
    ensures
        r@ == git_dir@ + "/"@ + pkgname@ + "_"@ + version@ + "_"@ + arch@ + ".deb"@,
{
    git_dir.to_owned().concat("/").concat(pkgname).concat("_").concat(version).concat("_").concat(
        arch,
    ).concat(".deb")
}

} // verus!
