//! Dependency expressions.
//!
//! A dependency expression is a list of alternatives separated by `|`, tried
//! from left to right. An alternative names a package and may constrain its
//! version: `pkg`, `pkg>=2.0`, `pkg<3`.

use vstd::prelude::*;
use vstd::string::*;
use crate::text::{find_from, opt_text, spec_split, split_on, str_eq, texts};

verus! {

/// How a version must relate to the version that a constraint names.
#[derive(Clone, Copy, Debug, PartialEq, Eq, Structural)]
pub enum Operator {
    /// Written `<`; `<<` in a control file.
    StrictlyLess,
    /// Written `<=`.
    LessOrEqual,
    /// Written `=`.
    Equal,
    /// Written `>=`.
    GreaterOrEqual,
    /// Written `>`; `>>` in a control file.
    StrictlyGreater,
}

/// A version constraint: an operator and the version it compares against.
#[derive(Debug)]
pub struct Constraint {
    pub operator: Operator,
    pub version: String,
}

/// One alternative of a dependency expression. Without a constraint any
/// version satisfies it.
#[derive(Debug)]
pub struct Alternative {
    pub pkgname: String,
    pub constraint: Option<Constraint>,
}

/// The mathematical value of a [`Constraint`].
pub ghost struct ConstraintModel {
    pub operator: Operator,
    pub version: Seq<char>,
}

/// The mathematical value of an [`Alternative`].
pub ghost struct AlternativeModel {
    pub pkgname: Seq<char>,
    pub constraint: Option<ConstraintModel>,
}

impl View for Constraint {
    type V = ConstraintModel;

    open spec fn view(&self) -> ConstraintModel {
        ConstraintModel { operator: self.operator, version: self.version@ }
    }
}

impl View for Alternative {
    type V = AlternativeModel;

    open spec fn view(&self) -> AlternativeModel {
        AlternativeModel {
            pkgname: self.pkgname@,
            constraint: opt_constraint(self.constraint),
        }
    }
}

/// The value of an optional constraint.
pub open spec fn opt_constraint(c: Option<Constraint>) -> Option<ConstraintModel> {
    match c {
        Some(c) => Some(c@),
        None => None,
    }
}

/// The values of a list of alternatives, in order.
pub open spec fn alternatives(list: Seq<Alternative>) -> Seq<AlternativeModel> {
    Seq::new(list.len(), |i: int| list[i]@)
}

/// What stands before and after the first occurrence of `pattern` in `s`.
pub open spec fn split_once_at(s: Seq<char>, pattern: Seq<char>) -> Option<(Seq<char>, Seq<char>)> {
    let at = find_from(s, pattern, 0);
    if at < 0 {
        None
    } else {
        Some((s.subrange(0, at), s.subrange(at + pattern.len(), s.len() as int)))
    }
}

/// A package string split into name, operator and version.
///
/// The operators are looked for in the order `<=`, `>=`, `=`, `<`, `>`; the
/// string is split at the first occurrence of the first operator that it
/// holds. A string that holds none is a bare name.
pub open spec fn spec_split_package(
    s: Seq<char>,
) -> (Seq<char>, Option<Seq<char>>, Option<Seq<char>>) {
    if let Some((name, version)) = split_once_at(s, "<="@) {
        (name, Some("<="@), Some(version))
    } else if let Some((name, version)) = split_once_at(s, ">="@) {
        (name, Some(">="@), Some(version))
    } else if let Some((name, version)) = split_once_at(s, "="@) {
        (name, Some("="@), Some(version))
    } else if let Some((name, version)) = split_once_at(s, "<"@) {
        (name, Some("<"@), Some(version))
    } else if let Some((name, version)) = split_once_at(s, ">"@) {
        (name, Some(">"@), Some(version))
    } else {
        (s, None, None)
    }
}

/// Splits a package string with `makedeb_srcinfo::SplitPackage::new`.
///
/// Trusted: the contract restates that function's body, which tries the
/// operators `<=`, `>=`, `=`, `<`, `>` in this order with `str::contains` and
/// splits at the first occurrence with `str::split_once`.
#[verifier::external_body]
fn split_package(text: &str) -> (r: (String, Option<String>, Option<String>))
    ensures
        (r.0@, opt_text(r.1), opt_text(r.2)) == spec_split_package(text@),
{
    let split = makedeb_srcinfo::SplitPackage::new(text);
    (split.pkgname, split.operator, split.version)
}

/// The operator that an operator string stands for.
pub open spec fn spec_operator(op: Seq<char>) -> Operator {
    if op == "<="@ {
        Operator::LessOrEqual
    } else if op == ">="@ {
        Operator::GreaterOrEqual
    } else if op == "="@ {
        Operator::Equal
    } else if op == "<"@ {
        Operator::StrictlyLess
    } else {
        Operator::StrictlyGreater
    }
}

/// The alternative that a package string stands for.
pub open spec fn spec_alternative(s: Seq<char>) -> AlternativeModel {
    let (name, operator, version) = spec_split_package(s);
    AlternativeModel {
        pkgname: name,
        constraint: match (operator, version) {
            (Some(op), Some(v)) => Some(ConstraintModel { operator: spec_operator(op), version: v }),
            _ => None,
        },
    }
}

/// The pieces of `s` cut at every `|`. There is always at least one piece.
pub open spec fn split_bars(s: Seq<char>) -> Seq<Seq<char>> {
    spec_split(s, '|')
}

/// The alternatives of a dependency expression, in order.
pub open spec fn spec_expression(s: Seq<char>) -> Seq<AlternativeModel> {
    split_bars(s).map_values(|piece: Seq<char>| spec_alternative(piece))
}

/// The package names of the alternatives of a dependency expression.
pub open spec fn spec_expression_names(s: Seq<char>) -> Seq<Seq<char>> {
    spec_expression(s).map_values(|a: AlternativeModel| a.pkgname)
}

impl Operator {
    /// The operator that an operator string of a package string stands for.
    pub fn from_text(op: &str) -> (r: Operator)
        ensures
            r == spec_operator(op@),
    {
        if str_eq(op, "<=") {
            Operator::LessOrEqual
        } else if str_eq(op, ">=") {
            Operator::GreaterOrEqual
        } else if str_eq(op, "=") {
            Operator::Equal
        } else if str_eq(op, "<") {
            Operator::StrictlyLess
        } else {
            Operator::StrictlyGreater
        }
    }
}

impl Alternative {
    /// Parses one alternative, such as `pkg` or `pkg>=2.0`.
    pub fn parse(text: &str) -> (r: Alternative)
        ensures
            r@ == spec_alternative(text@),
    {
        let (pkgname, operator, version) = split_package(text);
        let constraint = match (operator, version) {
            (Some(op), Some(v)) => Some(
                Constraint { operator: Operator::from_text(op.as_str()), version: v },
            ),
            _ => None,
        };
        Alternative { pkgname, constraint }
    }
}

/// Cuts a dependency expression at every `|`.
pub fn split_alternatives(expression: &str) -> (r: Vec<String>)
    ensures
        texts(r@) == split_bars(expression@),
{
    split_on(expression, '|')
}

/// Parses a dependency expression into its alternatives.
pub fn parse_expression(expression: &str) -> (r: Vec<Alternative>)
    ensures
        alternatives(r@) == spec_expression(expression@),
{
    let pieces = split_alternatives(expression);
    let mut out: Vec<Alternative> = Vec::new();
    let mut i: usize = 0;
    while i < pieces.len()
        invariant
            i <= pieces.len(),
            out.len() == i,
            forall|j: int| 0 <= j < i ==> out@[j]@ == spec_alternative(pieces@[j]@),
        decreases pieces.len() - i,
    {
        out.push(Alternative::parse(pieces[i].as_str()));
        i += 1;
    }
    assert(alternatives(out@) =~= spec_expression(expression@));
    out
}

} // verus!
