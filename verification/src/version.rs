//! The order of versions.
//!
//! A version is an opaque string. How two versions compare is decided by the
//! system's package engine, outside this library; the library is handed the
//! outcome as a [`VersionOrder`], which gives each version that it knows a
//! rank. Versions compare as their ranks do. A version without a rank
//! compares with nothing, and no constraint that names it holds.

use vstd::prelude::*;
use vstd::string::*;
use crate::depend::{opt_constraint, Constraint, ConstraintModel, Operator};
use crate::text::str_eq;

verus! {

/// A version and its rank.
#[derive(Debug)]
pub struct VersionRank {
    pub version: String,
    pub rank: u64,
}

/// The ranks of the versions that are known. Where a version is listed more
/// than once its first rank counts.
#[derive(Debug)]
pub struct VersionOrder {
    pub ranks: Vec<VersionRank>,
}

/// How one version relates to another.
#[derive(Clone, Copy, Debug, PartialEq, Eq, Structural)]
pub enum Comparison {
    Less,
    Equal,
    Greater,
}

impl View for VersionRank {
    type V = (Seq<char>, u64);

    open spec fn view(&self) -> (Seq<char>, u64) {
        (self.version@, self.rank)
    }
}

impl View for VersionOrder {
    type V = Seq<(Seq<char>, u64)>;

    open spec fn view(&self) -> Seq<(Seq<char>, u64)> {
        Seq::new(self.ranks@.len(), |i: int| self.ranks@[i]@)
    }
}

/// The rank of the first entry at or after index `from` that lists `version`.
pub open spec fn rank_from(order: Seq<(Seq<char>, u64)>, version: Seq<char>, from: int) -> Option<
    u64,
>
    decreases order.len() - from,
{
    if from < 0 || from >= order.len() {
        None
    } else if order[from].0 == version {
        Some(order[from].1)
    } else {
        rank_from(order, version, from + 1)
    }
}

/// The rank of `version`, if it is known.
pub open spec fn spec_rank(order: Seq<(Seq<char>, u64)>, version: Seq<char>) -> Option<u64> {
    rank_from(order, version, 0)
}

/// How `a` relates to `b`, if both are known.
pub open spec fn spec_compare(order: Seq<(Seq<char>, u64)>, a: Seq<char>, b: Seq<char>) -> Option<
    Comparison,
> {
    match (spec_rank(order, a), spec_rank(order, b)) {
        (Some(x), Some(y)) => Some(
            if x < y {
                Comparison::Less
            } else if x == y {
                Comparison::Equal
            } else {
                Comparison::Greater
            },
        ),
        _ => None,
    }
}

/// Whether a version that relates to the wanted one as `found` says meets
/// a constraint with this operator.
pub open spec fn satisfies(operator: Operator, found: Comparison) -> bool {
    match operator {
        Operator::StrictlyLess => found == Comparison::Less,
        Operator::LessOrEqual => found == Comparison::Less || found == Comparison::Equal,
        Operator::Equal => found == Comparison::Equal,
        Operator::GreaterOrEqual => found == Comparison::Greater || found == Comparison::Equal,
        Operator::StrictlyGreater => found == Comparison::Greater,
    }
}

/// Whether `version` meets the constraint.
pub open spec fn constraint_holds(
    order: Seq<(Seq<char>, u64)>,
    version: Seq<char>,
    constraint: ConstraintModel,
) -> bool {
    match spec_compare(order, version, constraint.version) {
        Some(found) => satisfies(constraint.operator, found),
        None => false,
    }
}

/// Whether `version` is acceptable: there is no constraint, or it holds.
pub open spec fn admits(
    order: Seq<(Seq<char>, u64)>,
    version: Seq<char>,
    constraint: Option<ConstraintModel>,
) -> bool {
    match constraint {
        Some(c) => constraint_holds(order, version, c),
        None => true,
    }
}

impl Comparison {
    /// Whether a version that relates to the wanted one as `self` says meets
    /// a constraint with this operator.
    pub fn satisfies(self, operator: Operator) -> (r: bool)
        ensures
            r == satisfies(operator, self),
    {
        match operator {
            Operator::StrictlyLess => self == Comparison::Less,
            Operator::LessOrEqual => self == Comparison::Less || self == Comparison::Equal,
            Operator::Equal => self == Comparison::Equal,
            Operator::GreaterOrEqual => self == Comparison::Greater || self == Comparison::Equal,
            Operator::StrictlyGreater => self == Comparison::Greater,
        }
    }
}

impl VersionOrder {
    /// An order that knows no version.
    pub fn new() -> (r: Self)
        ensures
            r@ == Seq::<(Seq<char>, u64)>::empty(),
    {
        let r = VersionOrder { ranks: Vec::new() };
        assert(r@ =~= Seq::<(Seq<char>, u64)>::empty());
        r
    }

    /// Lists `version` with `rank`, after what is listed already.
    pub fn push(&mut self, version: String, rank: u64)
        ensures
            final(self)@ == old(self)@.push((version@, rank)),
    {
        self.ranks.push(VersionRank { version, rank });
        assert(self@ =~= old(self)@.push((version@, rank)));
    }

    /// The rank of `version`, if it is known.
    pub fn rank(&self, version: &str) -> (r: Option<u64>)
        ensures
            r == spec_rank(self@, version@),
    {
        let mut i: usize = 0;
        while i < self.ranks.len()
            invariant
                i <= self.ranks.len(),
                spec_rank(self@, version@) == rank_from(self@, version@, i as int),
            decreases self.ranks.len() - i,
        {
            assert(self@[i as int] == self.ranks@[i as int]@);
            if str_eq(self.ranks[i].version.as_str(), version) {
                return Some(self.ranks[i].rank);
            }
            i += 1;
        }
        None
    }

    /// How `a` relates to `b`, if both are known.
    pub fn compare(&self, a: &str, b: &str) -> (r: Option<Comparison>)
        ensures
            r == spec_compare(self@, a@, b@),
    {
        match (self.rank(a), self.rank(b)) {
            (Some(x), Some(y)) => Some(
                if x < y {
                    Comparison::Less
                } else if x == y {
                    Comparison::Equal
                } else {
                    Comparison::Greater
                },
            ),
            _ => None,
        }
    }

    /// Whether `version` stands to `wanted` as `operator` asks.
    pub fn check_version_requirement(&self, version: &str, operator: Operator, wanted: &str) -> (r:
        bool)
        ensures
            r == constraint_holds(
                self@,
                version@,
                ConstraintModel { operator, version: wanted@ },
            ),
    {
        match self.compare(version, wanted) {
            Some(found) => found.satisfies(operator),
            None => false,
        }
    }

    /// Whether `version` is acceptable: there is no constraint, or it holds.
    pub fn admits(&self, version: &str, constraint: &Option<Constraint>) -> (r: bool)
        ensures
            r == admits(
                self@,
                version@,
                opt_constraint(*constraint),
            ),
    {
        match constraint {
            Some(c) => self.check_version_requirement(version, c.operator, c.version.as_str()),
            None => true,
        }
    }
}

} // verus!
