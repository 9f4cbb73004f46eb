//! The planner: the order in which auxiliary packages are built and
//! installed.
//!
//! The packages are put into batches. Batch 0 goes first. A package stands
//! in a later batch than every other package of the plan that it depends
//! on, and in the earliest batch of which that holds.

use vstd::prelude::*;
use vstd::string::*;
use crate::cache::{all_known, has_package, spec_lookup, Cache, PackageModel, Relation};
use crate::depend::{
    alternatives, parse_expression, spec_alternative, spec_expression, spec_expression_names,
    Alternative,
};
use crate::graph::{
    edge, is_cycle, is_leveling, is_square, lemma_levels_exclude_cycles,
    lemma_same_edges_same_level, level_nodes,
};
use crate::resolve::DistroArch;
use crate::text::{contains_str, lemma_contains_add, lemma_contains_push, str_eq, texts};

verus! {

/// What the planner reads: the auxiliary catalog, and the distribution and
/// architecture of the system.
pub ghost struct Site {
    pub aux: Seq<PackageModel>,
    pub distro: Seq<char>,
    pub arch: Seq<char>,
}

/// The site that a cache and a system describe.
pub open spec fn site(cache: &Cache, host: &DistroArch) -> Site {
    Site { aux: cache.mpr(), distro: host.distro@, arch: host.arch@ }
}

/// The names that the alternatives of the first `upto` dependency
/// expressions mention.
pub open spec fn mentioned(dep_groups: Seq<Seq<char>>, upto: int) -> Seq<Seq<char>>
    decreases upto,
{
    if upto <= 0 {
        Seq::empty()
    } else {
        mentioned(dep_groups, upto - 1) + spec_expression_names(dep_groups[upto - 1])
    }
}

/// The names that the package called `name` depends on: every name that an
/// alternative of one of its dependency expressions mentions.
pub open spec fn spec_dependency_names(s: Site, name: Seq<char>) -> Seq<Seq<char>> {
    match spec_lookup(s.aux, name) {
        Some(p) => {
            let dep_groups = p.dep_groups(s.distro, s.arch);
            mentioned(dep_groups, dep_groups.len() as int)
        },
        None => Seq::empty(),
    }
}

/// The names that the package called `name` provides: those that it lists
/// as provided, and its own.
pub open spec fn spec_provided_names(s: Site, name: Seq<char>) -> Seq<Seq<char>> {
    match spec_lookup(s.aux, name) {
        Some(p) => p.system_list(Relation::Provides, s.distro, s.arch).map_values(
            |entry: Seq<char>| spec_alternative(entry).pkgname,
        ).push(name),
        None => seq![name],
    }
}

/// Whether some name of `a` is a name of `b`.
pub open spec fn spec_share_a_name(a: Seq<Seq<char>>, b: Seq<Seq<char>>) -> bool {
    exists|i: int| 0 <= i < a.len() && b.contains(#[trigger] a[i])
}

/// Whether the package called `p` depends on the other package called `q`:
/// `p` mentions a name that `q` provides.
pub open spec fn depends_on(s: Site, p: Seq<char>, q: Seq<char>) -> bool {
    p != q && spec_share_a_name(spec_dependency_names(s, p), spec_provided_names(s, q))
}

/// The names that the package called `name` depends on.
pub fn dependency_names(cache: &Cache, host: &DistroArch, name: &str) -> (r: Vec<String>)
    ensures
        texts(r@) == spec_dependency_names(site(cache, host), name@),
{
    let mut out: Vec<String> = Vec::new();
    match cache.mpr_cache().get(name) {
        None => {
            assert(texts(out@) =~= Seq::<Seq<char>>::empty());
        },
        Some(p) => {
            let dep_groups = p.dep_groups(host.distro.as_str(), host.arch.as_str());
            let mut i: usize = 0;
            assert(texts(out@) =~= Seq::<Seq<char>>::empty());
            while i < dep_groups.len()
                invariant
                    i <= dep_groups.len(),
                    texts(out@) == mentioned(texts(dep_groups@), i as int),
                decreases dep_groups.len() - i,
            {
                let ghost before = texts(out@);
                assert(texts(dep_groups@)[i as int] == dep_groups@[i as int]@);
                let alts = parse_expression(dep_groups[i].as_str());
                let ghost wanted = spec_expression_names(dep_groups@[i as int]@);
                let mut j: usize = 0;
                assert(texts(out@) =~= before + wanted.take(0));
                while j < alts.len()
                    invariant
                        j <= alts.len(),
                        alternatives(alts@) == spec_expression(dep_groups@[i as int]@),
                        wanted == spec_expression_names(dep_groups@[i as int]@),
                        texts(out@) == before + wanted.take(j as int),
                    decreases alts.len() - j,
                {
                    assert(alternatives(alts@)[j as int] == alts@[j as int]@);
                    assert(wanted.len() == alts.len());
                    assert(wanted[j as int] == alts@[j as int]@.pkgname);
                    let ghost so_far = texts(out@);
                    out.push(alts[j].pkgname.clone());
                    assert(texts(out@) =~= so_far.push(wanted[j as int]));
                    assert(wanted.take(j + 1) =~= wanted.take(j as int).push(wanted[j as int]));
                    assert(texts(out@) =~= before + wanted.take(j + 1));
                    j += 1;
                }
                assert(wanted.take(alts.len() as int) =~= wanted);
                i += 1;
            }
        },
    }
    out
}

/// The names that the package called `name` provides.
pub fn provided_names(cache: &Cache, host: &DistroArch, name: &str) -> (r: Vec<String>)
    ensures
        texts(r@) == spec_provided_names(site(cache, host), name@),
{
    let mut out: Vec<String> = Vec::new();
    match cache.mpr_cache().get(name) {
        None => {},
        Some(p) => {
            if let Some(listed) = p.get_system_provides(host.distro.as_str(), host.arch.as_str()) {
                let mut i: usize = 0;
                while i < listed.len()
                    invariant
                        i <= listed.len(),
                        out.len() == i,
                        forall|k: int|
                            0 <= k < i ==> (#[trigger] out@[k])@ == spec_alternative(
                                listed@[k]@,
                            ).pkgname,
                    decreases listed.len() - i,
                {
                    out.push(Alternative::parse(listed[i].as_str()).pkgname);
                    i += 1;
                }
                assert(texts(out@) =~= texts(listed@).map_values(
                    |entry: Seq<char>| spec_alternative(entry).pkgname,
                ));
            } else {
                assert(texts(out@) =~= Seq::<Seq<char>>::empty().map_values(
                    |entry: Seq<char>| spec_alternative(entry).pkgname,
                ));
            }
        },
    }
    let ghost before = texts(out@);
    out.push(name.to_owned());
    assert(texts(out@) =~= before.push(name@));
    out
}

/// Whether some name of `a` is a name of `b`.
pub fn share_a_name(a: &Vec<String>, b: &Vec<String>) -> (r: bool)
    ensures
        r == spec_share_a_name(texts(a@), texts(b@)),
{
    let mut i: usize = 0;
    while i < a.len()
        invariant
            i <= a.len(),
            forall|k: int| 0 <= k < i ==> !texts(b@).contains(#[trigger] texts(a@)[k]),
        decreases a.len() - i,
    {
        assert(texts(a@)[i as int] == a@[i as int]@);
        if contains_str(b, a[i].as_str()) {
            return true;
        }
        i += 1;
    }
    false
}

/// The names that each of `names` depends on, and those that each provides.
fn names_of_each(cache: &Cache, host: &DistroArch, names: &Vec<String>) -> (r: (
    Vec<Vec<String>>,
    Vec<Vec<String>>,
))
    ensures
        r.0.len() == names.len(),
        r.1.len() == names.len(),
        forall|i: int|
            0 <= i < names.len() ==> texts((#[trigger] r.0@[i])@) == spec_dependency_names(
                site(cache, host),
                names@[i]@,
            ),
        forall|i: int|
            0 <= i < names.len() ==> texts((#[trigger] r.1@[i])@) == spec_provided_names(
                site(cache, host),
                names@[i]@,
            ),
{
    let mut wanted: Vec<Vec<String>> = Vec::new();
    let mut offered: Vec<Vec<String>> = Vec::new();
    let mut i: usize = 0;
    while i < names.len()
        invariant
            i <= names.len(),
            wanted.len() == i,
            offered.len() == i,
            forall|k: int|
                0 <= k < i ==> texts((#[trigger] wanted@[k])@) == spec_dependency_names(
                    site(cache, host),
                    names@[k]@,
                ),
            forall|k: int|
                0 <= k < i ==> texts((#[trigger] offered@[k])@) == spec_provided_names(
                    site(cache, host),
                    names@[k]@,
                ),
        decreases names.len() - i,
    {
        wanted.push(dependency_names(cache, host, names[i].as_str()));
        offered.push(provided_names(cache, host, names[i].as_str()));
        i += 1;
    }
    (wanted, offered)
}

/// Whether the matrix holds, for the packages called `names`, which
/// depends on which.
pub open spec fn is_dependency_matrix(s: Site, names: Seq<Seq<char>>, adj: Seq<Vec<bool>>) -> bool {
    &&& adj.len() == names.len()
    &&& is_square(adj)
    &&& forall|i: int, j: int|
        0 <= i < names.len() && 0 <= j < names.len() ==> (#[trigger] adj[i]@[j]) == depends_on(
            s,
            names[i],
            names[j],
        )
}

/// Which of the packages called `names` depends on which, as a matrix.
pub fn dependency_matrix(cache: &Cache, host: &DistroArch, names: &Vec<String>) -> (adj: Vec<
    Vec<bool>,
>)
    ensures
        is_dependency_matrix(site(cache, host), texts(names@), adj@),
{
    let n = names.len();
    let (wanted, offered) = names_of_each(cache, host, names);
    let mut adj: Vec<Vec<bool>> = Vec::new();
    let mut i: usize = 0;
    while i < n
        invariant
            i <= n,
            n == names.len(),
            wanted.len() == n,
            offered.len() == n,
            adj.len() == i,
            forall|k: int|
                0 <= k < n ==> texts((#[trigger] wanted@[k])@) == spec_dependency_names(
                    site(cache, host),
                    names@[k]@,
                ),
            forall|k: int|
                0 <= k < n ==> texts((#[trigger] offered@[k])@) == spec_provided_names(
                    site(cache, host),
                    names@[k]@,
                ),
            forall|a: int| 0 <= a < i ==> (#[trigger] adj@[a]).len() == n,
            forall|a: int, b: int|
                0 <= a < i && 0 <= b < n ==> (#[trigger] adj@[a]@[b]) == depends_on(
                    site(cache, host),
                    names@[a]@,
                    names@[b]@,
                ),
        decreases n - i,
    {
        let mut row: Vec<bool> = Vec::new();
        let mut j: usize = 0;
        while j < n
            invariant
                j <= n,
                i < n,
                n == names.len(),
                wanted.len() == n,
                offered.len() == n,
                row.len() == j,
                texts(wanted@[i as int]@) == spec_dependency_names(
                    site(cache, host),
                    names@[i as int]@,
                ),
                forall|k: int|
                    0 <= k < n ==> texts((#[trigger] offered@[k])@) == spec_provided_names(
                        site(cache, host),
                        names@[k]@,
                    ),
                forall|b: int|
                    0 <= b < j ==> (#[trigger] row@[b]) == depends_on(
                        site(cache, host),
                        names@[i as int]@,
                        names@[b]@,
                    ),
            decreases n - j,
        {
            let other = !str_eq(names[i].as_str(), names[j].as_str());
            let depends = other && share_a_name(&wanted[i], &offered[j]);
            row.push(depends);
            j += 1;
        }
        adj.push(row);
        i += 1;
    }
    proof {
        assert(is_square(adj@));
        assert forall|a: int, b: int| 0 <= a < n && 0 <= b < n implies (#[trigger] adj@[a]@[b])
            == depends_on(site(cache, host), texts(names@)[a], texts(names@)[b]) by {
            assert(texts(names@)[a] == names@[a]@);
            assert(texts(names@)[b] == names@[b]@);
        }
    }
    adj
}

/// Why no order of installation exists.
#[derive(Debug)]
pub enum OrderError {
    /// The packages of `cycle` depend on each other in a circle: each on the
    /// next, and the last on the first.
    CyclicDependency { cycle: Vec<String> },
}

/// The character sequences of a list of batches.
pub open spec fn batch_texts(batches: Seq<Vec<String>>) -> Seq<Seq<Seq<char>>> {
    Seq::new(batches.len(), |k: int| texts(batches[k]@))
}

/// The index of the first batch at or after `from` that holds `name`, or
/// the number of batches where none does.
pub open spec fn batch_from(batches: Seq<Seq<Seq<char>>>, name: Seq<char>, from: int) -> int
    decreases batches.len() - from,
{
    if from < 0 || from >= batches.len() {
        batches.len() as int
    } else if batches[from].contains(name) {
        from
    } else {
        batch_from(batches, name, from + 1)
    }
}

/// The index of the batch of `name`: of the first batch that holds it.
pub open spec fn batch_of(batches: Seq<Seq<Seq<char>>>, name: Seq<char>) -> int {
    batch_from(batches, name, 0)
}

/// Those of the first `upto` names whose batch is batch `k`, in order.
pub open spec fn names_in_batch(
    names: Seq<Seq<char>>,
    batches: Seq<Seq<Seq<char>>>,
    k: int,
    upto: int,
) -> Seq<Seq<char>>
    decreases upto,
{
    if upto <= 0 {
        Seq::empty()
    } else if batch_of(batches, names[upto - 1]) == k {
        names_in_batch(names, batches, k, upto - 1).push(names[upto - 1])
    } else {
        names_in_batch(names, batches, k, upto - 1)
    }
}

/// Whether `batches` is the order of installation of the packages called
/// `names`.
///
/// Every name has one batch, and a batch lists the names that belong to it
/// as often and in the order in which they were asked for. A package stands
/// in a later batch than every other package of the plan that it depends
/// on, and in the earliest such batch: directly after one of them, or in
/// batch 0. There is a batch 0, and no batch after the last that is needed.
pub open spec fn is_install_order(
    s: Site,
    names: Seq<Seq<char>>,
    batches: Seq<Seq<Seq<char>>>,
) -> bool {
    &&& batches.len() >= 1
    &&& batches.len() == 1 || batches.last().len() > 0
    &&& forall|k: int|
        0 <= k < batches.len() ==> #[trigger] batches[k] == names_in_batch(
            names,
            batches,
            k,
            names.len() as int,
        )
    &&& forall|i: int|
        0 <= i < names.len() ==> 0 <= batch_of(batches, #[trigger] names[i]) < batches.len()
    &&& forall|i: int, j: int|
        0 <= i < names.len() && 0 <= j < names.len() && #[trigger] depends_on(
            s,
            names[i],
            names[j],
        ) ==> batch_of(batches, names[j]) < batch_of(batches, names[i])
    &&& forall|i: int|
        0 <= i < names.len() && batch_of(batches, #[trigger] names[i]) > 0 ==> exists|j: int|
            0 <= j < names.len() && #[trigger] depends_on(s, names[i], names[j]) && batch_of(
                batches,
                names[j],
            ) + 1 == batch_of(batches, names[i])
}

/// Whether `cycle` is a circle of dependencies among the packages called
/// `names`: each depends on the next, and the last on the first.
pub open spec fn is_dependency_cycle(
    s: Site,
    names: Seq<Seq<char>>,
    cycle: Seq<Seq<char>>,
) -> bool {
    &&& cycle.len() >= 1
    &&& forall|t: int| 0 <= t < cycle.len() ==> names.contains(#[trigger] cycle[t])
    &&& forall|t: int|
        0 <= t < cycle.len() - 1 ==> depends_on(s, #[trigger] cycle[t], cycle[t + 1])
    &&& depends_on(s, cycle[cycle.len() - 1], cycle[0])
}

/// Whether the packages called `names` depend on each other in a circle.
pub open spec fn has_dependency_cycle(s: Site, names: Seq<Seq<char>>) -> bool {
    exists|cycle: Seq<Seq<char>>| is_dependency_cycle(s, names, cycle)
}

/// Those of the first `upto` names whose level is `k`, in order.
pub open spec fn picked(names: Seq<Seq<char>>, level: Seq<usize>, k: int, upto: int) -> Seq<
    Seq<char>,
>
    decreases upto,
{
    if upto <= 0 {
        Seq::empty()
    } else if level[upto - 1] == k {
        picked(names, level, k, upto - 1).push(names[upto - 1])
    } else {
        picked(names, level, k, upto - 1)
    }
}

/// The number of levels: one more than the highest level, and one where
/// there is no node.
fn count_levels(level: &Vec<usize>) -> (r: usize)
    requires
        forall|i: int| 0 <= i < level.len() ==> (#[trigger] level@[i]) < level.len(),
    ensures
        r >= 1,
        forall|i: int| 0 <= i < level.len() ==> (#[trigger] level@[i]) < r,
        r == 1 || exists|i: int| 0 <= i < level.len() && (#[trigger] level@[i]) + 1 == r,
{
    let mut highest: usize = 0;
    let mut i: usize = 0;
    while i < level.len()
        invariant
            i <= level.len(),
            forall|k: int| 0 <= k < level.len() ==> (#[trigger] level@[k]) < level.len(),
            forall|k: int| 0 <= k < i ==> (#[trigger] level@[k]) <= highest,
            highest == 0 || exists|k: int| 0 <= k < i && (#[trigger] level@[k]) == highest,
        decreases level.len() - i,
    {
        if level[i] > highest {
            highest = level[i];
        }
        i += 1;
    }
    highest + 1
}

/// The names whose level is `k`, in order.
fn names_of_level(names: &Vec<String>, level: &Vec<usize>, k: usize) -> (r: Vec<String>)
    requires
        level.len() == names.len(),
    ensures
        texts(r@) == picked(texts(names@), level@, k as int, names.len() as int),
{
    let mut out: Vec<String> = Vec::new();
    let mut i: usize = 0;
    assert(texts(out@) =~= Seq::<Seq<char>>::empty());
    while i < names.len()
        invariant
            i <= names.len(),
            level.len() == names.len(),
            texts(out@) == picked(texts(names@), level@, k as int, i as int),
        decreases names.len() - i,
    {
        if level[i] == k {
            let ghost before = texts(out@);
            out.push(names[i].clone());
            assert(texts(names@)[i as int] == names@[i as int]@);
            assert(texts(out@) =~= before.push(texts(names@)[i as int]));
        }
        i += 1;
    }
    out
}

/// The batches that the levels give: batch `k` holds the names of level `k`.
fn batches_by_level(names: &Vec<String>, level: &Vec<usize>) -> (r: Vec<Vec<String>>)
    requires
        level.len() == names.len(),
        forall|i: int| 0 <= i < level.len() ==> (#[trigger] level@[i]) < level.len(),
    ensures
        r.len() >= 1,
        forall|i: int| 0 <= i < level.len() ==> (#[trigger] level@[i]) < r.len(),
        r.len() == 1 || exists|i: int| 0 <= i < level.len() && (#[trigger] level@[i]) + 1 == r.len(),
        forall|k: int|
            0 <= k < r.len() ==> #[trigger] batch_texts(r@)[k] == picked(
                texts(names@),
                level@,
                k,
                names.len() as int,
            ),
{
    let count = count_levels(level);
    let mut batches: Vec<Vec<String>> = Vec::new();
    let mut k: usize = 0;
    while k < count
        invariant
            k <= count,
            level.len() == names.len(),
            batches.len() == k,
            forall|b: int|
                0 <= b < k ==> texts((#[trigger] batches@[b])@) == picked(
                    texts(names@),
                    level@,
                    b,
                    names.len() as int,
                ),
        decreases count - k,
    {
        batches.push(names_of_level(names, level, k));
        k += 1;
    }
    batches
}

/// A name is picked for level `k` exactly when it stands at an index of
/// that level.
proof fn lemma_picked_contains(
    names: Seq<Seq<char>>,
    level: Seq<usize>,
    k: int,
    upto: int,
    name: Seq<char>,
)
    requires
        0 <= upto <= names.len(),
        level.len() == names.len(),
    ensures
        picked(names, level, k, upto).contains(name) <==> exists|i: int|
            0 <= i < upto && #[trigger] names[i] == name && level[i] == k,
    decreases upto,
{
    if upto > 0 {
        lemma_picked_contains(names, level, k, upto - 1, name);
        let before = picked(names, level, k, upto - 1);
        let now = picked(names, level, k, upto);
        if level[upto - 1] == k {
            assert(now == before.push(names[upto - 1]));
            if now.contains(name) {
                let at = choose|at: int| 0 <= at < now.len() && now[at] == name;
                if at < before.len() {
                    assert(before[at] == name);
                    assert(before.contains(name));
                } else {
                    assert(names[upto - 1] == name);
                }
            }
            if exists|i: int| 0 <= i < upto && #[trigger] names[i] == name && level[i] == k {
                let i = choose|i: int| 0 <= i < upto && #[trigger] names[i] == name && level[i] == k;
                if i < upto - 1 {
                    assert(before.contains(name));
                    let at = choose|at: int| 0 <= at < before.len() && before[at] == name;
                    assert(now[at] == name);
                } else {
                    assert(now[before.len() as int] == name);
                }
            }
        }
    }
}

/// Where no batch from `from` up to `at` holds the name and batch `at`
/// does, `at` is the first that holds it.
proof fn lemma_batch_from(batches: Seq<Seq<Seq<char>>>, name: Seq<char>, from: int, at: int)
    requires
        0 <= from <= at < batches.len(),
        forall|k: int| from <= k < at ==> !(#[trigger] batches[k]).contains(name),
        batches[at].contains(name),
    ensures
        batch_from(batches, name, from) == at,
    decreases at - from,
{
    if from < at {
        lemma_batch_from(batches, name, from + 1, at);
    }
}

/// What the levels of the packages called `names` are, where the order of
/// installation is made of them.
spec fn levels_of_plan(
    s: Site,
    names: Seq<Seq<char>>,
    adj: Seq<Vec<bool>>,
    level: Seq<usize>,
    batches: Seq<Seq<Seq<char>>>,
) -> bool {
    &&& is_dependency_matrix(s, names, adj)
    &&& is_leveling(adj, level)
    &&& batches.len() >= 1
    &&& forall|i: int| 0 <= i < level.len() ==> (#[trigger] level[i]) < batches.len()
    &&& batches.len() == 1 || exists|i: int|
        0 <= i < level.len() && (#[trigger] level[i]) + 1 == batches.len()
    &&& forall|k: int|
        0 <= k < batches.len() ==> #[trigger] batches[k] == picked(
            names,
            level,
            k,
            names.len() as int,
        )
}

/// Two packages of the same name have the same level.
proof fn lemma_level_by_name(
    s: Site,
    names: Seq<Seq<char>>,
    adj: Seq<Vec<bool>>,
    level: Seq<usize>,
    a: int,
    b: int,
)
    requires
        is_dependency_matrix(s, names, adj),
        is_leveling(adj, level),
        0 <= a < names.len(),
        0 <= b < names.len(),
        names[a] == names[b],
    ensures
        level[a] == level[b],
{
    assert forall|j: int| edge(adj, a, j) == edge(adj, b, j) by {
        if 0 <= j < names.len() {
            assert(adj[a]@[j] == depends_on(s, names[a], names[j]));
            assert(adj[b]@[j] == depends_on(s, names[b], names[j]));
        }
    }
    lemma_same_edges_same_level(adj, level, a, b);
}

/// The batch of a name is its level.
proof fn lemma_batch_is_level(
    s: Site,
    names: Seq<Seq<char>>,
    adj: Seq<Vec<bool>>,
    level: Seq<usize>,
    batches: Seq<Seq<Seq<char>>>,
    i: int,
)
    requires
        levels_of_plan(s, names, adj, level, batches),
        0 <= i < names.len(),
    ensures
        batch_of(batches, names[i]) == level[i],
{
    let name = names[i];
    let at = level[i] as int;
    assert forall|k: int| 0 <= k < at implies !(#[trigger] batches[k]).contains(name) by {
        lemma_picked_contains(names, level, k, names.len() as int, name);
        if batches[k].contains(name) {
            let j = choose|j: int| 0 <= j < names.len() && #[trigger] names[j] == name && level[j] == k;
            lemma_level_by_name(s, names, adj, level, i, j);
        }
    }
    lemma_picked_contains(names, level, at, names.len() as int, name);
    assert(batches[at] == picked(names, level, at, names.len() as int));
    lemma_batch_from(batches, name, 0, at);
}

/// A batch lists the names that belong to it.
proof fn lemma_names_in_batch(
    s: Site,
    names: Seq<Seq<char>>,
    adj: Seq<Vec<bool>>,
    level: Seq<usize>,
    batches: Seq<Seq<Seq<char>>>,
    k: int,
    upto: int,
)
    requires
        levels_of_plan(s, names, adj, level, batches),
        0 <= upto <= names.len(),
    ensures
        names_in_batch(names, batches, k, upto) == picked(names, level, k, upto),
    decreases upto,
{
    if upto > 0 {
        lemma_names_in_batch(s, names, adj, level, batches, k, upto - 1);
        lemma_batch_is_level(s, names, adj, level, batches, upto - 1);
    }
}

/// Batches made of the levels are the order of installation.
proof fn lemma_install_order(
    s: Site,
    names: Seq<Seq<char>>,
    adj: Seq<Vec<bool>>,
    level: Seq<usize>,
    batches: Seq<Seq<Seq<char>>>,
)
    requires
        levels_of_plan(s, names, adj, level, batches),
    ensures
        is_install_order(s, names, batches),
{
    assert forall|i: int| 0 <= i < names.len() implies batch_of(batches, #[trigger] names[i])
        == level[i] by {
        lemma_batch_is_level(s, names, adj, level, batches, i);
    }
    assert forall|k: int| 0 <= k < batches.len() implies #[trigger] batches[k] == names_in_batch(
        names,
        batches,
        k,
        names.len() as int,
    ) by {
        lemma_names_in_batch(s, names, adj, level, batches, k, names.len() as int);
    }
    if batches.len() > 1 {
        let i = choose|i: int| 0 <= i < level.len() && (#[trigger] level[i]) + 1 == batches.len();
        lemma_picked_contains(names, level, level[i] as int, names.len() as int, names[i]);
        assert(batches[level[i] as int].contains(names[i]));
    }
    assert forall|i: int, j: int|
        0 <= i < names.len() && 0 <= j < names.len() && #[trigger] depends_on(
            s,
            names[i],
            names[j],
        ) implies batch_of(batches, names[j]) < batch_of(batches, names[i]) by {
        assert(adj[i]@[j]);
        assert(edge(adj, i, j));
    }
    assert forall|i: int|
        0 <= i < names.len() && batch_of(batches, #[trigger] names[i]) > 0 implies exists|j: int|
        0 <= j < names.len() && #[trigger] depends_on(s, names[i], names[j]) && batch_of(
            batches,
            names[j],
        ) + 1 == batch_of(batches, names[i]) by {
        assert(level[i] > 0);
        let j = choose|j: int| #[trigger] edge(adj, i, j) && level[j] + 1 == level[i];
        assert(adj[i]@[j]);
        assert(depends_on(s, names[i], names[j]));
    }
}

/// Packages that have levels do not depend on each other in a circle.
proof fn lemma_levels_exclude_dependency_cycles(
    s: Site,
    names: Seq<Seq<char>>,
    adj: Seq<Vec<bool>>,
    level: Seq<usize>,
)
    requires
        is_dependency_matrix(s, names, adj),
        is_leveling(adj, level),
        names.len() <= usize::MAX,
    ensures
        !has_dependency_cycle(s, names),
{
    if has_dependency_cycle(s, names) {
        let cycle = choose|cycle: Seq<Seq<char>>| is_dependency_cycle(s, names, cycle);
        let nodes = Seq::new(
            cycle.len(),
            |t: int| (choose|i: int| 0 <= i < names.len() && names[i] == cycle[t]) as usize,
        );
        assert forall|t: int| 0 <= t < cycle.len() implies 0 <= (#[trigger] nodes[t]) < names.len()
            && names[nodes[t] as int] == cycle[t] by {
            assert(names.contains(cycle[t]));
            let i = choose|i: int| 0 <= i < names.len() && names[i] == cycle[t];
            assert(nodes[t] == i as usize);
        }
        assert forall|t: int| 0 <= t < nodes.len() - 1 implies edge(
            adj,
            #[trigger] nodes[t] as int,
            nodes[t + 1] as int,
        ) by {
            assert(depends_on(s, cycle[t], cycle[t + 1]));
            assert(0 <= nodes[t + 1] < names.len() && names[nodes[t + 1] as int] == cycle[t + 1]);
            assert(adj[nodes[t] as int]@[nodes[t + 1] as int]);
        }
        assert(edge(adj, nodes[nodes.len() - 1] as int, nodes[0] as int)) by {
            assert(0 <= nodes[0] < names.len() && names[nodes[0] as int] == cycle[0]);
            assert(0 <= nodes[nodes.len() - 1] < names.len());
            assert(adj[nodes[nodes.len() - 1] as int]@[nodes[0] as int]);
        }
        assert(is_cycle(adj, nodes));
        lemma_levels_exclude_cycles(adj, level, nodes);
    }
}

/// The names of the nodes of a cycle.
fn cycle_names(
    names: &Vec<String>,
    nodes: &Vec<usize>,
    Ghost(s): Ghost<Site>,
    Ghost(adj): Ghost<Seq<Vec<bool>>>,
) -> (r: Vec<String>)
    requires
        is_dependency_matrix(s, texts(names@), adj),
        is_cycle(adj, nodes@),
    ensures
        is_dependency_cycle(s, texts(names@), texts(r@)),
{
    let mut out: Vec<String> = Vec::new();
    let mut t: usize = 0;
    proof {
        assert forall|u: int| 0 <= u < nodes.len() implies (#[trigger] nodes@[u]) < names.len() by {
            if u < nodes.len() - 1 {
                assert(edge(adj, nodes@[u] as int, nodes@[u + 1] as int));
            }
        }
    }
    while t < nodes.len()
        invariant
            t <= nodes.len(),
            out.len() == t,
            forall|u: int| 0 <= u < nodes.len() ==> (#[trigger] nodes@[u]) < names.len(),
            forall|u: int| 0 <= u < t ==> (#[trigger] out@[u])@ == names@[nodes@[u] as int]@,
        decreases nodes.len() - t,
    {
        out.push(names[nodes[t]].clone());
        t += 1;
    }
    proof {
        let cycle = texts(out@);
        let all = texts(names@);
        assert forall|u: int| 0 <= u < cycle.len() implies #[trigger] cycle[u] == all[nodes@[u] as int] by {
            assert(cycle[u] == out@[u]@);
        }
        assert forall|u: int| 0 <= u < cycle.len() implies all.contains(#[trigger] cycle[u]) by {
            assert(all[nodes@[u] as int] == cycle[u]);
        }
        assert forall|u: int| 0 <= u < cycle.len() - 1 implies depends_on(
            s,
            #[trigger] cycle[u],
            cycle[u + 1],
        ) by {
            assert(edge(adj, nodes@[u] as int, nodes@[u + 1] as int));
            assert(adj[nodes@[u] as int]@[nodes@[u + 1] as int]);
            assert(cycle[u + 1] == all[nodes@[u + 1] as int]);
        }
        assert(depends_on(s, cycle[cycle.len() - 1], cycle[0])) by {
            assert(edge(adj, nodes@[nodes.len() - 1] as int, nodes@[0] as int));
            assert(adj[nodes@[nodes.len() - 1] as int]@[nodes@[0] as int]);
            assert(cycle[0] == all[nodes@[0] as int]);
            assert(cycle[cycle.len() - 1] == all[nodes@[nodes.len() - 1] as int]);
        }
    }
    out
}

/// Orders auxiliary packages for installation.
///
/// The result is the order of installation of `pkglist`, as
/// [`is_install_order`] defines it, where the packages do not depend on each
/// other in a circle; else it is `CyclicDependency` with such a circle.
/// `pkglist` may name a package more than once: each mention is put into
/// the batch of the package.
pub fn order_mpr_packages(cache: &Cache, host: &DistroArch, pkglist: &Vec<String>) -> (r: Result<
    Vec<Vec<String>>,
    OrderError,
>)
    requires
        all_known(cache.mpr(), texts(pkglist@)),
    ensures
        r is Ok <==> !has_dependency_cycle(site(cache, host), texts(pkglist@)),
        r matches Ok(batches) ==> forall|k: int|
            0 <= k < batches.len() ==> all_known(cache.mpr(), texts(#[trigger] batches@[k]@)),
        match r {
            Ok(batches) => is_install_order(
                site(cache, host),
                texts(pkglist@),
                batch_texts(batches@),
            ),
            Err(OrderError::CyclicDependency { cycle }) => is_dependency_cycle(
                site(cache, host),
                texts(pkglist@),
                texts(cycle@),
            ),
        },
{
    let ghost s = site(cache, host);
    let adj = dependency_matrix(cache, host, pkglist);
    match level_nodes(&adj) {
        Ok(level) => {
            let batches = batches_by_level(pkglist, &level);
            proof {
                lemma_install_order(s, texts(pkglist@), adj@, level@, batch_texts(batches@));
                lemma_levels_exclude_dependency_cycles(s, texts(pkglist@), adj@, level@);
                assert forall|k: int| 0 <= k < batches.len() implies all_known(
                    cache.mpr(),
                    texts(#[trigger] batches@[k]@),
                ) by {
                    let batch = texts(batches@[k]@);
                    assert(batch_texts(batches@)[k] == batch);
                    assert forall|t: int| 0 <= t < batch.len() implies has_package(
                        cache.mpr(),
                        #[trigger] batch[t],
                    ) by {
                        assert(batch.contains(batch[t]));
                        lemma_member_of_batch(
                            texts(pkglist@),
                            batch_texts(batches@),
                            k,
                            pkglist.len() as int,
                            batch[t],
                        );
                        let i = choose|i: int|
                            0 <= i < pkglist.len() && texts(pkglist@)[i] == batch[t];
                        assert(has_package(cache.mpr(), texts(pkglist@)[i]));
                    }
                }
            }
            Ok(batches)
        },
        Err(nodes) => {
            let cycle = cycle_names(pkglist, &nodes, Ghost(s), Ghost(adj@));
            Err(OrderError::CyclicDependency { cycle })
        },
    }
}

/// A name of batch `k` is one of the names asked for, and batch `k` is its
/// batch.
proof fn lemma_member_of_batch(
    names: Seq<Seq<char>>,
    batches: Seq<Seq<Seq<char>>>,
    k: int,
    upto: int,
    name: Seq<char>,
)
    requires
        0 <= upto <= names.len(),
        names_in_batch(names, batches, k, upto).contains(name),
    ensures
        batch_of(batches, name) == k,
        exists|i: int| 0 <= i < upto && names[i] == name,
    decreases upto,
{
    let now = names_in_batch(names, batches, k, upto);
    let before = names_in_batch(names, batches, k, upto - 1);
    let at = choose|at: int| 0 <= at < now.len() && now[at] == name;
    if upto > 0 {
        if batch_of(batches, names[upto - 1]) == k && at == before.len() {
            assert(names[upto - 1] == name);
        } else {
            assert(before[at] == name);
            lemma_member_of_batch(names, batches, k, upto - 1, name);
        }
    }
}

/// In an order of installation every package stands in a later batch than
/// each package of the plan that it depends on: never in the same batch,
/// and never in an earlier one.
pub proof fn law_dependencies_come_first(
    s: Site,
    names: Seq<Seq<char>>,
    batches: Seq<Seq<Seq<char>>>,
    i: int,
    j: int,
    package: Seq<char>,
    dependency: Seq<char>,
)
    requires
        is_install_order(s, names, batches),
        0 <= i < batches.len(),
        0 <= j < batches.len(),
        batches[i].contains(package),
        batches[j].contains(dependency),
        depends_on(s, package, dependency),
    ensures
        j < i,
{
    lemma_member_of_batch(names, batches, i, names.len() as int, package);
    lemma_member_of_batch(names, batches, j, names.len() as int, dependency);
    let a = choose|a: int| 0 <= a < names.len() && names[a] == package;
    let b = choose|b: int| 0 <= b < names.len() && names[b] == dependency;
    assert(depends_on(s, names[a], names[b]));
}

/// In one order of installation no name has a later batch than in another.
proof fn lemma_batch_not_later(
    s: Site,
    names: Seq<Seq<char>>,
    a: Seq<Seq<Seq<char>>>,
    b: Seq<Seq<Seq<char>>>,
    i: int,
)
    requires
        is_install_order(s, names, a),
        is_install_order(s, names, b),
        0 <= i < names.len(),
    ensures
        batch_of(a, names[i]) <= batch_of(b, names[i]),
    decreases batch_of(a, names[i]),
{
    if batch_of(a, names[i]) > 0 {
        let j = choose|j: int|
            0 <= j < names.len() && #[trigger] depends_on(s, names[i], names[j]) && batch_of(
                a,
                names[j],
            ) + 1 == batch_of(a, names[i]);
        assert(0 <= batch_of(a, names[j]));
        lemma_batch_not_later(s, names, a, b, j);
    }
}

/// Two orders of installation of the same packages have the same number
/// of batches, or the first has fewer.
proof fn lemma_not_more_batches(
    s: Site,
    names: Seq<Seq<char>>,
    a: Seq<Seq<Seq<char>>>,
    b: Seq<Seq<Seq<char>>>,
)
    requires
        is_install_order(s, names, a),
        is_install_order(s, names, b),
    ensures
        a.len() <= b.len(),
{
    if a.len() > 1 {
        let last = a.len() - 1;
        let name = a[last][0];
        assert(a[last].contains(name));
        lemma_member_of_batch(names, a, last, names.len() as int, name);
        let i = choose|i: int| 0 <= i < names.len() && names[i] == name;
        lemma_batch_not_later(s, names, a, b, i);
    }
}

/// Two orders of installation of the same packages list the same names
/// in batch `k`.
proof fn lemma_same_batch(
    s: Site,
    names: Seq<Seq<char>>,
    a: Seq<Seq<Seq<char>>>,
    b: Seq<Seq<Seq<char>>>,
    k: int,
    upto: int,
)
    requires
        is_install_order(s, names, a),
        is_install_order(s, names, b),
        0 <= upto <= names.len(),
    ensures
        names_in_batch(names, a, k, upto) == names_in_batch(names, b, k, upto),
    decreases upto,
{
    if upto > 0 {
        lemma_same_batch(s, names, a, b, k, upto - 1);
        lemma_batch_not_later(s, names, a, b, upto - 1);
        lemma_batch_not_later(s, names, b, a, upto - 1);
    }
}

/// There is one order of installation and no other: what
/// [`is_install_order`] asks decides every batch.
pub proof fn law_install_order_is_unique(
    s: Site,
    names: Seq<Seq<char>>,
    a: Seq<Seq<Seq<char>>>,
    b: Seq<Seq<Seq<char>>>,
)
    requires
        is_install_order(s, names, a),
        is_install_order(s, names, b),
    ensures
        a == b,
{
    lemma_not_more_batches(s, names, a, b);
    lemma_not_more_batches(s, names, b, a);
    assert forall|k: int| 0 <= k < a.len() implies a[k] == b[k] by {
        lemma_same_batch(s, names, a, b, k, names.len() as int);
    }
    assert(a =~= b);
}

/// The package base that builds the package called `name`. A name that
/// the catalog does not list stands for itself.
pub open spec fn base_of(aux: Seq<PackageModel>, name: Seq<char>) -> Seq<char> {
    match spec_lookup(aux, name) {
        Some(p) => p.pkgbase,
        None => name,
    }
}

/// The batches with every name replaced by its package base.
pub open spec fn bases_of(aux: Seq<PackageModel>, batches: Seq<Seq<Seq<char>>>) -> Seq<
    Seq<Seq<char>>,
> {
    Seq::new(batches.len(), |k: int| batches[k].map_values(|name: Seq<char>| base_of(aux, name)))
}

/// All that the first `k` batches hold, in order.
pub open spec fn all_before(batches: Seq<Seq<Seq<char>>>, k: int) -> Seq<Seq<char>>
    decreases k,
{
    if k <= 0 {
        Seq::empty()
    } else {
        all_before(batches, k - 1) + batches[k - 1]
    }
}

/// All that comes before place `t` of batch `k`: the batches before `k`,
/// and what batch `k` holds before `t`.
pub open spec fn earlier(batches: Seq<Seq<Seq<char>>>, k: int, t: int) -> Seq<Seq<char>> {
    all_before(batches, k) + batches[k].take(t)
}

/// Of the first `upto` entries of batch `k`, those that nothing earlier
/// equals, in order.
pub open spec fn first_mentions(batches: Seq<Seq<Seq<char>>>, k: int, upto: int) -> Seq<Seq<char>>
    decreases upto,
{
    if upto <= 0 {
        Seq::empty()
    } else if earlier(batches, k, upto - 1).contains(batches[k][upto - 1]) {
        first_mentions(batches, k, upto - 1)
    } else {
        first_mentions(batches, k, upto - 1).push(batches[k][upto - 1])
    }
}

/// The batches without repeats: of equal entries only the earliest stays,
/// in the earliest batch that holds one. No batch is dropped, though one
/// may be left empty.
pub open spec fn without_repeats(batches: Seq<Seq<Seq<char>>>) -> Seq<Seq<Seq<char>>> {
    Seq::new(batches.len(), |k: int| first_mentions(batches, k, batches[k].len() as int))
}

/// The package bases to build, batch by batch: every name replaced by its
/// package base, and every base kept only where it is first mentioned.
pub open spec fn spec_pkgnames_to_pkgbases(
    aux: Seq<PackageModel>,
    batches: Seq<Seq<Seq<char>>>,
) -> Seq<
    Seq<Seq<char>>,
> {
    without_repeats(bases_of(aux, batches))
}

/// Replaces every name by its package base.
fn map_to_bases(cache: &Cache, pkglist: &Vec<Vec<String>>) -> (r: Vec<Vec<String>>)
    ensures
        batch_texts(r@) == bases_of(cache.mpr(), batch_texts(pkglist@)),
{
    let mut out: Vec<Vec<String>> = Vec::new();
    let mut k: usize = 0;
    while k < pkglist.len()
        invariant
            k <= pkglist.len(),
            out.len() == k,
            forall|b: int|
                0 <= b < k ==> texts((#[trigger] out@[b])@) == texts(pkglist@[b]@).map_values(
                    |name: Seq<char>| base_of(cache.mpr(), name),
                ),
        decreases pkglist.len() - k,
    {
        let batch = &pkglist[k];
        let mut inner: Vec<String> = Vec::new();
        let mut t: usize = 0;
        while t < batch.len()
            invariant
                t <= batch.len(),
                inner.len() == t,
                forall|u: int|
                    0 <= u < t ==> (#[trigger] inner@[u])@ == base_of(cache.mpr(), batch@[u]@),
            decreases batch.len() - t,
        {
            let base = match cache.mpr_cache().get(batch[t].as_str()) {
                Some(p) => p.pkgbase.clone(),
                None => batch[t].clone(),
            };
            inner.push(base);
            t += 1;
        }
        assert(texts(inner@) =~= texts(batch@).map_values(
            |name: Seq<char>| base_of(cache.mpr(), name),
        ));
        out.push(inner);
        k += 1;
    }
    assert(batch_texts(out@) =~= bases_of(cache.mpr(), batch_texts(pkglist@)));
    out
}

/// Keeps of equal entries only the earliest.
fn remove_repeats(batches: &Vec<Vec<String>>) -> (r: Vec<Vec<String>>)
    ensures
        batch_texts(r@) == without_repeats(batch_texts(batches@)),
{
    let ghost all = batch_texts(batches@);
    let mut seen: Vec<String> = Vec::new();
    let mut out: Vec<Vec<String>> = Vec::new();
    let mut k: usize = 0;
    while k < batches.len()
        invariant
            k <= batches.len(),
            all == batch_texts(batches@),
            out.len() == k,
            forall|x: Seq<char>| texts(seen@).contains(x) <==> all_before(all, k as int).contains(x),
            forall|b: int|
                0 <= b < k ==> texts((#[trigger] out@[b])@) == first_mentions(
                    all,
                    b,
                    all[b].len() as int,
                ),
        decreases batches.len() - k,
    {
        let batch = &batches[k];
        assert(all[k as int] == texts(batch@));
        let mut kept: Vec<String> = Vec::new();
        let mut t: usize = 0;
        proof {
            assert(all[k as int].take(0) =~= Seq::<Seq<char>>::empty());
            assert(earlier(all, k as int, 0) =~= all_before(all, k as int));
            assert(texts(kept@) =~= Seq::<Seq<char>>::empty());
        }
        while t < batch.len()
            invariant
                t <= batch.len(),
                k < batches.len(),
                all == batch_texts(batches@),
                all[k as int] == texts(batch@),
                forall|x: Seq<char>|
                    texts(seen@).contains(x) <==> earlier(all, k as int, t as int).contains(x),
                texts(kept@) == first_mentions(all, k as int, t as int),
            decreases batch.len() - t,
        {
            let ghost entry = batch@[t as int]@;
            let ghost seen_before = texts(seen@);
            let ghost kept_before = texts(kept@);
            assert(all[k as int][t as int] == entry);
            let repeated = contains_str(&seen, batch[t].as_str());
            if !repeated {
                seen.push(batch[t].clone());
                kept.push(batch[t].clone());
                assert(texts(seen@) =~= seen_before.push(entry));
                assert(texts(kept@) =~= kept_before.push(entry));
            }
            proof {
                let now = earlier(all, k as int, t as int);
                let next = earlier(all, k as int, t + 1);
                assert(all[k as int].take(t + 1) =~= all[k as int].take(t as int).push(entry));
                assert(next =~= now.push(entry));
                assert forall|x: Seq<char>| texts(seen@).contains(x) <==> next.contains(x) by {
                    lemma_contains_push(now, entry, x);
                    lemma_contains_push(seen_before, entry, x);
                }
            }
            t += 1;
        }
        proof {
            assert(all[k as int].take(batch.len() as int) =~= all[k as int]);
            assert(earlier(all, k as int, batch.len() as int) =~= all_before(all, k + 1));
        }
        out.push(kept);
        k += 1;
    }
    assert(batch_texts(out@) =~= without_repeats(all));
    out
}

/// Turns batches of package names into batches of package bases.
///
/// Every name is replaced by the package base that builds it. A base that
/// is then mentioned more than once stays where it is mentioned first, in
/// the earliest batch, so that it is built once and before all that needs
/// it. The number of batches stays; a batch may be left empty.
pub fn pkgnames_to_pkgbases(cache: &Cache, pkglist: &Vec<Vec<String>>) -> (r: Vec<Vec<String>>)
    requires
        forall|k: int|
            0 <= k < pkglist.len() ==> all_known(cache.mpr(), texts(#[trigger] pkglist@[k]@)),
    ensures
        batch_texts(r@) == spec_pkgnames_to_pkgbases(cache.mpr(), batch_texts(pkglist@)),
{
    let mapped = map_to_bases(cache, pkglist);
    remove_repeats(&mapped)
}

/// Every first mention of batch `k` stands in the batch at a place before
/// which nothing equals it, and all first mentions before it stand at
/// earlier places.
proof fn lemma_first_mentions(batches: Seq<Seq<Seq<char>>>, k: int, upto: int, u: int)
    requires
        0 <= k < batches.len(),
        0 <= upto <= batches[k].len(),
        0 <= u < first_mentions(batches, k, upto).len(),
    ensures
        exists|t: int| 0 <= t < upto && #[trigger] is_mention(batches, k, upto, u, t),
    decreases upto,
{
    if upto > 0 {
        let before = first_mentions(batches, k, upto - 1);
        let now = first_mentions(batches, k, upto);
        if u < before.len() {
            lemma_first_mentions(batches, k, upto - 1, u);
            let t = choose|t: int|
                0 <= t < upto - 1 && #[trigger] is_mention(batches, k, upto - 1, u, t);
            assert(is_mention(batches, k, upto, u, t));
        } else {
            let t = upto - 1;
            assert forall|v: int| 0 <= v < u implies batches[k].take(t).contains(
                #[trigger] now[v],
            ) by {
                lemma_first_mentions(batches, k, upto - 1, v);
                let tv = choose|tv: int|
                    0 <= tv < upto - 1 && #[trigger] is_mention(batches, k, upto - 1, v, tv);
                assert(batches[k].take(t)[tv] == batches[k][tv]);
            }
            assert(is_mention(batches, k, upto, u, t));
        }
    }
}

/// Whether first mention `u` of batch `k` stands at place `t` of the batch.
spec fn is_mention(batches: Seq<Seq<Seq<char>>>, k: int, upto: int, u: int, t: int) -> bool {
    let found = first_mentions(batches, k, upto);
    &&& 0 <= t < batches[k].len()
    &&& 0 <= u < found.len()
    &&& found[u] == batches[k][t]
    &&& !earlier(batches, k, t).contains(batches[k][t])
    &&& forall|v: int| 0 <= v < u ==> batches[k].take(t).contains(#[trigger] found[v])
}

/// What stays before batch `k` once repeats are gone was there before.
proof fn lemma_kept_were_there(batches: Seq<Seq<Seq<char>>>, k: int, x: Seq<char>)
    requires
        0 <= k <= batches.len(),
        all_before(without_repeats(batches), k).contains(x),
    ensures
        all_before(batches, k).contains(x),
    decreases k,
{
    let kept = without_repeats(batches);
    if k > 0 {
        lemma_contains_add(all_before(kept, k - 1), kept[k - 1], x);
        lemma_contains_add(all_before(batches, k - 1), batches[k - 1], x);
        if all_before(kept, k - 1).contains(x) {
            lemma_kept_were_there(batches, k - 1, x);
        } else {
            let last = kept[k - 1];
            let u = choose|u: int| 0 <= u < last.len() && last[u] == x;
            lemma_first_mentions(batches, k - 1, batches[k - 1].len() as int, u);
            let t = choose|t: int|
                0 <= t < batches[k - 1].len() && #[trigger] is_mention(
                    batches,
                    k - 1,
                    batches[k - 1].len() as int,
                    u,
                    t,
                );
            assert(batches[k - 1][t] == x);
        }
    }
}

/// Batches without repeats have none to remove.
proof fn lemma_no_repeats_left(batches: Seq<Seq<Seq<char>>>, k: int, upto: int)
    requires
        0 <= k < batches.len(),
        0 <= upto <= without_repeats(batches)[k].len(),
    ensures
        first_mentions(without_repeats(batches), k, upto) == without_repeats(batches)[k].take(upto),
    decreases upto,
{
    let kept = without_repeats(batches);
    if upto > 0 {
        lemma_no_repeats_left(batches, k, upto - 1);
        let u = upto - 1;
        let entry = kept[k][u];
        lemma_first_mentions(batches, k, batches[k].len() as int, u);
        let t = choose|t: int|
            0 <= t < batches[k].len() && #[trigger] is_mention(
                batches,
                k,
                batches[k].len() as int,
                u,
                t,
            );
        assert(!earlier(kept, k, u).contains(entry)) by {
            lemma_contains_add(all_before(kept, k), kept[k].take(u), entry);
            lemma_contains_add(all_before(batches, k), batches[k].take(t), entry);
            if all_before(kept, k).contains(entry) {
                lemma_kept_were_there(batches, k, entry);
            }
            if kept[k].take(u).contains(entry) {
                let v = choose|v: int| 0 <= v < u && kept[k].take(u)[v] == entry;
                assert(kept[k][v] == entry);
                assert(batches[k].take(t).contains(kept[k][v]));
            }
        }
        assert(kept[k].take(upto) =~= kept[k].take(u).push(entry));
    } else {
        assert(kept[k].take(0) =~= Seq::<Seq<char>>::empty());
    }
}

/// Removing repeats twice is removing them once.
pub proof fn law_without_repeats_is_idempotent(batches: Seq<Seq<Seq<char>>>)
    ensures
        without_repeats(without_repeats(batches)) == without_repeats(batches),
{
    let kept = without_repeats(batches);
    assert forall|k: int| 0 <= k < kept.len() implies without_repeats(kept)[k] == kept[k] by {
        lemma_no_repeats_left(batches, k, kept[k].len() as int);
        assert(kept[k].take(kept[k].len() as int) =~= kept[k]);
    }
    assert(without_repeats(kept) =~= kept);
}

/// Whether every package base that the names of `batches` lead to is its
/// own package base.
pub open spec fn bases_name_themselves(
    aux: Seq<PackageModel>,
    batches: Seq<Seq<Seq<char>>>,
) -> bool {
    forall|k: int, t: int|
        0 <= k < batches.len() && 0 <= t < batches[k].len() ==> base_of(
            aux,
            base_of(aux, #[trigger] batches[k][t]),
        ) == base_of(aux, batches[k][t])
}

/// Turning names into package bases twice gives what doing it once gives,
/// where every package base that comes out is its own package base.
pub proof fn law_pkgnames_to_pkgbases_is_idempotent(
    aux: Seq<PackageModel>,
    batches: Seq<Seq<Seq<char>>>,
)
    requires
        bases_name_themselves(aux, batches),
    ensures
        spec_pkgnames_to_pkgbases(aux, spec_pkgnames_to_pkgbases(aux, batches))
            == spec_pkgnames_to_pkgbases(aux, batches),
{
    let mapped = bases_of(aux, batches);
    let kept = without_repeats(mapped);
    assert forall|k: int| 0 <= k < kept.len() implies #[trigger] bases_of(aux, kept)[k] == kept[k] by {
        assert forall|u: int| 0 <= u < kept[k].len() implies base_of(aux, #[trigger] kept[k][u])
            == kept[k][u] by {
            lemma_first_mentions(mapped, k, mapped[k].len() as int, u);
            let t = choose|t: int|
                0 <= t < mapped[k].len() && #[trigger] is_mention(
                    mapped,
                    k,
                    mapped[k].len() as int,
                    u,
                    t,
                );
            assert(kept[k][u] == mapped[k][t]);
            assert(mapped[k][t] == base_of(aux, batches[k][t]));
        }
        assert(bases_of(aux, kept)[k] =~= kept[k]);
    }
    assert(bases_of(aux, kept) =~= kept);
    law_without_repeats_is_idempotent(mapped);
}

/// What is done with the directory of a package base before it is built.
#[derive(Clone, Copy, Debug, PartialEq, Eq, Structural)]
pub enum RepoAction {
    /// There is no directory yet: the package base is cloned into it.
    Clone,
    /// Something else than a directory stands in its place: nothing can be
    /// done.
    NotADirectory,
    /// The directory is there: it is brought up to date.
    Update,
}

/// What is done with the directory of a package base, by what stands at
/// its path.
pub fn clone_mpr_pkgs(found: bool, is_dir: bool) -> (r: RepoAction)
    ensures
        r == if !found {
            RepoAction::Clone
        } else if !is_dir {
            RepoAction::NotADirectory
        } else {
            RepoAction::Update
        },
{
    if !found {
        RepoAction::Clone
    } else if !is_dir {
        RepoAction::NotADirectory
    } else {
        RepoAction::Update
    }
}

/// The command that clones the package base `pkg` from the repository at
/// `mpr_url` into `git_dir`.
pub fn git_clone_command(mpr_url: &str, pkg: &str, git_dir: &str) -> (r: Vec<String>)
    ensures
        texts(r@) == seq!["git"@, "clone"@, mpr_url@ + "/"@ + pkg@, git_dir@],
{
    let mut cmd: Vec<String> = Vec::new();
    cmd.push("git".to_owned());
    cmd.push("clone".to_owned());
    cmd.push(mpr_url.to_owned().concat("/").concat(pkg));
    cmd.push(git_dir.to_owned());
    assert(texts(cmd@) =~= seq!["git"@, "clone"@, mpr_url@ + "/"@ + pkg@, git_dir@]);
    cmd
}

} // verus!
