//! The resolver: which auxiliary packages must be built to install the ones
//! that were asked for, and which system packages must be installed for them.
//!
//! Each dependency expression of a package is tried alternative by
//! alternative, from left to right. An alternative is satisfied from the
//! system catalog wherever that can satisfy it; only else from the auxiliary
//! catalog, whose package is then resolved in turn. The walk is bounded by a
//! recursion limit.

use vstd::prelude::*;
use vstd::string::*;
use crate::apt::{
    any_installed_candidate, apt_real, version_refs, AptPackageModel, AptVersion, InstallPlan,
    VersionRef,
};
use crate::cache::{
    all_known, has_package, lemma_all_known_add, spec_lookup, Cache, PackageModel,
};
use crate::depend::{
    alternatives, parse_expression, spec_expression, Alternative, AlternativeModel,
};
use crate::text::texts;
use crate::version::{admits, VersionOrder};

verus! {

/// The recursion limit that applies where none is configured.
pub const DEFAULT_RECURSION_LIMIT: i32 = 50;

/// The distribution and the architecture of the running system.
#[derive(Debug)]
pub struct DistroArch {
    pub distro: String,
    pub arch: String,
}

/// Why a resolution failed.
#[derive(Debug)]
pub enum ResolveError {
    /// No alternative of a dependency expression of a package can be
    /// satisfied from either catalog.
    UnsatisfiableDependency { package: String, expression: String },
    /// A chain of dependencies is longer than the recursion limit.
    RecursionExceeded { limit: i32 },
}

/// What a resolution found.
#[derive(Debug)]
pub struct Resolution {
    /// The auxiliary packages to build and install, root by root: each root,
    /// followed by what was found for it. The list is not ordered for
    /// installation and may name a package more than once.
    pub packages: Vec<String>,
    /// The system versions to install.
    pub plan: InstallPlan,
}

/// The mathematical value of a [`ResolveError`].
pub ghost enum ResolveFailure {
    UnsatisfiableDependency { package: Seq<char>, expression: Seq<char> },
    RecursionExceeded { limit: int },
}

impl View for ResolveError {
    type V = ResolveFailure;

    open spec fn view(&self) -> ResolveFailure {
        match *self {
            ResolveError::UnsatisfiableDependency { package, expression } => {
                ResolveFailure::UnsatisfiableDependency {
                    package: package@,
                    expression: expression@,
                }
            },
            ResolveError::RecursionExceeded { limit } => ResolveFailure::RecursionExceeded {
                limit: limit as int,
            },
        }
    }
}

/// All that a resolution reads.
pub ghost struct World {
    pub aux: Seq<PackageModel>,
    pub system: Seq<AptPackageModel>,
    pub order: Seq<(Seq<char>, u64)>,
    pub distro: Seq<char>,
    pub arch: Seq<char>,
    pub limit: int,
}

/// The world that the arguments of a resolution describe.
pub open spec fn world(
    cache: &Cache,
    versions: &VersionOrder,
    host: &DistroArch,
    limit: i32,
) -> World {
    World {
        aux: cache.mpr(),
        system: cache.apt(),
        order: versions@,
        distro: host.distro@,
        arch: host.arch@,
        limit: limit as int,
    }
}

/// The auxiliary packages found and the plan after them, or the failure.
pub type Outcome = Result<(Seq<Seq<char>>, Seq<VersionRef>), ResolveFailure>;

/// How the system catalog satisfies an alternative: the plan afterwards, or
/// nothing where it cannot.
///
/// It can where the name is a real system package and some version of it, or
/// of a package that provides it, meets the constraint. Where such a version
/// is installed and the active candidate, nothing is marked; else the first
/// such version is.
pub open spec fn system_choice(
    system: Seq<AptPackageModel>,
    order: Seq<(Seq<char>, u64)>,
    plan: Seq<VersionRef>,
    alt: AlternativeModel,
) -> Option<Seq<VersionRef>> {
    match apt_real(system, alt.pkgname) {
        None => None,
        Some(p) => {
            let found = p.versions_satisfying(order, alt.constraint);
            if found.len() == 0 {
                None
            } else if any_installed_candidate(system, plan, found, found.len() as int) {
                Some(plan)
            } else {
                Some(plan.push(found[0]))
            }
        },
    }
}

/// Whether the auxiliary catalog can satisfy an alternative: it lists the
/// name, with a version that meets the constraint.
pub open spec fn aux_admits(
    aux: Seq<PackageModel>,
    order: Seq<(Seq<char>, u64)>,
    alt: AlternativeModel,
) -> bool {
    match spec_lookup(aux, alt.pkgname) {
        Some(p) => admits(order, p.version, alt.constraint),
        None => false,
    }
}

/// Resolves the package called `name` at recursion depth `depth`: the
/// package itself, then what its dependency expressions need, in order.
pub open spec fn resolve_package(
    w: World,
    plan: Seq<VersionRef>,
    name: Seq<char>,
    depth: int,
) -> Outcome
    decreases w.limit - depth + 1, 2int, 0int,
{
    if depth > w.limit {
        Err(ResolveFailure::RecursionExceeded { limit: w.limit })
    } else {
        match spec_lookup(w.aux, name) {
            None => Ok((seq![name], plan)),
            Some(pkg) => match resolve_groups(
                w,
                plan,
                name,
                pkg.dep_groups(w.distro, w.arch),
                0,
                depth,
            ) {
                Ok((found, after)) => Ok((seq![name] + found, after)),
                Err(e) => Err(e),
            },
        }
    }
}

/// Resolves the dependency expressions of `package` from index `from` on.
pub open spec fn resolve_groups(
    w: World,
    plan: Seq<VersionRef>,
    package: Seq<char>,
    dep_groups: Seq<Seq<char>>,
    from: int,
    depth: int,
) -> Outcome
    decreases w.limit - depth + 1, 1int, dep_groups.len() - from,
{
    if depth > w.limit || from < 0 || from >= dep_groups.len() {
        Ok((Seq::empty(), plan))
    } else {
        match resolve_alternatives(
            w,
            plan,
            package,
            dep_groups[from],
            spec_expression(dep_groups[from]),
            0,
            depth,
        ) {
            Err(e) => Err(e),
            Ok((found, after)) => match resolve_groups(
                w,
                after,
                package,
                dep_groups,
                from + 1,
                depth,
            ) {
                Err(e) => Err(e),
                Ok((more, last)) => Ok((found + more, last)),
            },
        }
    }
}

/// Resolves one dependency expression of `package` by its alternatives from
/// index `from` on: the first that either catalog can satisfy decides.
pub open spec fn resolve_alternatives(
    w: World,
    plan: Seq<VersionRef>,
    package: Seq<char>,
    expression: Seq<char>,
    alts: Seq<AlternativeModel>,
    from: int,
    depth: int,
) -> Outcome
    decreases w.limit - depth + 1, 0int, alts.len() - from,
{
    if depth > w.limit || from < 0 || from >= alts.len() {
        Err(ResolveFailure::UnsatisfiableDependency { package, expression })
    } else {
        match system_choice(w.system, w.order, plan, alts[from]) {
            Some(after) => Ok((Seq::empty(), after)),
            None => if aux_admits(w.aux, w.order, alts[from]) {
                resolve_package(w, plan, alts[from].pkgname, depth + 1)
            } else {
                resolve_alternatives(w, plan, package, expression, alts, from + 1, depth)
            },
        }
    }
}

/// Resolves the roots from index `from` on, each at depth 1.
pub open spec fn resolve_roots(
    w: World,
    plan: Seq<VersionRef>,
    roots: Seq<Seq<char>>,
    from: int,
) -> Outcome
    decreases roots.len() - from,
{
    if from < 0 || from >= roots.len() {
        Ok((Seq::empty(), plan))
    } else {
        match resolve_package(w, plan, roots[from], 1) {
            Err(e) => Err(e),
            Ok((found, after)) => match resolve_roots(w, after, roots, from + 1) {
                Err(e) => Err(e),
                Ok((more, last)) => Ok((found + more, last)),
            },
        }
    }
}

/// Whether what a step returned, and what it left in its two accumulators,
/// is what the outcome says.
pub open spec fn step_matches(
    outcome: Outcome,
    r: Result<(), ResolveError>,
    out_before: Seq<Seq<char>>,
    out_after: Seq<Seq<char>>,
    plan_after: Seq<VersionRef>,
) -> bool {
    match outcome {
        Ok((found, after)) => r is Ok && out_after == out_before + found && plan_after == after,
        Err(e) => r is Err && r->Err_0@ == e,
    }
}

/// Whether one of `found` needs no action.
fn any_needs_no_action(cache: &Cache, plan: &InstallPlan, found: &Vec<AptVersion>) -> (r: bool)
    ensures
        r == any_installed_candidate(
            cache.apt(),
            plan@,
            version_refs(found@),
            found@.len() as int,
        ),
{
    let mut i: usize = 0;
    while i < found.len()
        invariant
            i <= found.len(),
            !any_installed_candidate(cache.apt(), plan@, version_refs(found@), i as int),
        decreases found.len() - i,
    {
        assert(version_refs(found@)[i as int] == found@[i as int]@);
        if plan.is_installed_candidate(cache.apt_cache(), &found[i]) {
            proof {
                lemma_any_installed(
                    cache.apt(),
                    plan@,
                    version_refs(found@),
                    i + 1,
                    found.len() as int,
                );
            }
            return true;
        }
        i += 1;
    }
    false
}

/// Once one of the first versions needs no action, one of more versions
/// does not either.
proof fn lemma_any_installed(
    system: Seq<AptPackageModel>,
    plan: Seq<VersionRef>,
    found: Seq<VersionRef>,
    upto: int,
    more: int,
)
    requires
        upto <= more,
        any_installed_candidate(system, plan, found, upto),
    ensures
        any_installed_candidate(system, plan, found, more),
    decreases more - upto,
{
    if upto < more {
        lemma_any_installed(system, plan, found, upto, more - 1);
    }
}

/// Satisfies an alternative from the system catalog where that is possible,
/// and says whether it was.
pub fn choose_from_system(
    cache: &Cache,
    versions: &VersionOrder,
    plan: &mut InstallPlan,
    alt: &Alternative,
) -> (r: bool)
    ensures
        match system_choice(cache.apt(), versions@, old(plan)@, alt@) {
            Some(after) => r && final(plan)@ == after,
            None => !r && final(plan)@ == old(plan)@,
        },
{
    match cache.apt_cache().get_real(alt.pkgname.as_str()) {
        None => false,
        Some(p) => {
            let found = p.versions_satisfying(versions, &alt.constraint);
            if found.len() == 0 {
                false
            } else if any_needs_no_action(cache, plan, &found) {
                true
            } else {
                assert(version_refs(found@)[0] == found@[0]@);
                plan.mark_install(found[0].duplicate());
                true
            }
        },
    }
}

/// Whether the auxiliary catalog can satisfy an alternative.
pub fn aux_can_satisfy(cache: &Cache, versions: &VersionOrder, alt: &Alternative) -> (r: bool)
    ensures
        r == aux_admits(cache.mpr(), versions@, alt@),
{
    match cache.mpr_cache().get(alt.pkgname.as_str()) {
        Some(p) => versions.admits(p.version.as_str(), &alt.constraint),
        None => false,
    }
}

/// Resolves the package called `pkg` at depth `depth`: adds what is found
/// to `out` and marks in `plan` what the system catalog is to install.
fn resolve_package_into(
    cache: &Cache,
    versions: &VersionOrder,
    host: &DistroArch,
    pkg: &str,
    depth: i32,
    limit: i32,
    out: &mut Vec<String>,
    plan: &mut InstallPlan,
) -> (r: Result<(), ResolveError>)
    ensures
        step_matches(
            resolve_package(world(cache, versions, host, limit), old(plan)@, pkg@, depth as int),
            r,
            texts(old(out)@),
            texts(final(out)@),
            final(plan)@,
        ),
    decreases limit - depth + 1, 2int, 0int,
{
    if depth > limit {
        return Err(ResolveError::RecursionExceeded { limit });
    }
    let ghost before = texts(out@);
    out.push(pkg.to_owned());
    assert(texts(out@) =~= before + seq![pkg@]);
    match cache.mpr_cache().get(pkg) {
        None => Ok(()),
        Some(p) => {
            let dep_groups = p.dep_groups(host.distro.as_str(), host.arch.as_str());
            let r = resolve_groups_into(
                cache,
                versions,
                host,
                pkg,
                &dep_groups,
                0,
                depth,
                limit,
                out,
                plan,
            );
            proof {
                let w = world(cache, versions, host, limit);
                if let Ok((found, after)) = resolve_groups(
                    w,
                    old(plan)@,
                    pkg@,
                    texts(dep_groups@),
                    0,
                    depth as int,
                ) {
                    assert(texts(out@) =~= before + (seq![pkg@] + found));
                }
            }
            r
        },
    }
}

/// Resolves the dependency expressions of `package` from index `from` on.
fn resolve_groups_into(
    cache: &Cache,
    versions: &VersionOrder,
    host: &DistroArch,
    package: &str,
    dep_groups: &Vec<String>,
    from: usize,
    depth: i32,
    limit: i32,
    out: &mut Vec<String>,
    plan: &mut InstallPlan,
) -> (r: Result<(), ResolveError>)
    requires
        depth <= limit,
    ensures
        step_matches(
            resolve_groups(
                world(cache, versions, host, limit),
                old(plan)@,
                package@,
                texts(dep_groups@),
                from as int,
                depth as int,
            ),
            r,
            texts(old(out)@),
            texts(final(out)@),
            final(plan)@,
        ),
    decreases limit - depth + 1, 1int, dep_groups.len() - from,
{
    if from >= dep_groups.len() {
        assert(texts(out@) =~= texts(out@) + Seq::<Seq<char>>::empty());
        return Ok(());
    }
    let ghost w = world(cache, versions, host, limit);
    let ghost before = texts(out@);
    let expression = dep_groups[from].as_str();
    assert(texts(dep_groups@)[from as int] == expression@);
    let alts = parse_expression(expression);
    let first = resolve_alternatives_into(
        cache,
        versions,
        host,
        package,
        expression,
        &alts,
        0,
        depth,
        limit,
        out,
        plan,
    );
    match first {
        Err(e) => Err(e),
        Ok(()) => {
            let ghost middle = texts(out@);
            let ghost marked = plan@;
            let rest = resolve_groups_into(
                cache,
                versions,
                host,
                package,
                dep_groups,
                from + 1,
                depth,
                limit,
                out,
                plan,
            );
            proof {
                let one = resolve_alternatives(
                    w,
                    old(plan)@,
                    package@,
                    expression@,
                    spec_expression(expression@),
                    0,
                    depth as int,
                );
                let found = one->Ok_0.0;
                if let Ok((more, last)) = resolve_groups(
                    w,
                    marked,
                    package@,
                    texts(dep_groups@),
                    from + 1,
                    depth as int,
                ) {
                    assert(texts(out@) =~= before + (found + more));
                }
            }
            rest
        },
    }
}

/// Resolves one dependency expression of `package` by its alternatives from
/// index `from` on.
fn resolve_alternatives_into(
    cache: &Cache,
    versions: &VersionOrder,
    host: &DistroArch,
    package: &str,
    expression: &str,
    alts: &Vec<Alternative>,
    from: usize,
    depth: i32,
    limit: i32,
    out: &mut Vec<String>,
    plan: &mut InstallPlan,
) -> (r: Result<(), ResolveError>)
    requires
        depth <= limit,
    ensures
        step_matches(
            resolve_alternatives(
                world(cache, versions, host, limit),
                old(plan)@,
                package@,
                expression@,
                alternatives(alts@),
                from as int,
                depth as int,
            ),
            r,
            texts(old(out)@),
            texts(final(out)@),
            final(plan)@,
        ),
    decreases limit - depth + 1, 0int, alts.len() - from,
{
    if from >= alts.len() {
        return Err(
            ResolveError::UnsatisfiableDependency {
                package: package.to_owned(),
                expression: expression.to_owned(),
            },
        );
    }
    let alt = &alts[from];
    let ghost w = world(cache, versions, host, limit);
    assert(alternatives(alts@)[from as int] == alt@);
    if choose_from_system(cache, versions, plan, alt) {
        assert(texts(out@) =~= texts(out@) + Seq::<Seq<char>>::empty());
        assert(system_choice(w.system, w.order, old(plan)@, alt@) is Some);
        Ok(())
    } else if aux_can_satisfy(cache, versions, alt) {
        assert(system_choice(w.system, w.order, old(plan)@, alt@) is None);
        assert(aux_admits(w.aux, w.order, alt@));
        if depth >= limit {
            assert(resolve_package(w, old(plan)@, alt@.pkgname, depth + 1) == Err::<
                (Seq<Seq<char>>, Seq<VersionRef>),
                ResolveFailure,
            >(ResolveFailure::RecursionExceeded { limit: limit as int }));
            Err(ResolveError::RecursionExceeded { limit })
        } else {
            resolve_package_into(
                cache,
                versions,
                host,
                alt.pkgname.as_str(),
                depth + 1,
                limit,
                out,
                plan,
            )
        }
    } else {
        resolve_alternatives_into(
            cache,
            versions,
            host,
            package,
            expression,
            alts,
            from + 1,
            depth,
            limit,
            out,
            plan,
        )
    }
}

/// Resolves the roots from index `from` on, each at depth 1.
fn resolve_roots_into(
    cache: &Cache,
    versions: &VersionOrder,
    host: &DistroArch,
    roots: &Vec<String>,
    from: usize,
    limit: i32,
    out: &mut Vec<String>,
    plan: &mut InstallPlan,
) -> (r: Result<(), ResolveError>)
    ensures
        step_matches(
            resolve_roots(
                world(cache, versions, host, limit),
                old(plan)@,
                texts(roots@),
                from as int,
            ),
            r,
            texts(old(out)@),
            texts(final(out)@),
            final(plan)@,
        ),
    decreases roots.len() - from,
{
    if from >= roots.len() {
        assert(texts(out@) =~= texts(out@) + Seq::<Seq<char>>::empty());
        return Ok(());
    }
    let ghost w = world(cache, versions, host, limit);
    let ghost before = texts(out@);
    assert(texts(roots@)[from as int] == roots@[from as int]@);
    match resolve_package_into(cache, versions, host, roots[from].as_str(), 1, limit, out, plan) {
        Err(e) => Err(e),
        Ok(()) => {
            let ghost marked = plan@;
            let rest = resolve_roots_into(cache, versions, host, roots, from + 1, limit, out, plan);
            proof {
                let one = resolve_package(w, old(plan)@, roots@[from as int]@, 1);
                let found = one->Ok_0.0;
                if let Ok((more, last)) = resolve_roots(w, marked, texts(roots@), from + 1) {
                    assert(texts(out@) =~= before + (found + more));
                }
            }
            rest
        },
    }
}

/// Resolves one package of the auxiliary catalog and what it depends on.
///
/// `current_recursion` is the depth of `pkg` in the chain of dependencies
/// that led to it: 1 for a package that was asked for. The resolution fails
/// with `RecursionExceeded` where a chain is longer than `recursion_limit`,
/// and with `UnsatisfiableDependency` where neither catalog can satisfy any
/// alternative of a dependency expression. On success it returns `pkg`
/// followed by the auxiliary packages found for its dependency expressions
/// in order, and `plan` extended by the system versions to install.
pub fn resolve_mpr_package(
    cache: &Cache,
    versions: &VersionOrder,
    host: &DistroArch,
    pkg: &str,
    current_recursion: i32,
    recursion_limit: i32,
    plan: InstallPlan,
) -> (r: Result<Resolution, ResolveError>)
    requires
        has_package(cache.mpr(), pkg@),
    ensures
        match resolve_package(
            world(cache, versions, host, recursion_limit),
            plan@,
            pkg@,
            current_recursion as int,
        ) {
            Ok((found, after)) => r is Ok && texts(r->Ok_0.packages@) == found && r->Ok_0.plan@
                == after,
            Err(e) => r is Err && r->Err_0@ == e,
        },
        r is Ok ==> all_known(cache.mpr(), texts(r->Ok_0.packages@)),
{
    proof {
        law_resolved_are_known(
            world(cache, versions, host, recursion_limit),
            plan@,
            pkg@,
            current_recursion as int,
        );
    }
    let mut packages: Vec<String> = Vec::new();
    let mut plan = plan;
    let ghost empty = texts(packages@);
    match resolve_package_into(
        cache,
        versions,
        host,
        pkg,
        current_recursion,
        recursion_limit,
        &mut packages,
        &mut plan,
    ) {
        Ok(()) => {
            assert(texts(packages@) =~= empty + texts(packages@));
            assert(empty =~= Seq::<Seq<char>>::empty());
            Ok(Resolution { packages, plan })
        },
        Err(e) => Err(e),
    }
}

/// Resolves the packages that were asked for, in order, each at depth 1.
///
/// On success the result lists, root by root, the root and the auxiliary
/// packages found for it, and holds `plan` extended by the system versions
/// to install. On failure nothing of the kind is returned: a resolution is
/// applied whole or not at all.
pub fn resolve(
    cache: &Cache,
    versions: &VersionOrder,
    host: &DistroArch,
    roots: &Vec<String>,
    recursion_limit: i32,
    plan: InstallPlan,
) -> (r: Result<Resolution, ResolveError>)
    requires
        all_known(cache.mpr(), texts(roots@)),
    ensures
        match resolve_roots(world(cache, versions, host, recursion_limit), plan@, texts(roots@), 0) {
            Ok((found, after)) => r is Ok && texts(r->Ok_0.packages@) == found && r->Ok_0.plan@
                == after,
            Err(e) => r is Err && r->Err_0@ == e,
        },
        r is Ok ==> all_known(cache.mpr(), texts(r->Ok_0.packages@)),
{
    proof {
        lemma_roots_known(
            world(cache, versions, host, recursion_limit),
            plan@,
            texts(roots@),
            0,
        );
    }
    let mut packages: Vec<String> = Vec::new();
    let mut plan = plan;
    let ghost empty = texts(packages@);
    match resolve_roots_into(cache, versions, host, roots, 0, recursion_limit, &mut packages, &mut plan) {
        Ok(()) => {
            assert(texts(packages@) =~= empty + texts(packages@));
            assert(empty =~= Seq::<Seq<char>>::empty());
            Ok(Resolution { packages, plan })
        },
        Err(e) => Err(e),
    }
}

/// Whether the system catalog can satisfy an alternative: the name is a
/// real system package, and a version of it or of a package that provides
/// it meets the constraint.
pub open spec fn system_can_satisfy(
    system: Seq<AptPackageModel>,
    order: Seq<(Seq<char>, u64)>,
    alt: AlternativeModel,
) -> bool {
    match apt_real(system, alt.pkgname) {
        Some(p) => p.versions_satisfying(order, alt.constraint).len() > 0,
        None => false,
    }
}

/// Whether the system catalog settles a dependency expression: it can
/// satisfy the first of the alternatives that either catalog can satisfy.
pub open spec fn system_settles(w: World, alts: Seq<AlternativeModel>) -> bool {
    exists|k: int| #[trigger] settles_at(w, alts, k)
}

/// Whether alternative `k` is the first that either catalog can satisfy,
/// and the system catalog can satisfy it.
pub open spec fn settles_at(w: World, alts: Seq<AlternativeModel>, k: int) -> bool {
    &&& 0 <= k < alts.len()
    &&& system_can_satisfy(w.system, w.order, alts[k])
    &&& forall|j: int|
        0 <= j < k ==> !system_can_satisfy(w.system, w.order, #[trigger] alts[j]) && !aux_admits(
            w.aux,
            w.order,
            alts[j],
        )
}

proof fn lemma_system_first_from(
    w: World,
    plan: Seq<VersionRef>,
    package: Seq<char>,
    expression: Seq<char>,
    alts: Seq<AlternativeModel>,
    from: int,
    k: int,
    depth: int,
)
    requires
        depth <= w.limit,
        0 <= from <= k,
        settles_at(w, alts, k),
    ensures
        resolve_alternatives(w, plan, package, expression, alts, from, depth) matches Ok(
            (found, after),
        ) && found.len() == 0 && (after == plan || after.drop_last() == plan),
    decreases k - from,
{
    if from < k {
        assert(!system_can_satisfy(w.system, w.order, alts[from]));
        lemma_system_first_from(w, plan, package, expression, alts, from + 1, k, depth);
    } else {
        let choice = system_choice(w.system, w.order, plan, alts[from]);
        assert(choice is Some);
        let after = choice->0;
        if after != plan {
            assert(after.drop_last() =~= plan);
        }
    }
}

/// The system catalog comes first. Where it can satisfy the alternative
/// that decides a dependency expression, the expression adds no auxiliary
/// package, whether or not the auxiliary catalog could satisfy that
/// alternative too; and at most one system version is marked for it.
pub proof fn law_system_first(
    w: World,
    plan: Seq<VersionRef>,
    package: Seq<char>,
    expression: Seq<char>,
    alts: Seq<AlternativeModel>,
    depth: int,
)
    requires
        depth <= w.limit,
        system_settles(w, alts),
    ensures
        resolve_alternatives(w, plan, package, expression, alts, 0, depth) matches Ok(
            (found, after),
        ) && found.len() == 0 && (after == plan || after.drop_last() == plan),
{
    let k = choose|k: int| #[trigger] settles_at(w, alts, k);
    lemma_system_first_from(w, plan, package, expression, alts, 0, k, depth);
}

/// The expressions of `dep_groups` from index `from` on add no auxiliary
/// package where the system catalog settles each.
proof fn lemma_groups_system_first(
    w: World,
    plan: Seq<VersionRef>,
    package: Seq<char>,
    dep_groups: Seq<Seq<char>>,
    from: int,
    depth: int,
)
    requires
        depth <= w.limit,
        0 <= from,
        forall|i: int|
            0 <= i < dep_groups.len() ==> system_settles(
                w,
                #[trigger] spec_expression(dep_groups[i]),
            ),
    ensures
        resolve_groups(w, plan, package, dep_groups, from, depth) matches Ok((found, after))
            && found.len() == 0,
    decreases dep_groups.len() - from,
{
    if from < dep_groups.len() {
        let alts = spec_expression(dep_groups[from]);
        law_system_first(w, plan, package, dep_groups[from], alts, depth);
        let one = resolve_alternatives(w, plan, package, dep_groups[from], alts, 0, depth);
        lemma_groups_system_first(w, one->Ok_0.1, package, dep_groups, from + 1, depth);
    }
}

/// A package whose every dependency expression the system catalog settles
/// resolves to itself alone: none of its dependencies is added to the
/// auxiliary packages, whatever the auxiliary catalog lists under their
/// names.
pub proof fn law_system_first_package(w: World, plan: Seq<VersionRef>, name: Seq<char>, depth: int)
    requires
        depth <= w.limit,
        spec_lookup(w.aux, name) is Some,
        forall|i: int|
            0 <= i < spec_lookup(w.aux, name)->0.dep_groups(w.distro, w.arch).len()
                ==> system_settles(
                w,
                #[trigger] spec_expression(
                    spec_lookup(w.aux, name)->0.dep_groups(w.distro, w.arch)[i],
                ),
            ),
    ensures
        resolve_package(w, plan, name, depth) matches Ok((found, after)) && found == seq![name],
{
    let pkg = spec_lookup(w.aux, name)->0;
    let dep_groups = pkg.dep_groups(w.distro, w.arch);
    lemma_groups_system_first(w, plan, name, dep_groups, 0, depth);
    let rest = resolve_groups(w, plan, name, dep_groups, 0, depth);
    assert(seq![name] + rest->Ok_0.0 =~= seq![name]);
}

/// A package without dependency expressions resolves to exactly itself, and
/// marks nothing.
pub proof fn law_no_dependencies(w: World, plan: Seq<VersionRef>, name: Seq<char>, depth: int)
    requires
        depth <= w.limit,
        spec_lookup(w.aux, name) is Some,
        spec_lookup(w.aux, name)->0.dep_groups(w.distro, w.arch).len() == 0,
    ensures
        resolve_package(w, plan, name, depth) == Ok::<
            (Seq<Seq<char>>, Seq<VersionRef>),
            ResolveFailure,
        >((seq![name], plan)),
        w.limit >= 1 ==> resolve_roots(w, plan, seq![name], 0) == Ok::<
            (Seq<Seq<char>>, Seq<VersionRef>),
            ResolveFailure,
        >((seq![name], plan)),
{
    assert(seq![name] + Seq::<Seq<char>>::empty() =~= seq![name]);
    if w.limit >= 1 {
        let pkg = spec_lookup(w.aux, name)->0;
        assert(resolve_groups(w, plan, name, pkg.dep_groups(w.distro, w.arch), 0, 1) == Ok::<
            (Seq<Seq<char>>, Seq<VersionRef>),
            ResolveFailure,
        >((Seq::empty(), plan)));
        assert(resolve_package(w, plan, name, 1) == Ok::<
            (Seq<Seq<char>>, Seq<VersionRef>),
            ResolveFailure,
        >((seq![name], plan)));
        assert(resolve_roots(w, plan, seq![name], 1) == Ok::<
            (Seq<Seq<char>>, Seq<VersionRef>),
            ResolveFailure,
        >((Seq::empty(), plan)));
    }
}

/// Every auxiliary package that the resolution of a known package finds
/// is a package of the auxiliary catalog.
pub proof fn law_resolved_are_known(w: World, plan: Seq<VersionRef>, name: Seq<char>, depth: int)
    requires
        has_package(w.aux, name),
    ensures
        resolve_package(w, plan, name, depth) matches Ok((found, after)) ==> all_known(
            w.aux,
            found,
        ),
    decreases w.limit - depth + 1, 2int, 0int,
{
    if depth <= w.limit {
        let pkg = spec_lookup(w.aux, name)->0;
        let dep_groups = pkg.dep_groups(w.distro, w.arch);
        lemma_groups_known(w, plan, name, dep_groups, 0, depth);
        if let Ok((found, after)) = resolve_groups(w, plan, name, dep_groups, 0, depth) {
            assert(all_known(w.aux, seq![name]));
            lemma_all_known_add(w.aux, seq![name], found);
        }
    }
}

proof fn lemma_groups_known(
    w: World,
    plan: Seq<VersionRef>,
    package: Seq<char>,
    dep_groups: Seq<Seq<char>>,
    from: int,
    depth: int,
)
    ensures
        resolve_groups(w, plan, package, dep_groups, from, depth) matches Ok((found, after))
            ==> all_known(w.aux, found),
    decreases w.limit - depth + 1, 1int, dep_groups.len() - from,
{
    if !(depth > w.limit || from < 0 || from >= dep_groups.len()) {
        let alts = spec_expression(dep_groups[from]);
        lemma_alternatives_known(w, plan, package, dep_groups[from], alts, 0, depth);
        if let Ok((found, after)) = resolve_alternatives(
            w,
            plan,
            package,
            dep_groups[from],
            alts,
            0,
            depth,
        ) {
            lemma_groups_known(w, after, package, dep_groups, from + 1, depth);
            if let Ok((more, last)) = resolve_groups(
                w,
                after,
                package,
                dep_groups,
                from + 1,
                depth,
            ) {
                lemma_all_known_add(w.aux, found, more);
            }
        }
    }
}

proof fn lemma_alternatives_known(
    w: World,
    plan: Seq<VersionRef>,
    package: Seq<char>,
    expression: Seq<char>,
    alts: Seq<AlternativeModel>,
    from: int,
    depth: int,
)
    ensures
        resolve_alternatives(w, plan, package, expression, alts, from, depth) matches Ok(
            (found, after),
        ) ==> all_known(w.aux, found),
    decreases w.limit - depth + 1, 0int, alts.len() - from,
{
    if !(depth > w.limit || from < 0 || from >= alts.len()) {
        if system_choice(w.system, w.order, plan, alts[from]) is None {
            if aux_admits(w.aux, w.order, alts[from]) {
                law_resolved_are_known(w, plan, alts[from].pkgname, depth + 1);
            } else {
                lemma_alternatives_known(w, plan, package, expression, alts, from + 1, depth);
            }
        }
    }
}

proof fn lemma_roots_known(w: World, plan: Seq<VersionRef>, roots: Seq<Seq<char>>, from: int)
    requires
        all_known(w.aux, roots),
    ensures
        resolve_roots(w, plan, roots, from) matches Ok((found, after)) ==> all_known(w.aux, found),
    decreases roots.len() - from,
{
    if 0 <= from < roots.len() {
        law_resolved_are_known(w, plan, roots[from], 1);
        if let Ok((found, after)) = resolve_package(w, plan, roots[from], 1) {
            lemma_roots_known(w, after, roots, from + 1);
            if let Ok((more, last)) = resolve_roots(w, after, roots, from + 1) {
                lemma_all_known_add(w.aux, found, more);
            }
        }
    }
}

} // verus!
