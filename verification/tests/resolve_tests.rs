use mist::apt::{AptCache, AptMarks, AptPackage, AptProvider, AptVersion, InstallPlan};
use mist::cache::{Cache, MprCache, MprDependencyGroup, MprPackage};
use mist::resolve::{
    aux_can_satisfy, choose_from_system, resolve, resolve_mpr_package, DistroArch, ResolveError,
    DEFAULT_RECURSION_LIMIT,
};
use mist::depend::Alternative;
use mist::version::VersionOrder;

fn aux(name: &str, version: &str, depends: &[&str]) -> MprPackage {
    MprPackage {
        pkgname: name.to_string(),
        pkgbase: name.to_string(),
        version: version.to_string(),
        pkgdesc: None,
        maintainer: None,
        num_votes: 0,
        popularity_bits: 0,
        ood: None,
        depends: if depends.is_empty() {
            vec![]
        } else {
            vec![MprDependencyGroup::new(None, None, depends.iter().map(|s| s.to_string()).collect())]
        },
        makedepends: vec![],
        checkdepends: vec![],
        conflicts: vec![],
        provides: vec![],
    }
}

fn sys(name: &str, versions: &[&str], candidate: Option<&str>, installed: bool) -> AptPackage {
    AptPackage {
        name: name.to_string(),
        arch: "amd64".to_string(),
        installed,
        candidate: candidate.map(|s| s.to_string()),
        summary: None,
        description: None,
        versions: versions.iter().map(|s| s.to_string()).collect(),
        providers: vec![],
        marks: AptMarks::none(),
        upgradable: false,
        auto_installed: false,
        auto_removable: false,
    }
}

fn host() -> DistroArch {
    DistroArch { distro: "jammy".to_string(), arch: "amd64".to_string() }
}

fn order(versions: &[&str]) -> VersionOrder {
    let mut order = VersionOrder::new();
    for (rank, v) in versions.iter().enumerate() {
        order.push(v.to_string(), rank as u64);
    }
    order
}

fn cache(system: Vec<AptPackage>, auxiliary: Vec<MprPackage>) -> Cache {
    Cache::new(AptCache { packages: system }, MprCache::from_packages(auxiliary))
}

fn marked(plan: &InstallPlan) -> Vec<(String, String)> {
    plan.marked.iter().map(|v| (v.package.clone(), v.version.clone())).collect()
}

fn roots(names: &[&str]) -> Vec<String> {
    names.iter().map(|s| s.to_string()).collect()
}

#[test]
fn default_limit_is_fifty() {
    assert_eq!(DEFAULT_RECURSION_LIMIT, 50);
}

#[test]
fn package_without_dependencies_resolves_to_itself() {
    let c = cache(vec![], vec![aux("A", "1", &[])]);
    let r = resolve(&c, &order(&[]), &host(), &roots(&["A"]), 50, InstallPlan::new()).unwrap();
    assert_eq!(r.packages, vec!["A"]);
    assert!(r.plan.marked.is_empty());
}

#[test]
fn nothing_asked_nothing_found() {
    let c = cache(vec![], vec![]);
    let r = resolve(&c, &order(&[]), &host(), &vec![], 50, InstallPlan::new()).unwrap();
    assert!(r.packages.is_empty());
    assert!(r.plan.marked.is_empty());
}

#[test]
fn system_dependency_is_marked_and_not_built() {
    let c = cache(vec![sys("sys-pkg", &["2.1"], Some("2.1"), false)], vec![aux("A", "1", &["sys-pkg>=2.0"])]);
    let r = resolve(&c, &order(&["2.0", "2.1"]), &host(), &roots(&["A"]), 50, InstallPlan::new())
        .unwrap();
    assert_eq!(r.packages, vec!["A"]);
    assert_eq!(marked(&r.plan), vec![("sys-pkg".to_string(), "2.1".to_string())]);
}

#[test]
fn missing_alternative_falls_to_the_next() {
    let c = cache(vec![], vec![aux("A", "1", &["B|C"]), aux("C", "1", &[])]);
    let r = resolve(&c, &order(&[]), &host(), &roots(&["A"]), 50, InstallPlan::new()).unwrap();
    assert_eq!(r.packages, vec!["A", "C"]);
    assert!(r.plan.marked.is_empty());
}

#[test]
fn system_catalog_comes_first() {
    let c = cache(
        vec![sys("dep", &["1.0"], Some("1.0"), false)],
        vec![aux("A", "1", &["dep"]), aux("dep", "1.0", &[])],
    );
    let r = resolve(&c, &order(&["1.0"]), &host(), &roots(&["A"]), 50, InstallPlan::new()).unwrap();
    assert_eq!(r.packages, vec!["A"]);
    assert_eq!(marked(&r.plan), vec![("dep".to_string(), "1.0".to_string())]);
}

#[test]
fn auxiliary_catalog_serves_where_the_system_version_does_not_qualify() {
    let c = cache(
        vec![sys("dep", &["1.0"], Some("1.0"), false)],
        vec![aux("A", "1", &["dep>=2.0"]), aux("dep", "2.0", &[])],
    );
    let r = resolve(&c, &order(&["1.0", "2.0"]), &host(), &roots(&["A"]), 50, InstallPlan::new())
        .unwrap();
    assert_eq!(r.packages, vec!["A", "dep"]);
    assert!(r.plan.marked.is_empty());
}

#[test]
fn installed_candidate_needs_no_mark() {
    let c = cache(vec![sys("dep", &["1.0", "2.0"], Some("2.0"), true)], vec![aux("A", "1", &["dep"])]);
    let r = resolve(&c, &order(&["1.0", "2.0"]), &host(), &roots(&["A"]), 50, InstallPlan::new())
        .unwrap();
    assert_eq!(r.packages, vec!["A"]);
    assert!(r.plan.marked.is_empty());
}

#[test]
fn first_qualifying_version_is_marked_not_the_newest() {
    let c = cache(vec![sys("dep", &["1.0", "2.0"], Some("2.0"), false)], vec![aux("A", "1", &["dep"])]);
    let r = resolve(&c, &order(&["1.0", "2.0"]), &host(), &roots(&["A"]), 50, InstallPlan::new())
        .unwrap();
    assert_eq!(marked(&r.plan), vec![("dep".to_string(), "1.0".to_string())]);
}

#[test]
fn a_mark_is_seen_by_later_steps() {
    let c = cache(
        vec![sys("dep", &["1.0", "2.0"], Some("2.0"), true)],
        vec![aux("A", "1", &["dep<2.0", "dep<2.0"])],
    );
    let r = resolve(&c, &order(&["1.0", "2.0"]), &host(), &roots(&["A"]), 50, InstallPlan::new())
        .unwrap();
    assert_eq!(marked(&r.plan), vec![("dep".to_string(), "1.0".to_string())]);
}

#[test]
fn provider_satisfies_a_dependency() {
    let mut awk = sys("awk", &[], Some("1"), false);
    awk.providers = vec![
        AptProvider { package: "mawk".to_string(), version: "1.3".to_string(), provided_version: None },
        AptProvider {
            package: "gawk".to_string(),
            version: "5.1".to_string(),
            provided_version: Some("5.1".to_string()),
        },
    ];
    let c = cache(vec![awk, sys("gawk", &["5.1"], Some("5.1"), false)], vec![
        aux("A", "1", &["awk"]),
        aux("B", "1", &["awk>=5.0"]),
    ]);
    let versions = order(&["1.3", "5.0", "5.1"]);
    let a = resolve(&c, &versions, &host(), &roots(&["A"]), 50, InstallPlan::new()).unwrap();
    assert_eq!(marked(&a.plan), vec![("mawk".to_string(), "1.3".to_string())]);
    let b = resolve(&c, &versions, &host(), &roots(&["B"]), 50, InstallPlan::new()).unwrap();
    assert_eq!(marked(&b.plan), vec![("gawk".to_string(), "5.1".to_string())]);
}

#[test]
fn virtual_system_package_does_not_satisfy() {
    let mut virt = sys("virt", &[], None, false);
    virt.providers =
        vec![AptProvider { package: "impl".to_string(), version: "1".to_string(), provided_version: None }];
    let c = cache(vec![virt], vec![aux("A", "1", &["virt"])]);
    let r = resolve(&c, &order(&["1"]), &host(), &roots(&["A"]), 50, InstallPlan::new());
    match r {
        Err(ResolveError::UnsatisfiableDependency { package, expression }) => {
            assert_eq!(package, "A");
            assert_eq!(expression, "virt");
        }
        other => panic!("unexpected: {:?}", other),
    }
}

#[test]
fn unsatisfiable_dependency_names_package_and_expression() {
    let c = cache(vec![], vec![aux("A", "1", &["B"]), aux("B", "1", &["gone>=1|lost"])]);
    let r = resolve(&c, &order(&["1"]), &host(), &roots(&["A"]), 50, InstallPlan::new());
    match r {
        Err(ResolveError::UnsatisfiableDependency { package, expression }) => {
            assert_eq!(package, "B");
            assert_eq!(expression, "gone>=1|lost");
        }
        other => panic!("unexpected: {:?}", other),
    }
}

#[test]
fn transitive_dependencies_follow_their_package() {
    let c = cache(vec![], vec![
        aux("A", "1", &["B", "D"]),
        aux("B", "1", &["C"]),
        aux("C", "1", &[]),
        aux("D", "1", &[]),
    ]);
    let r = resolve(&c, &order(&[]), &host(), &roots(&["A"]), 50, InstallPlan::new()).unwrap();
    assert_eq!(r.packages, vec!["A", "B", "C", "D"]);
}

#[test]
fn roots_are_grouped_and_duplicates_kept() {
    let c = cache(vec![], vec![aux("A", "1", &["C"]), aux("B", "1", &["C"]), aux("C", "1", &[])]);
    let r = resolve(&c, &order(&[]), &host(), &roots(&["A", "B"]), 50, InstallPlan::new()).unwrap();
    assert_eq!(r.packages, vec!["A", "C", "B", "C"]);
}

#[test]
fn chain_longer_than_the_limit_fails() {
    let c = cache(vec![], vec![aux("A", "1", &["B"]), aux("B", "1", &["C"]), aux("C", "1", &[])]);
    let ok = resolve(&c, &order(&[]), &host(), &roots(&["A"]), 3, InstallPlan::new()).unwrap();
    assert_eq!(ok.packages, vec!["A", "B", "C"]);
    let r = resolve(&c, &order(&[]), &host(), &roots(&["A"]), 2, InstallPlan::new());
    match r {
        Err(ResolveError::RecursionExceeded { limit }) => assert_eq!(limit, 2),
        other => panic!("unexpected: {:?}", other),
    }
}

#[test]
fn circle_ends_at_the_limit() {
    let c = cache(vec![], vec![aux("A", "1", &["B"]), aux("B", "1", &["A"])]);
    let r = resolve(&c, &order(&[]), &host(), &roots(&["A"]), 50, InstallPlan::new());
    match r {
        Err(ResolveError::RecursionExceeded { limit }) => assert_eq!(limit, 50),
        other => panic!("unexpected: {:?}", other),
    }
}

#[test]
fn limit_below_one_refuses_every_root() {
    let c = cache(vec![], vec![aux("A", "1", &[])]);
    let r = resolve(&c, &order(&[]), &host(), &roots(&["A"]), 0, InstallPlan::new());
    assert!(matches!(r, Err(ResolveError::RecursionExceeded { limit: 0 })));
    let r = resolve(&c, &order(&[]), &host(), &roots(&["A"]), i32::MAX, InstallPlan::new()).unwrap();
    assert_eq!(r.packages, vec!["A"]);
}

#[test]
fn one_package_at_a_given_depth() {
    let c = cache(vec![], vec![aux("A", "1", &["B"]), aux("B", "1", &[])]);
    let r = resolve_mpr_package(&c, &order(&[]), &host(), "A", 1, 2, InstallPlan::new()).unwrap();
    assert_eq!(r.packages, vec!["A", "B"]);
    let r = resolve_mpr_package(&c, &order(&[]), &host(), "A", 2, 2, InstallPlan::new());
    assert!(matches!(r, Err(ResolveError::RecursionExceeded { limit: 2 })));
    let r = resolve_mpr_package(&c, &order(&[]), &host(), "A", i32::MAX, i32::MAX, InstallPlan::new());
    assert!(matches!(r, Err(ResolveError::RecursionExceeded { limit: i32::MAX })));
}

#[test]
fn earlier_marks_stay_in_the_plan() {
    let c = cache(vec![sys("dep", &["1.0"], Some("1.0"), false)], vec![aux("A", "1", &["dep"])]);
    let mut plan = InstallPlan::new();
    plan.mark_install(AptVersion { package: "before".to_string(), version: "9".to_string() });
    let r = resolve(&c, &order(&["1.0"]), &host(), &roots(&["A"]), 50, plan).unwrap();
    assert_eq!(
        marked(&r.plan),
        vec![("before".to_string(), "9".to_string()), ("dep".to_string(), "1.0".to_string())]
    );
}

#[test]
fn dependencies_of_the_most_specific_key_are_resolved() {
    let mut a = aux("A", "1", &[]);
    a.depends = vec![
        MprDependencyGroup::new(None, None, vec!["plain".to_string()]),
        MprDependencyGroup::new(Some("jammy".to_string()), None, vec!["special".to_string()]),
    ];
    a.makedepends = vec![MprDependencyGroup::new(None, None, vec!["maker".to_string()])];
    let c = cache(vec![], vec![a, aux("plain", "1", &[]), aux("special", "1", &[]), aux("maker", "1", &[])]);
    let r = resolve(&c, &order(&[]), &host(), &roots(&["A"]), 50, InstallPlan::new()).unwrap();
    assert_eq!(r.packages, vec!["A", "special", "maker"]);
}

#[test]
fn system_choice_by_itself() {
    let c = cache(vec![sys("dep", &["1.0"], Some("1.0"), false)], vec![]);
    let mut plan = InstallPlan::new();
    assert!(choose_from_system(&c, &order(&["1.0"]), &mut plan, &Alternative::parse("dep")));
    assert_eq!(marked(&plan), vec![("dep".to_string(), "1.0".to_string())]);
    assert!(!choose_from_system(&c, &order(&["1.0"]), &mut plan, &Alternative::parse("other")));
    assert!(!choose_from_system(&c, &order(&["1.0"]), &mut plan, &Alternative::parse("dep>1.0")));
    assert_eq!(plan.marked.len(), 1);
}

#[test]
fn auxiliary_choice_by_itself() {
    let c = cache(vec![], vec![aux("B", "2.0", &[])]);
    let versions = order(&["1.0", "2.0"]);
    assert!(aux_can_satisfy(&c, &versions, &Alternative::parse("B")));
    assert!(aux_can_satisfy(&c, &versions, &Alternative::parse("B>=1.0")));
    assert!(!aux_can_satisfy(&c, &versions, &Alternative::parse("B<2.0")));
    assert!(!aux_can_satisfy(&c, &versions, &Alternative::parse("C")));
}

#[test]
fn plan_tells_the_active_candidate() {
    let system = AptCache { packages: vec![sys("dep", &["1.0", "2.0"], Some("2.0"), true)] };
    let mut plan = InstallPlan::new();
    let v1 = AptVersion { package: "dep".to_string(), version: "1.0".to_string() };
    let v2 = AptVersion { package: "dep".to_string(), version: "2.0".to_string() };
    assert!(plan.is_installed_candidate(&system, &v2));
    assert!(!plan.is_installed_candidate(&system, &v1));
    assert!(plan.planned_candidate("dep").is_none());
    plan.mark_install(v1.duplicate());
    assert_eq!(plan.planned_candidate("dep").unwrap(), "1.0");
    assert!(plan.is_installed_candidate(&system, &v1));
    assert!(!plan.is_installed_candidate(&system, &v2));
    let gone = AptVersion { package: "gone".to_string(), version: "1.0".to_string() };
    assert!(!plan.is_installed_candidate(&system, &gone));
}

#[test]
fn versions_satisfying_lists_own_versions_before_providers() {
    let mut pkg = sys("dep", &["1.0", "2.0", "3.0"], Some("3.0"), false);
    pkg.providers = vec![
        AptProvider { package: "alt".to_string(), version: "7".to_string(), provided_version: Some("2.0".to_string()) },
        AptProvider { package: "bare".to_string(), version: "8".to_string(), provided_version: None },
    ];
    let versions = order(&["1.0", "2.0", "3.0"]);
    let all: Vec<(String, String)> = pkg
        .versions_satisfying(&versions, &None)
        .iter()
        .map(|v| (v.package.clone(), v.version.clone()))
        .collect();
    assert_eq!(
        all,
        vec![
            ("dep".to_string(), "1.0".to_string()),
            ("dep".to_string(), "2.0".to_string()),
            ("dep".to_string(), "3.0".to_string()),
            ("alt".to_string(), "7".to_string()),
            ("bare".to_string(), "8".to_string()),
        ]
    );
    let constraint = Alternative::parse("dep>=2.0").constraint;
    let some: Vec<(String, String)> = pkg
        .versions_satisfying(&versions, &constraint)
        .iter()
        .map(|v| (v.package.clone(), v.version.clone()))
        .collect();
    assert_eq!(
        some,
        vec![
            ("dep".to_string(), "2.0".to_string()),
            ("dep".to_string(), "3.0".to_string()),
            ("alt".to_string(), "7".to_string()),
        ]
    );
}
