use mist::apt::{AptCache, AptMarks, AptPackage, AptProvider};
use mist::cache::{Cache, CachePackageSource, MprCache, MprDependencyGroup, MprPackage, Relation};

fn group(distro: Option<&str>, arch: Option<&str>, packages: &[&str]) -> MprDependencyGroup {
    MprDependencyGroup::new(
        distro.map(|s| s.to_string()),
        arch.map(|s| s.to_string()),
        packages.iter().map(|s| s.to_string()).collect(),
    )
}

fn package(name: &str, base: &str, version: &str) -> MprPackage {
    MprPackage {
        pkgname: name.to_string(),
        pkgbase: base.to_string(),
        version: version.to_string(),
        pkgdesc: Some(format!("about {}", name)),
        maintainer: Some("someone".to_string()),
        num_votes: 3,
        popularity_bits: 0x3f80_0000,
        ood: None,
        depends: vec![],
        makedepends: vec![],
        checkdepends: vec![],
        conflicts: vec![],
        provides: vec![],
    }
}

fn apt_package(name: &str, candidate: Option<&str>, installed: bool) -> AptPackage {
    AptPackage {
        name: name.to_string(),
        arch: "amd64".to_string(),
        installed,
        candidate: candidate.map(|s| s.to_string()),
        summary: Some(format!("summary of {}", name)),
        description: Some(format!("description of {}", name)),
        versions: candidate.iter().map(|s| s.to_string()).collect(),
        providers: vec![],
        marks: AptMarks::none(),
        upgradable: false,
        auto_installed: false,
        auto_removable: false,
    }
}

#[test]
fn group_is_found_by_exact_keys() {
    let mut pkg = package("a", "a", "1");
    pkg.depends = vec![
        group(None, None, &["plain"]),
        group(Some("jammy"), None, &["for-jammy"]),
        group(None, Some("amd64"), &["for-amd64"]),
        group(Some("jammy"), Some("amd64"), &["for-both"]),
    ];
    assert_eq!(pkg.get_depends(None, None), Some(vec!["plain".to_string()]));
    assert_eq!(pkg.get_depends(Some("jammy"), None), Some(vec!["for-jammy".to_string()]));
    assert_eq!(pkg.get_depends(None, Some("amd64")), Some(vec!["for-amd64".to_string()]));
    assert_eq!(pkg.get_depends(Some("jammy"), Some("amd64")), Some(vec!["for-both".to_string()]));
    assert_eq!(pkg.get_depends(Some("focal"), None), None);
    assert_eq!(pkg.get_depends(Some("jammy"), Some("arm64")), None);
}

#[test]
fn first_group_of_equal_keys_counts() {
    let mut pkg = package("a", "a", "1");
    pkg.makedepends = vec![group(None, None, &["first"]), group(None, None, &["second"])];
    assert_eq!(pkg.get_makedepends(None, None), Some(vec!["first".to_string()]));
}

#[test]
fn most_specific_key_wins() {
    let mut pkg = package("a", "a", "1");
    pkg.depends = vec![
        group(None, None, &["plain"]),
        group(None, Some("amd64"), &["for-amd64"]),
        group(Some("jammy"), None, &["for-jammy"]),
        group(Some("jammy"), Some("amd64"), &["for-both"]),
    ];
    assert_eq!(pkg.get_system_depends("jammy", "amd64"), Some(vec!["for-both".to_string()]));
    assert_eq!(pkg.get_system_depends("jammy", "arm64"), Some(vec!["for-jammy".to_string()]));
    assert_eq!(pkg.get_system_depends("focal", "amd64"), Some(vec!["for-amd64".to_string()]));
    assert_eq!(pkg.get_system_depends("focal", "arm64"), Some(vec!["plain".to_string()]));
}

#[test]
fn distribution_alone_is_more_specific_than_architecture_alone() {
    let mut pkg = package("a", "a", "1");
    pkg.checkdepends =
        vec![group(None, Some("amd64"), &["for-amd64"]), group(Some("jammy"), None, &["for-jammy"])];
    assert_eq!(pkg.get_system_checkdepends("jammy", "amd64"), Some(vec!["for-jammy".to_string()]));
}

#[test]
fn groups_of_different_keys_are_not_merged() {
    let mut pkg = package("a", "a", "1");
    pkg.depends = vec![group(None, None, &["x", "y"]), group(Some("jammy"), None, &[])];
    assert_eq!(pkg.get_system_depends("jammy", "amd64"), Some(vec![]));
}

#[test]
fn absent_relation_gives_nothing() {
    let pkg = package("a", "a", "1");
    assert_eq!(pkg.get_system_depends("jammy", "amd64"), None);
    assert_eq!(pkg.get_system_conflicts("jammy", "amd64"), None);
    assert_eq!(pkg.get_system_provides("jammy", "amd64"), None);
    assert!(pkg.dep_groups("jammy", "amd64").is_empty());
}

#[test]
fn every_relation_reads_its_own_groups() {
    let mut pkg = package("a", "a", "1");
    pkg.depends = vec![group(None, None, &["d"])];
    pkg.makedepends = vec![group(None, None, &["m"])];
    pkg.checkdepends = vec![group(None, None, &["c"])];
    pkg.conflicts = vec![group(None, None, &["x"])];
    pkg.provides = vec![group(None, None, &["p"])];
    assert_eq!(pkg.get_system_pkgs(Relation::Depends, "j", "a"), Some(vec!["d".to_string()]));
    assert_eq!(pkg.get_system_pkgs(Relation::MakeDepends, "j", "a"), Some(vec!["m".to_string()]));
    assert_eq!(pkg.get_system_pkgs(Relation::CheckDepends, "j", "a"), Some(vec!["c".to_string()]));
    assert_eq!(pkg.get_system_pkgs(Relation::Conflicts, "j", "a"), Some(vec!["x".to_string()]));
    assert_eq!(pkg.get_system_pkgs(Relation::Provides, "j", "a"), Some(vec!["p".to_string()]));
    assert_eq!(pkg.get_conflicts(None, None), Some(vec!["x".to_string()]));
    assert_eq!(pkg.get_provides(None, None), Some(vec!["p".to_string()]));
    assert_eq!(pkg.get_system_makedepends("j", "a"), Some(vec!["m".to_string()]));
}

#[test]
fn dependency_expressions_come_in_relation_order() {
    let mut pkg = package("a", "a", "1");
    pkg.checkdepends = vec![group(None, None, &["c1"])];
    pkg.depends = vec![group(None, None, &["d1", "d2"])];
    pkg.makedepends = vec![group(None, None, &["m1"])];
    pkg.conflicts = vec![group(None, None, &["never"])];
    assert_eq!(pkg.dep_groups("jammy", "amd64"), vec!["d1", "d2", "m1", "c1"]);
}

#[test]
fn later_package_of_a_name_replaces_the_earlier() {
    let cache = MprCache::from_packages(vec![
        package("a", "a", "1"),
        package("b", "b", "1"),
        package("a", "a", "2"),
    ]);
    assert_eq!(cache.packages().len(), 2);
    assert_eq!(cache.get("a").unwrap().version, "2");
    assert_eq!(cache.get("b").unwrap().version, "1");
    assert!(cache.get("c").is_none());
    assert!(cache.contains_key("a"));
    assert!(!cache.contains_key("c"));
}

#[test]
fn vec_to_map_keeps_one_package_per_name() {
    let keyed = MprCache::vec_to_map(vec![
        package("x", "x", "1"),
        package("x", "x", "2"),
        package("x", "x", "3"),
    ]);
    assert_eq!(keyed.len(), 1);
    assert_eq!(keyed[0].version, "3");
}

#[test]
fn packages_that_stay_keep_their_order() {
    let keyed = MprCache::vec_to_map(vec![
        package("a", "a", "1"),
        package("b", "b", "1"),
        package("a", "a", "2"),
        package("c", "c", "1"),
        package("b", "b", "2"),
    ]);
    let found: Vec<(String, String)> =
        keyed.iter().map(|p| (p.pkgname.clone(), p.version.clone())).collect();
    assert_eq!(
        found,
        vec![
            ("a".to_string(), "2".to_string()),
            ("c".to_string(), "1".to_string()),
            ("b".to_string(), "2".to_string()),
        ]
    );
}

#[test]
fn duplicate_keeps_every_field() {
    let mut pkg = package("a", "base", "1");
    pkg.ood = Some(7);
    pkg.provides = vec![group(Some("jammy"), None, &["p"])];
    let copy = pkg.duplicate();
    assert_eq!(copy.pkgname, "a");
    assert_eq!(copy.pkgbase, "base");
    assert_eq!(copy.ood, Some(7));
    assert_eq!(copy.popularity_bits, 0x3f80_0000);
    assert_eq!(copy.provides[0].distro.as_deref(), Some("jammy"));
    assert_eq!(copy.provides[0].packages, vec!["p"]);
}

#[test]
fn virtual_packages_are_left_out() {
    let apt = AptCache {
        packages: vec![
            apt_package("real", Some("1.0"), false),
            apt_package("virtual", None, false),
            apt_package("other", Some("2.0"), true),
        ],
    };
    let names: Vec<String> =
        Cache::get_nonvirtual_packages(&apt).iter().map(|p| p.name.clone()).collect();
    assert_eq!(names, vec!["real", "other"]);
}

#[test]
fn a_name_resolves_to_one_record_of_each_origin() {
    let apt = AptCache {
        packages: vec![apt_package("both", Some("1.0"), false), apt_package("sys", Some("3"), true)],
    };
    let mpr = MprCache::from_packages(vec![package("both", "both-base", "2.0"), package("aux", "aux", "4")]);
    let cache = Cache::new(apt, mpr);

    let found = cache.pkgmap("both");
    assert_eq!(found.len(), 2);
    assert_eq!(found[0].source, CachePackageSource::Apt);
    assert_eq!(found[1].source, CachePackageSource::Mpr);

    let from_apt = cache.get_apt_pkg("both").unwrap();
    assert_eq!(from_apt.version, "1.0");
    assert_eq!(from_apt.arch.as_deref(), Some("amd64"));
    assert_eq!(from_apt.pkgbase, None);
    assert_eq!(from_apt.pkgdesc.as_deref(), Some("summary of both"));
    assert_eq!(from_apt.num_votes, None);

    let from_mpr = cache.get_mpr_pkg("both").unwrap();
    assert_eq!(from_mpr.version, "2.0");
    assert_eq!(from_mpr.pkgbase.as_deref(), Some("both-base"));
    assert_eq!(from_mpr.arch, None);
    assert_eq!(from_mpr.num_votes, Some(3));
    assert_eq!(from_mpr.maintainer.as_deref(), Some("someone"));

    assert!(cache.get_apt_pkg("aux").is_none());
    assert!(cache.get_mpr_pkg("sys").is_none());
    assert!(cache.get_apt_pkg("nothing").is_none());
    assert!(cache.pkgmap("nothing").is_empty());
    assert_eq!(cache.apt_cache().packages.len(), 2);
    assert_eq!(cache.mpr_cache().packages().len(), 2);
}

#[test]
fn virtual_system_package_has_no_record() {
    let apt = AptCache { packages: vec![apt_package("virtual", None, false)] };
    let cache = Cache::new(apt, MprCache::from_packages(vec![]));
    assert!(cache.get_apt_pkg("virtual").is_none());
    assert!(cache.apt_cache().get("virtual").is_some());
    assert!(cache.apt_cache().get_real("virtual").is_none());
}

#[test]
fn package_base_of_a_name() {
    let mpr = MprCache::from_packages(vec![package("tool-bin", "tool", "1"), package("tool", "tool", "1")]);
    let cache = Cache::new(AptCache { packages: vec![] }, mpr);
    assert_eq!(cache.find_pkgbase("tool-bin"), Some("tool".to_string()));
    assert_eq!(cache.find_pkgbase("tool"), Some("tool".to_string()));
    assert_eq!(cache.find_pkgbase("none"), None);
}

#[test]
fn provider_values_are_plain() {
    let p = AptProvider {
        package: "mawk".to_string(),
        version: "1.3".to_string(),
        provided_version: None,
    };
    assert_eq!(p.package, "mawk");
}
