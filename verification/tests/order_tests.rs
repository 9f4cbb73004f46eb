use mist::apt::AptCache;
use mist::cache::{Cache, MprCache, MprDependencyGroup, MprPackage};
use mist::install_util::{
    dependency_matrix, dependency_names, order_mpr_packages, pkgnames_to_pkgbases, provided_names,
    share_a_name, OrderError,
};
use mist::resolve::DistroArch;

fn aux(name: &str, base: &str, depends: &[&str], provides: &[&str]) -> MprPackage {
    let list = |items: &[&str]| {
        if items.is_empty() {
            vec![]
        } else {
            vec![MprDependencyGroup::new(None, None, items.iter().map(|s| s.to_string()).collect())]
        }
    };
    MprPackage {
        pkgname: name.to_string(),
        pkgbase: base.to_string(),
        version: "1".to_string(),
        pkgdesc: None,
        maintainer: None,
        num_votes: 0,
        popularity_bits: 0,
        ood: None,
        depends: list(depends),
        makedepends: vec![],
        checkdepends: vec![],
        conflicts: vec![],
        provides: list(provides),
    }
}

fn cache(auxiliary: Vec<MprPackage>) -> Cache {
    Cache::new(AptCache { packages: vec![] }, MprCache::from_packages(auxiliary))
}

fn host() -> DistroArch {
    DistroArch { distro: "jammy".to_string(), arch: "amd64".to_string() }
}

fn names(list: &[&str]) -> Vec<String> {
    list.iter().map(|s| s.to_string()).collect()
}

fn batches(list: &[&[&str]]) -> Vec<Vec<String>> {
    list.iter().map(|b| names(b)).collect()
}

#[test]
fn chain_is_ordered_from_the_leaf() {
    let c = cache(vec![aux("A", "A", &["B"], &[]), aux("B", "B", &["C"], &[]), aux("C", "C", &[], &[])]);
    let r = order_mpr_packages(&c, &host(), &names(&["A", "B", "C"])).unwrap();
    assert_eq!(r, batches(&[&["C"], &["B"], &["A"]]));
}

#[test]
fn circle_is_reported() {
    let c = cache(vec![aux("A", "A", &["B"], &[]), aux("B", "B", &["A"], &[])]);
    match order_mpr_packages(&c, &host(), &names(&["A", "B"])) {
        Err(OrderError::CyclicDependency { cycle }) => {
            let mut sorted = cycle.clone();
            sorted.sort();
            assert_eq!(sorted, vec!["A", "B"]);
        }
        other => panic!("unexpected: {:?}", other),
    }
}

#[test]
fn circle_beside_other_packages_names_only_the_circle() {
    let c = cache(vec![
        aux("top", "top", &["A"], &[]),
        aux("A", "A", &["B"], &[]),
        aux("B", "B", &["C"], &[]),
        aux("C", "C", &["A", "leaf"], &[]),
        aux("leaf", "leaf", &[], &[]),
    ]);
    match order_mpr_packages(&c, &host(), &names(&["top", "A", "B", "C", "leaf"])) {
        Err(OrderError::CyclicDependency { cycle }) => {
            assert_eq!(cycle.len(), 3);
            let at = cycle.iter().position(|n| n == "A").unwrap();
            assert_eq!(cycle[(at + 1) % 3], "B");
            assert_eq!(cycle[(at + 2) % 3], "C");
        }
        other => panic!("unexpected: {:?}", other),
    }
}

#[test]
fn nothing_to_order_gives_one_empty_batch() {
    let c = cache(vec![]);
    assert_eq!(order_mpr_packages(&c, &host(), &vec![]).unwrap(), batches(&[&[]]));
}

#[test]
fn independent_packages_share_batch_zero_in_the_order_asked() {
    let c = cache(vec![aux("x", "x", &[], &[]), aux("y", "y", &[], &[]), aux("z", "z", &[], &[])]);
    let r = order_mpr_packages(&c, &host(), &names(&["z", "x", "y"])).unwrap();
    assert_eq!(r, batches(&[&["z", "x", "y"]]));
}

#[test]
fn package_goes_after_its_deepest_dependency() {
    let c = cache(vec![
        aux("app", "app", &["lib", "tool"], &[]),
        aux("lib", "lib", &["core"], &[]),
        aux("tool", "tool", &[], &[]),
        aux("core", "core", &[], &[]),
    ]);
    let r = order_mpr_packages(&c, &host(), &names(&["app", "lib", "tool", "core"])).unwrap();
    assert_eq!(r, batches(&[&["tool", "core"], &["lib"], &["app"]]));
}

#[test]
fn dependency_outside_the_plan_does_not_count() {
    let c = cache(vec![aux("A", "A", &["B", "system-lib"], &[]), aux("B", "B", &[], &[])]);
    let r = order_mpr_packages(&c, &host(), &names(&["A"])).unwrap();
    assert_eq!(r, batches(&[&["A"]]));
}

#[test]
fn provided_name_counts_as_the_provider() {
    let c = cache(vec![aux("player", "player", &["codec"], &[]), aux("codec-bin", "codec", &[], &["codec=2"])]);
    let r = order_mpr_packages(&c, &host(), &names(&["player", "codec-bin"])).unwrap();
    assert_eq!(r, batches(&[&["codec-bin"], &["player"]]));
}

#[test]
fn every_alternative_is_a_dependency() {
    let c = cache(vec![
        aux("A", "A", &["B|C>=2"], &[]),
        aux("B", "B", &[], &[]),
        aux("C", "C", &["B"], &[]),
    ]);
    let r = order_mpr_packages(&c, &host(), &names(&["A", "B", "C"])).unwrap();
    assert_eq!(r, batches(&[&["B"], &["C"], &["A"]]));
}

#[test]
fn a_package_that_provides_what_it_needs_is_no_circle() {
    let c = cache(vec![aux("self", "self", &["self", "alias"], &["alias"])]);
    let r = order_mpr_packages(&c, &host(), &names(&["self"])).unwrap();
    assert_eq!(r, batches(&[&["self"]]));
}

#[test]
fn repeated_names_land_in_the_same_batch() {
    let c = cache(vec![aux("A", "A", &["C"], &[]), aux("B", "B", &["C"], &[]), aux("C", "C", &[], &[])]);
    let r = order_mpr_packages(&c, &host(), &names(&["A", "C", "B", "C"])).unwrap();
    assert_eq!(r, batches(&[&["C", "C"], &["A", "B"]]));
}

#[test]
fn names_a_package_depends_on_and_provides() {
    let c = cache(vec![aux("A", "A", &["B|C>=2", "D"], &["virt=1", "other"])]);
    assert_eq!(dependency_names(&c, &host(), "A"), vec!["B", "C", "D"]);
    assert_eq!(provided_names(&c, &host(), "A"), vec!["virt", "other", "A"]);
    assert!(dependency_names(&c, &host(), "unknown").is_empty());
    assert_eq!(provided_names(&c, &host(), "unknown"), vec!["unknown"]);
}

#[test]
fn sharing_a_name() {
    assert!(share_a_name(&names(&["a", "b"]), &names(&["c", "b"])));
    assert!(!share_a_name(&names(&["a", "b"]), &names(&["c", "d"])));
    assert!(!share_a_name(&names(&[]), &names(&["c"])));
    assert!(!share_a_name(&names(&["c"]), &names(&[])));
}

#[test]
fn matrix_holds_who_depends_on_whom() {
    let c = cache(vec![aux("A", "A", &["B"], &[]), aux("B", "B", &[], &[])]);
    let m = dependency_matrix(&c, &host(), &names(&["A", "B"]));
    assert_eq!(m, vec![vec![false, true], vec![false, false]]);
}

#[test]
fn names_become_package_bases() {
    let c = cache(vec![
        aux("tool-bin", "tool", &[], &[]),
        aux("tool-doc", "tool", &[], &[]),
        aux("lib", "lib", &[], &[]),
    ]);
    let r = pkgnames_to_pkgbases(&c, &batches(&[&["lib"], &["tool-bin", "tool-doc"]]));
    assert_eq!(r, batches(&[&["lib"], &["tool"]]));
}

#[test]
fn a_base_stays_in_its_earliest_batch() {
    let c = cache(vec![
        aux("cargo", "rustc", &[], &[]),
        aux("rustc", "rustc", &[], &[]),
        aux("toast", "toast", &[], &[]),
    ]);
    let r = pkgnames_to_pkgbases(&c, &batches(&[&["cargo"], &["rustc", "toast"]]));
    assert_eq!(r, batches(&[&["rustc"], &["toast"]]));
}

#[test]
fn a_batch_may_be_left_empty() {
    let c = cache(vec![aux("a1", "a", &[], &[]), aux("a2", "a", &[], &[])]);
    let r = pkgnames_to_pkgbases(&c, &batches(&[&["a1"], &["a2"], &["a1", "a2"]]));
    assert_eq!(r, batches(&[&["a"], &[], &[]]));
    assert_eq!(pkgnames_to_pkgbases(&c, &vec![]), Vec::<Vec<String>>::new());
}

#[test]
fn collapsing_twice_is_collapsing_once() {
    let c = cache(vec![
        aux("tool", "tool", &[], &[]),
        aux("tool-doc", "tool", &[], &[]),
        aux("lib", "lib", &[], &[]),
    ]);
    let once = pkgnames_to_pkgbases(&c, &batches(&[&["lib", "tool-doc"], &["tool", "lib"]]));
    assert_eq!(once, batches(&[&["lib", "tool"], &[]]));
    let twice = pkgnames_to_pkgbases(&c, &once);
    assert_eq!(twice, once);
}
