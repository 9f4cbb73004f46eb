use mist::apt::{AptCache, AptMarks, AptPackage, AptProvider};
use mist::cache::{MprCache, MprDependencyGroup, MprPackage};
use mist::ranking::{rank_sorted, versions_in_use};
use mist::upgrade::InstalledPackage;
use mist::version::Comparison;

fn names(list: &[&str]) -> Vec<String> {
    list.iter().map(|s| s.to_string()).collect()
}

fn group(distro: Option<&str>, packages: &[&str]) -> MprDependencyGroup {
    MprDependencyGroup::new(distro.map(|s| s.to_string()), None, names(packages))
}

#[test]
fn every_version_in_use_is_collected() {
    let system = AptCache {
        packages: vec![
            AptPackage {
                name: "awk".to_string(),
                arch: "amd64".to_string(),
                installed: false,
                candidate: Some("1.1".to_string()),
                summary: None,
                description: None,
                versions: names(&["1.0", "1.1"]),
                providers: vec![
                    AptProvider {
                        package: "mawk".to_string(),
                        version: "1.3".to_string(),
                        provided_version: None,
                    },
                    AptProvider {
                        package: "gawk".to_string(),
                        version: "5.1".to_string(),
                        provided_version: Some("5.0".to_string()),
                    },
                ],
                marks: AptMarks::none(),
                upgradable: false,
                auto_installed: false,
                auto_removable: false,
            },
        ],
    };
    let mpr = MprCache::from_packages(vec![MprPackage {
        pkgname: "toast".to_string(),
        pkgbase: "toast".to_string(),
        version: "0.4".to_string(),
        pkgdesc: None,
        maintainer: None,
        num_votes: 0,
        popularity_bits: 0,
        ood: None,
        depends: vec![group(None, &["a>=2.0|b", "c"]), group(Some("jammy"), &["d<3"])],
        makedepends: vec![group(None, &["e=4"])],
        checkdepends: vec![group(None, &["f>5"])],
        conflicts: vec![group(None, &["g<=6"])],
        provides: vec![group(None, &["h=7"])],
    }]);
    let installed = vec![InstalledPackage {
        name: "toast".to_string(),
        version: "0.3".to_string(),
        mpr_package: true,
    }];
    assert_eq!(
        versions_in_use(&system, &mpr, &installed),
        names(&["1.0", "1.1", "1.3", "5.1", "5.0", "0.4", "2.0", "3", "4", "5", "6", "0.3"])
    );
    assert!(versions_in_use(&AptCache { packages: vec![] }, &MprCache::from_packages(vec![]), &vec![])
        .is_empty());
}

#[test]
fn sorted_versions_are_ranked() {
    let order = rank_sorted(
        names(&["1.0", "1.0-0", "2.0", "2.0", "3.0"]),
        &vec![true, true, false, true, false],
    );
    assert_eq!(order.rank("1.0"), Some(0));
    assert_eq!(order.rank("1.0-0"), Some(0));
    assert_eq!(order.rank("2.0"), Some(1));
    assert_eq!(order.rank("3.0"), Some(2));
    assert_eq!(order.compare("1.0", "1.0-0"), Some(Comparison::Equal));
    assert_eq!(order.compare("1.0-0", "2.0"), Some(Comparison::Less));
    assert_eq!(order.compare("3.0", "2.0"), Some(Comparison::Greater));
    assert_eq!(rank_sorted(vec![], &vec![]).rank("1"), None);
}
