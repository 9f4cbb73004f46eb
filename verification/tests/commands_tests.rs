use mist::apt::{AptCache, AptMarks, AptPackage};
use mist::cache::{Cache, MprCache, MprDependencyGroup, MprPackage};
use mist::clone::clone;
use mist::comment::{body_around, comment};
use mist::install::{install, origin, Origin};
use mist::install_util::{clone_mpr_pkgs, git_clone_command, RepoAction};
use mist::list::{list, names_of_both};
use mist::mpr_cache::{new as cache_is_stale, ArchiveError, MAX_AGE_SECS};
use mist::quick_list::quick_list;
use mist::remove::remove;
use mist::request::{get as after_failure, RETRY_DELAY_MS};
use mist::search::{answers_query, search};
use mist::style::{
    generate_pkginfo_entries, generate_pkginfo_entry, join_entries, ood_date, ubuntu_orange,
    ubuntu_purple, Rgb,
};
use mist::transaction::{change, deb_path, flatten, lines, review_files, transaction, Change};
use mist::update::{control_file, needs_build};
use mist::upgrade::{find_installed, upgrade, InstalledPackage};
use mist::version::VersionOrder;

fn names(list: &[&str]) -> Vec<String> {
    list.iter().map(|s| s.to_string()).collect()
}

fn aux(name: &str, base: &str, version: &str, desc: Option<&str>) -> MprPackage {
    MprPackage {
        pkgname: name.to_string(),
        pkgbase: base.to_string(),
        version: version.to_string(),
        pkgdesc: desc.map(|s| s.to_string()),
        maintainer: Some("kavplex".to_string()),
        num_votes: 4,
        popularity_bits: 0x3f00_0000,
        ood: None,
        depends: vec![],
        makedepends: vec![],
        checkdepends: vec![],
        conflicts: vec![],
        provides: vec![],
    }
}

fn sys(name: &str, candidate: Option<&str>, installed: bool) -> AptPackage {
    AptPackage {
        name: name.to_string(),
        arch: "amd64".to_string(),
        installed,
        candidate: candidate.map(|s| s.to_string()),
        summary: Some(format!("{} in short", name)),
        description: Some(format!("{} at length", name)),
        versions: candidate.iter().map(|s| s.to_string()).collect(),
        providers: vec![],
        marks: AptMarks::none(),
        upgradable: false,
        auto_installed: false,
        auto_removable: false,
    }
}

fn cache(system: Vec<AptPackage>, auxiliary: Vec<MprPackage>) -> Cache {
    Cache::new(AptCache { packages: system }, MprCache::from_packages(auxiliary))
}

fn sample() -> Cache {
    cache(
        vec![sys("bash", Some("5.1"), true), sys("both", Some("1.0"), false), sys("virtual", None, false)],
        vec![aux("both", "both", "2.0", Some("from source")), aux("toast", "toast", "0.4", None)],
    )
}

#[test]
fn names_are_sorted_by_origin() {
    let c = sample();
    assert_eq!(origin(&c, "bash"), Origin::Apt);
    assert_eq!(origin(&c, "toast"), Origin::Mpr);
    assert_eq!(origin(&c, "both"), Origin::Both);
    assert_eq!(origin(&c, "virtual"), Origin::Apt);
    assert_eq!(origin(&c, "nothing"), Origin::Unfindable);
    let r = install(&c, &names(&["toast", "x", "bash", "both", "y", "virtual"]));
    assert_eq!(r.unfindable, names(&["x", "y"]));
    assert_eq!(r.apt_pkgs, names(&["bash", "virtual"]));
    assert_eq!(r.mpr_pkgs, names(&["toast"]));
    assert_eq!(r.both, names(&["both"]));
}

#[test]
fn listing_shows_what_is_asked_and_found() {
    let c = sample();
    assert_eq!(list(&c, &names(&["toast", "nothing", "bash", "toast"])), names(&["toast", "bash", "toast"]));
}

#[test]
fn listing_without_names_shows_everything_once() {
    let c = sample();
    assert_eq!(names_of_both(&c), names(&["bash", "both", "both", "toast"]));
    assert_eq!(list(&c, &names(&[])), names(&["bash", "both", "toast"]));
}

#[test]
fn search_looks_at_names_and_descriptions() {
    let c = sample();
    assert_eq!(search(&c, &names(&["length"])), names(&["bash", "both"]));
    assert_eq!(search(&c, &names(&["source"])), names(&["both"]));
    assert_eq!(search(&c, &names(&["toast", "ba"])), names(&["toast", "bash"]));
    assert_eq!(search(&c, &names(&["o", "bash"])), names(&["both", "toast", "bash"]));
    assert!(search(&c, &names(&["zzz"])).is_empty());
    assert!(search(&c, &names(&[])).is_empty());
}

#[test]
fn a_query_is_answered_by_name_or_description() {
    assert!(answers_query("toast", &None, "oas"));
    assert!(answers_query("toast", &Some("bread".to_string()), "rea"));
    assert!(!answers_query("toast", &Some("bread".to_string()), "x"));
    assert!(answers_query("toast", &None, ""));
}

#[test]
fn quick_list_completes_a_prefix() {
    let c = sample();
    assert_eq!(quick_list(&c, "b", false, false), names(&["bash", "both", "both"]));
    assert_eq!(quick_list(&c, "b", true, false), names(&["bash", "both"]));
    assert_eq!(quick_list(&c, "b", false, true), names(&["both"]));
    assert_eq!(quick_list(&c, "to", false, false), names(&["toast"]));
    assert!(quick_list(&c, "b", true, true).is_empty());
    assert!(quick_list(&c, "virt", false, false).is_empty());
}

#[test]
fn removal_deletes_what_is_installed() {
    let mut old = sys("old-lib", Some("1"), true);
    old.auto_removable = true;
    let c = cache(vec![sys("bash", Some("5.1"), true), sys("curl", Some("7"), false), old], vec![]);
    let plan = remove(&c, &names(&["bash", "curl", "unknown"]), false);
    assert_eq!(plan.delete, names(&["bash"]));
    assert_eq!(plan.not_installed, names(&["curl"]));
    let plan = remove(&c, &names(&["bash"]), true);
    assert_eq!(plan.delete, names(&["bash", "old-lib"]));
    assert!(plan.not_installed.is_empty());
}

#[test]
fn upgrade_sorts_packages_by_who_upgrades_them() {
    let mut bash = sys("bash", Some("5.2"), true);
    bash.upgradable = true;
    let mut toast = sys("toast", Some("0.3"), true);
    toast.upgradable = true;
    let fresh = sys("fresh", Some("1"), true);
    let mut unlisted = sys("unlisted", Some("1"), true);
    unlisted.upgradable = true;
    let c = cache(vec![bash, toast, fresh, unlisted], vec![aux("toast", "toast", "0.4", None)]);
    let mut order = VersionOrder::new();
    order.push("0.3".to_string(), 3);
    order.push("0.4".to_string(), 4);
    let installed = vec![
        InstalledPackage { name: "bash".to_string(), version: "5.1".to_string(), mpr_package: false },
        InstalledPackage { name: "toast".to_string(), version: "0.4".to_string(), mpr_package: true },
        InstalledPackage { name: "fresh".to_string(), version: "1".to_string(), mpr_package: false },
        InstalledPackage { name: "toast".to_string(), version: "0.3".to_string(), mpr_package: true },
    ];
    assert_eq!(find_installed(&installed, "toast").unwrap().version, "0.3");
    assert!(find_installed(&installed, "unlisted").is_none());
    let plan = upgrade(&c, &order, &installed, false, false);
    assert_eq!(plan.apt_pkgs, names(&["bash"]));
    assert_eq!(plan.mpr_pkgs, names(&["toast"]));
    let plan = upgrade(&c, &order, &installed, true, false);
    assert_eq!(plan.apt_pkgs, names(&["bash"]));
    assert!(plan.mpr_pkgs.is_empty());
    let plan = upgrade(&c, &order, &installed, false, true);
    assert!(plan.apt_pkgs.is_empty());
    assert_eq!(plan.mpr_pkgs, names(&["toast"]));
}

#[test]
fn upgrade_leaves_what_is_up_to_date() {
    let c = cache(vec![sys("toast", Some("0.4"), true)], vec![aux("toast", "toast", "0.4", None)]);
    let mut order = VersionOrder::new();
    order.push("0.4".to_string(), 4);
    let installed =
        vec![InstalledPackage { name: "toast".to_string(), version: "0.4".to_string(), mpr_package: true }];
    let plan = upgrade(&c, &order, &installed, false, false);
    assert!(plan.apt_pkgs.is_empty() && plan.mpr_pkgs.is_empty());
    let plan = upgrade(&c, &VersionOrder::new(), &installed, false, false);
    assert!(plan.mpr_pkgs.is_empty());
}

#[test]
fn clone_needs_a_package_base() {
    let c = cache(vec![], vec![aux("tool-bin", "tool", "1", None)]);
    assert_eq!(clone(&c, "tool", "https://mpr.makedeb.org").unwrap(), "https://mpr.makedeb.org/tool");
    let e = clone(&c, "tool-bin", "https://mpr.makedeb.org").unwrap_err();
    assert_eq!(e.builds_it.as_deref(), Some("tool"));
    let e = clone(&c, "nothing", "https://mpr.makedeb.org").unwrap_err();
    assert_eq!(e.builds_it, None);
}

#[test]
fn comment_is_sent_as_json() {
    let mpr = MprCache::from_packages(vec![aux("toast", "toast", "1", None)]);
    let request = comment(&mpr, "toast", "say \"hi\"\n\\o/").unwrap();
    assert_eq!(request.path, "comment/toast");
    assert_eq!(request.body, "{\"msg\":\"say \\\"hi\\\"\\n\\\\o/\"}");
    let parsed: serde_json::Value = serde_json::from_str(&request.body).unwrap();
    assert_eq!(parsed.get("msg").unwrap().as_str().unwrap(), "say \"hi\"\n\\o/");
    assert!(comment(&mpr, "nothing", "hi").is_none());
    assert_eq!(body_around("\"x\""), "{\"msg\":\"x\"}");
}

#[test]
fn a_request_is_given_up_at_its_fourth_failure() {
    assert_eq!(after_failure(0), Some(1));
    assert_eq!(after_failure(1), Some(2));
    assert_eq!(after_failure(2), Some(3));
    assert_eq!(after_failure(3), None);
    assert_eq!(after_failure(u32::MAX), None);
    assert_eq!(RETRY_DELAY_MS, 100);
}

#[test]
fn local_copy_is_renewed_after_five_minutes() {
    assert_eq!(MAX_AGE_SECS, 300);
    assert!(!cache_is_stale(1000, 1000));
    assert!(!cache_is_stale(1300, 1000));
    assert!(cache_is_stale(1301, 1000));
    assert!(cache_is_stale(1000, 1001));
    assert_eq!(ArchiveError::Decompress.code(), 1);
    assert_eq!(ArchiveError::Parse.code(), 2);
}

#[test]
fn colours() {
    assert_eq!(ubuntu_orange(), Rgb { r: 255, g: 175, b: 0 });
    assert_eq!(ubuntu_purple(), Rgb { r: 95, g: 95, b: 255 });
}

#[test]
fn entry_of_an_installed_system_package() {
    let c = sample();
    let e = generate_pkginfo_entry("bash", &c).unwrap();
    assert_eq!(e.pkgname, "bash");
    assert_eq!(e.version, "5.1");
    assert_eq!(e.pkgdesc.as_deref(), Some("bash at length"));
    assert!(e.in_apt);
    assert!(e.mpr.is_none());
}

#[test]
fn entry_prefers_the_auxiliary_package_unless_installed() {
    let c = sample();
    let e = generate_pkginfo_entry("both", &c).unwrap();
    assert_eq!(e.version, "2.0");
    assert_eq!(e.pkgdesc.as_deref(), Some("from source"));
    assert!(e.in_apt);
    let d = e.mpr.unwrap();
    assert_eq!(d.maintainer.as_deref(), Some("kavplex"));
    assert_eq!(d.num_votes, 4);
    assert_eq!(d.popularity_bits, 0x3f00_0000);
    assert_eq!(d.ood_date, "N/A");

    let installed = cache(vec![sys("both", Some("1.0"), true)], vec![aux("both", "both", "2.0", None)]);
    let e = generate_pkginfo_entry("both", &installed).unwrap();
    assert_eq!(e.version, "1.0");
    assert!(e.mpr.is_some());
}

#[test]
fn entry_of_what_is_nowhere() {
    let c = sample();
    assert!(generate_pkginfo_entry("nothing", &c).is_none());
    assert!(generate_pkginfo_entry("virtual", &c).is_none());
    let e = generate_pkginfo_entry("toast", &c).unwrap();
    assert!(!e.in_apt);
    assert_eq!(e.version, "0.4");
}

#[test]
fn out_of_date_day() {
    assert_eq!(ood_date(None), "N/A");
    assert_eq!(ood_date(Some(0)), "1970-01-01");
    assert_eq!(ood_date(Some(1_666_000_000)), "2022-10-17");
    assert_eq!(ood_date(Some(u32::MAX)), "2106-02-07");
}

#[test]
fn shown_entries_are_filtered() {
    let c = sample();
    let all = names(&["bash", "both", "toast", "virtual", "nothing"]);
    assert_eq!(generate_pkginfo_entries(&all, &c, false, false, false), names(&["bash", "both", "virtual"]));
    assert_eq!(generate_pkginfo_entries(&all, &c, true, false, false), names(&["bash", "both", "virtual"]));
    assert_eq!(generate_pkginfo_entries(&all, &c, false, true, false), names(&["both"]));
    assert_eq!(generate_pkginfo_entries(&all, &c, false, false, true), names(&["bash"]));
    assert!(generate_pkginfo_entries(&all, &c, false, true, true).is_empty());
}

#[test]
fn entries_are_joined() {
    assert_eq!(join_entries(&names(&[]), false), "");
    assert_eq!(join_entries(&names(&[]), true), "");
    assert_eq!(join_entries(&names(&["a", "b"]), true), "a\nb\n");
    assert_eq!(join_entries(&names(&["a", "b", "c"]), false), "a\n\nb\n\nc\n");
    assert_eq!(join_entries(&names(&["a"]), false), "a\n");
}

#[test]
fn marks_decide_the_change() {
    let mut m = AptMarks::none();
    assert_eq!(change(m), None);
    m.downgrade = true;
    assert_eq!(change(m), Some(Change::Downgrade));
    m.upgrade = true;
    assert_eq!(change(m), Some(Change::Upgrade));
    m.purge = true;
    assert_eq!(change(m), Some(Change::Purge));
    m.delete = true;
    assert_eq!(change(m), Some(Change::Remove));
    m.install = true;
    assert_eq!(change(m), Some(Change::Install));
}

#[test]
fn transaction_lists_every_change() {
    let mut a = sys("a", Some("1"), false);
    a.marks.install = true;
    let mut b = sys("b", Some("1"), true);
    b.marks.delete = true;
    let mut c2 = sys("c", Some("1"), true);
    c2.marks.upgrade = true;
    let mut d = sys("d", Some("1"), true);
    d.marks.downgrade = true;
    let mut e = sys("e", Some("1"), true);
    e.marks.purge = true;
    let mut v = sys("v", None, false);
    v.marks.install = true;
    let c = cache(vec![a, b, c2, d, e, v, sys("f", Some("1"), true)], vec![]);
    let batches = vec![names(&["x"]), names(&[]), names(&["y", "z"])];
    let t = transaction(&c, &batches);
    assert_eq!(t.apt_install, names(&["a"]));
    assert_eq!(t.mpr_install, names(&["x", "y", "z"]));
    assert_eq!(t.to_remove, names(&["b"]));
    assert_eq!(t.to_purge, names(&["e"]));
    assert_eq!(t.to_upgrade, names(&["c"]));
    assert_eq!(t.to_downgrade, names(&["d"]));
    assert!(!t.is_empty());
    let nothing = transaction(&cache(vec![sys("f", Some("1"), true)], vec![]), &vec![]);
    assert!(nothing.is_empty());
    assert_eq!(flatten(&batches), names(&["x", "y", "z"]));
}

#[test]
fn lines_agree_with_the_standard_lines() {
    for text in ["", "a", "a\n", "a\nb", "a\r\nb\r\n", "\n", "\n\n", "a\r", "a\r\n\r\n", "\r\n", "x\n\ny"] {
        let expected: Vec<String> = text.lines().map(|s| s.to_string()).collect();
        assert_eq!(lines(text), expected, "{:?}", text);
    }
}

#[test]
fn made_file_is_not_reviewed() {
    assert_eq!(review_files("PKGBUILD\n.SRCINFO\ntoast.install\n"), names(&["PKGBUILD", "toast.install"]));
    assert!(review_files(".SRCINFO").is_empty());
    assert!(review_files("").is_empty());
}

#[test]
fn path_of_a_built_archive() {
    assert_eq!(deb_path("/cache/git-pkg/toast", "toast", "0.4-1", "amd64"), "/cache/git-pkg/toast/toast_0.4-1_amd64.deb");
}

#[test]
fn control_file_of_a_package() {
    let mut p = aux("toast", "toast", "0.4-1", None);
    p.depends = vec![MprDependencyGroup::new(None, None, names(&["libc6>=2.31", "p!dpkg", "a|b<2"]))];
    p.makedepends = vec![MprDependencyGroup::new(None, None, names(&["cargo"]))];
    p.checkdepends = vec![MprDependencyGroup::new(None, None, names(&["p!bash>5"]))];
    p.conflicts = vec![MprDependencyGroup::new(None, None, names(&["toast-git", "bread=1"]))];
    assert_eq!(
        control_file(&p, "jammy", "amd64"),
        "Package: toast\nVersion: 0.4-1\nArchitecture: all\n\
         Description: Dummy description so 'dpkg-deb' doesn't complain.\n\
         Depends: libc6 (>= 2.31), a | b (<< 2), cargo\n\
         Pre-Depends: dpkg, bash (>> 5)\n\
         Conflicts: toast-git, bread (= 1)\n"
    );
}

#[test]
fn control_file_without_relations() {
    let mut p = aux("toast", "toast", "1", None);
    assert_eq!(
        control_file(&p, "jammy", "amd64"),
        "Package: toast\nVersion: 1\nArchitecture: all\n\
         Description: Dummy description so 'dpkg-deb' doesn't complain.\n"
    );
    p.conflicts = vec![MprDependencyGroup::new(None, None, vec![])];
    assert!(!control_file(&p, "jammy", "amd64").contains("Conflicts"));
}

#[test]
fn archive_is_built_where_it_is_missing_or_old() {
    assert!(needs_build(false, None, "1"));
    assert!(needs_build(false, Some("1"), "1"));
    assert!(!needs_build(true, Some("1"), "1"));
    assert!(needs_build(true, Some("1"), "2"));
    assert!(!needs_build(true, None, "2"));
}

#[test]
fn directory_of_a_package_base() {
    assert_eq!(clone_mpr_pkgs(false, false), RepoAction::Clone);
    assert_eq!(clone_mpr_pkgs(false, true), RepoAction::Clone);
    assert_eq!(clone_mpr_pkgs(true, false), RepoAction::NotADirectory);
    assert_eq!(clone_mpr_pkgs(true, true), RepoAction::Update);
    assert_eq!(
        git_clone_command("https://mpr.makedeb.org", "toast", "/cache/git-pkg/toast"),
        names(&["git", "clone", "https://mpr.makedeb.org/toast", "/cache/git-pkg/toast"])
    );
}

#[test]
fn catalog_knows_all_or_not() {
    let mpr = MprCache::from_packages(vec![aux("a", "a", "1", None), aux("b", "b", "1", None)]);
    assert!(mpr.contains_all(&names(&["a", "b", "a"])));
    assert!(mpr.contains_all(&names(&[])));
    assert!(!mpr.contains_all(&names(&["a", "c"])));
}
