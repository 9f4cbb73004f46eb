use mist::args::{Cli as ArgsCli, Commands, MprToken, MprURL, Paging, SearchMode, UpgradeMode};
use mist::cli::{
    Cli, CliClone, CliComment, CliInstall, CliList, CliListComments, CliPaging, CliRemove,
    CliSearch, CliSubcommand, CliUpdate, CliUpgrade, CliWhoami, StartupError,
};
use mist::whoami::{whoami, whoami_path};

fn cli(subcommand: CliSubcommand) -> Cli {
    Cli {
        token: None,
        mpr_url: "https://mpr.makedeb.org".to_string(),
        mpr_only: false,
        apt_only: false,
        installed_only: false,
        name_only: false,
        subcommand,
    }
}

fn all_subcommands() -> Vec<CliSubcommand> {
    vec![
        CliSubcommand::Clone(CliClone { pkg: "a".to_string() }),
        CliSubcommand::Comment(CliComment { pkg: "a".to_string(), msg: None }),
        CliSubcommand::Install(CliInstall { pkg: vec![] }),
        CliSubcommand::List(CliList { pkg: vec![] }),
        CliSubcommand::ListComments(CliListComments { pkg: "a".to_string(), paging: CliPaging::Auto }),
        CliSubcommand::Remove(CliRemove { pkg: vec![], purge: false, autoremove: false }),
        CliSubcommand::Search(CliSearch { query: vec![] }),
        CliSubcommand::Update(CliUpdate {}),
        CliSubcommand::Upgrade(CliUpgrade {}),
        CliSubcommand::Whoami(CliWhoami {}),
    ]
}

#[test]
fn commands_that_change_the_system() {
    let changes: Vec<bool> = all_subcommands().iter().map(|c| c.changes_system()).collect();
    assert_eq!(changes, vec![false, false, true, false, false, true, false, true, true, false]);
    let builds: Vec<bool> = all_subcommands().iter().map(|c| c.runs_makedeb()).collect();
    assert_eq!(builds, vec![false, false, true, false, false, false, false, false, true, false]);
}

#[test]
fn executable_must_belong_to_root() {
    let c = cli(CliSubcommand::Update(CliUpdate {}));
    assert_eq!(c.startup(1000, 0o104755, 1000), Err(StartupError::NotOwnedByRoot));
}

#[test]
fn executable_must_have_the_setuid_flag() {
    let c = cli(CliSubcommand::Update(CliUpdate {}));
    assert_eq!(c.startup(0, 0o100755, 1000), Err(StartupError::NoSetuid));
    assert_eq!(c.startup(0, 0o102755, 1000), Err(StartupError::NoSetuid));
    assert_eq!(c.startup(0, 0o104755, 1000), Ok(true));
    assert_eq!(c.startup(0, 0o106755, 1000), Ok(true));
}

#[test]
fn third_digit_is_counted_from_the_left() {
    let c = cli(CliSubcommand::Search(CliSearch { query: vec![] }));
    assert_eq!(c.startup(0, 0o755, 1000), Ok(false));
    assert_eq!(c.startup(0, 0o753, 1000), Err(StartupError::NoSetuid));
    assert_eq!(c.startup(0, 0o40755, 1000), Ok(false));
    assert_eq!(c.startup(0, 0o100, 1000), Err(StartupError::NoSetuid));
}

#[test]
fn building_is_refused_to_root() {
    let install = cli(CliSubcommand::Install(CliInstall { pkg: vec!["a".to_string()] }));
    assert_eq!(install.startup(0, 0o104755, 0), Err(StartupError::RunAsRoot));
    assert_eq!(install.startup(0, 0o104755, 1000), Ok(true));
    let remove = cli(CliSubcommand::Remove(CliRemove { pkg: vec![], purge: true, autoremove: false }));
    assert_eq!(remove.startup(0, 0o104755, 0), Ok(true));
    let list = cli(CliSubcommand::List(CliList { pkg: vec![] }));
    assert_eq!(list.startup(0, 0o104755, 0), Ok(false));
}

#[test]
fn whoami_needs_a_token() {
    let mut c = cli(CliSubcommand::Whoami(CliWhoami {}));
    assert!(whoami(&c).is_none());
    c.token = Some("secret".to_string());
    let request = whoami(&c).unwrap();
    assert_eq!(request.api_token(), "secret");
    assert_eq!(request.url(whoami_path()), "https://mpr.makedeb.org/api/test");
}

#[test]
fn paging_from_a_word() {
    assert_eq!(Paging::from_text("always"), Paging::Always);
    assert_eq!(Paging::from_text("never"), Paging::Never);
    assert_eq!(Paging::from_text("auto"), Paging::Auto);
    assert_eq!(Paging::from_text(""), Paging::Auto);
}

#[test]
fn search_mode_as_switches() {
    let f = SearchMode::NoFilter.filters();
    assert!(!f.apt_only && !f.mpr_only && !f.installed_only);
    let f = SearchMode::AptOnly.filters();
    assert!(f.apt_only && !f.mpr_only && !f.installed_only);
    let f = SearchMode::MprOnly.filters();
    assert!(!f.apt_only && f.mpr_only && !f.installed_only);
    let f = SearchMode::Installed.filters();
    assert!(!f.apt_only && !f.mpr_only && f.installed_only);
}

#[test]
fn upgrade_mode_covers_catalogs() {
    assert!(UpgradeMode::Both.covers_apt() && UpgradeMode::Both.covers_mpr());
    assert!(UpgradeMode::AptOnly.covers_apt() && !UpgradeMode::AptOnly.covers_mpr());
    assert!(!UpgradeMode::MprOnly.covers_apt() && UpgradeMode::MprOnly.covers_mpr());
}

#[test]
fn first_generation_command_line_holds_its_values() {
    let c = ArgsCli {
        command: Commands::Comment {
            package_name: "pkg".to_string(),
            message: Some("hi".to_string()),
            mpr_url: MprURL { url: "https://mpr.makedeb.org".to_string() },
            mpr_token: MprToken { token: "t".to_string() },
        },
    };
    match c.command {
        Commands::Comment { package_name, mpr_token, .. } => {
            assert_eq!(package_name, "pkg");
            assert_eq!(mpr_token.token, "t");
        }
        _ => panic!("wrong command"),
    }
}
