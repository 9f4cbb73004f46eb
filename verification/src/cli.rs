//! The command line of the program, as plain values, and what it decides
//! before a command runs.

use vstd::prelude::*;
use vstd::string::*;

verus! {

/// When output goes to a pager.
#[derive(Clone, Copy, Debug, PartialEq, Eq, Structural)]
pub enum CliPaging {
    Auto,
    Always,
    Never,
}

/// The command line: the options that every command shares, and the
/// command.
#[derive(Debug)]
pub struct Cli {
    /// The token that authorizes requests to the repository.
    pub token: Option<String>,
    /// The address of the repository.
    pub mpr_url: String,
    /// Show only packages of the auxiliary catalog.
    pub mpr_only: bool,
    /// Show only packages of the system catalog.
    pub apt_only: bool,
    /// Show only installed packages.
    pub installed_only: bool,
    /// Show names without details.
    pub name_only: bool,
    pub subcommand: CliSubcommand,
}

/// The commands.
#[derive(Debug)]
pub enum CliSubcommand {
    Clone(CliClone),
    Comment(CliComment),
    Install(CliInstall),
    List(CliList),
    ListComments(CliListComments),
    Remove(CliRemove),
    Search(CliSearch),
    Update(CliUpdate),
    Upgrade(CliUpgrade),
    Whoami(CliWhoami),
}

/// Clone a package base from the repository.
#[derive(Debug)]
pub struct CliClone {
    pub pkg: String,
}

/// Comment on a package page.
#[derive(Debug)]
pub struct CliComment {
    pub pkg: String,
    pub msg: Option<String>,
}

/// Install packages from both catalogs.
#[derive(Debug)]
pub struct CliInstall {
    pub pkg: Vec<String>,
}

/// List packages of both catalogs.
#[derive(Debug)]
pub struct CliList {
    pub pkg: Vec<String>,
}

/// List the comments on a package.
#[derive(Debug)]
pub struct CliListComments {
    pub pkg: String,
    pub paging: CliPaging,
}

/// Remove packages from the system.
#[derive(Debug)]
pub struct CliRemove {
    pub pkg: Vec<String>,
    pub purge: bool,
    pub autoremove: bool,
}

/// Search for a package.
#[derive(Debug)]
pub struct CliSearch {
    pub query: Vec<String>,
}

/// Update the catalogs.
#[derive(Debug)]
pub struct CliUpdate {}

/// Upgrade the packages on the system.
#[derive(Debug)]
pub struct CliUpgrade {}

/// Show the user that the token belongs to.
#[derive(Debug)]
pub struct CliWhoami {}

/// Why the program refuses to start.
#[derive(Clone, Copy, Debug, PartialEq, Eq, Structural)]
pub enum StartupError {
    /// The executable is not owned by the superuser.
    NotOwnedByRoot,
    /// The executable does not have the set-user-ID flag.
    NoSetuid,
    /// The command builds packages, which the superuser may not do.
    RunAsRoot,
}

/// The octal digits of `n`, without leading zeros.
pub open spec fn octal(n: nat) -> Seq<nat>
    decreases n,
{
    if n < 8 {
        seq![n]
    } else {
        octal(n / 8).push(n % 8)
    }
}

/// The third octal digit of a file mode, counted from the left. For the
/// six-digit mode of a regular file it holds the set-user-ID flag as its
/// value 4.
pub open spec fn third_digit(mode: u32) -> nat {
    octal(mode as nat)[2]
}

/// Whether the program may start, and whether it must first ask for the
/// superuser's permissions.
pub open spec fn spec_startup(
    subcommand: CliSubcommand,
    owner: u32,
    mode: u32,
    normal_uid: u32,
) -> Result<
    bool,
    StartupError,
> {
    if owner != 0 {
        Err(StartupError::NotOwnedByRoot)
    } else if third_digit(mode) < 4 {
        Err(StartupError::NoSetuid)
    } else if !subcommand.spec_changes_system() {
        Ok(false)
    } else if subcommand.spec_runs_makedeb() && normal_uid == 0 {
        Err(StartupError::RunAsRoot)
    } else {
        Ok(true)
    }
}

proof fn lemma_octal_len(n: nat)
    ensures
        octal(n).len() >= 1,
        n >= 8 ==> octal(n).len() >= 2,
        n >= 64 ==> octal(n).len() >= 3,
    decreases n,
{
    if n >= 8 {
        lemma_octal_len(n / 8);
    }
}

/// Cutting octal digits off the right end leaves the left end as it is.
proof fn lemma_octal_prefix(n: nat, k: int)
    requires
        n >= 8,
        0 <= k < octal(n / 8).len(),
    ensures
        octal(n)[k] == octal(n / 8)[k],
{
}

/// The third octal digit of `mode`, counted from the left.
fn third_octal_digit(mode: u32) -> (r: u32)
    requires
        mode >= 64,
    ensures
        r == third_digit(mode),
{
    let mut rest: u32 = mode;
    proof {
        lemma_octal_len(mode as nat);
    }
    while rest >= 512
        invariant
            rest >= 64,
            octal(rest as nat).len() >= 3,
            octal(rest as nat)[2] == octal(mode as nat)[2],
        decreases rest,
    {
        proof {
            lemma_octal_len((rest / 8) as nat);
            lemma_octal_prefix(rest as nat, 2);
        }
        rest = rest / 8;
    }
    proof {
        lemma_octal_len(rest as nat);
        let n = rest as nat;
        assert(octal(n) == octal(n / 8).push(n % 8));
        assert(octal(n / 8) == octal(n / 8 / 8).push(n / 8 % 8));
        assert(n / 8 / 8 < 8);
        assert(octal(n / 8 / 8) == seq![n / 8 / 8]);
        assert(octal(n)[2] == n % 8);
    }
    rest % 8
}

impl CliSubcommand {
    /// Whether the command changes the system and so needs the superuser's
    /// permissions: installing, removing, updating and upgrading do.
    pub open spec fn spec_changes_system(self) -> bool {
        self is Install || self is Remove || self is Update || self is Upgrade
    }

    /// Whether the command builds packages: installing and upgrading do.
    pub open spec fn spec_runs_makedeb(self) -> bool {
        self is Install || self is Upgrade
    }

    /// Whether the command changes the system and so needs the superuser's
    /// permissions.
    pub fn changes_system(&self) -> (r: bool)
        ensures
            r == self.spec_changes_system(),
    {
        matches!(
            self,
            CliSubcommand::Install(_) | CliSubcommand::Remove(_) | CliSubcommand::Update(_)
                | CliSubcommand::Upgrade(_)
        )
    }

    /// Whether the command builds packages.
    pub fn runs_makedeb(&self) -> (r: bool)
        ensures
            r == self.spec_runs_makedeb(),
    {
        matches!(self, CliSubcommand::Install(_) | CliSubcommand::Upgrade(_))
    }
}

impl Cli {
    /// Decides whether the program may start.
    ///
    /// `owner` and `mode` are the owner and the mode of the executable, and
    /// `normal_uid` is the user who started it. The executable must belong
    /// to the superuser and carry the set-user-ID flag. A command that
    /// builds packages is refused to the superuser. The result says whether
    /// the command needs the superuser's permissions, which the caller then
    /// asks for.
    pub fn startup(&self, owner: u32, mode: u32, normal_uid: u32) -> (r: Result<bool, StartupError>)
        requires
            mode >= 64,
        ensures
            r == spec_startup(self.subcommand, owner, mode, normal_uid),
    {
        if owner != 0 {
            Err(StartupError::NotOwnedByRoot)
        } else if third_octal_digit(mode) < 4 {
            Err(StartupError::NoSetuid)
        } else if !self.subcommand.changes_system() {
            Ok(false)
        } else if self.subcommand.runs_makedeb() && normal_uid == 0 {
            Err(StartupError::RunAsRoot)
        } else {
            Ok(true)
        }
    }
}

} // verus!
