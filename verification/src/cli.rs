//! The `myo` command line: which command the arguments name, and the usage
//! text.

use vstd::prelude::*;

use crate::text::{eq_str, owned};

verus! {

/// The top-level `myo` commands.
#[derive(Debug, Clone, PartialEq, Eq)]
pub enum MainCommand {
    /// `update [status|check|apply|enable|disable]`, with the words after
    /// `update`.
    Update(Vec<String>),
    /// Run the background update watcher in the foreground.
    Watch,
    /// `--version`, `-V` or `version`.
    Version,
    /// `help`, `--help`, `-h`, or no command at all.
    Help,
    /// Anything else.
    Unknown(String),
}

/// Which command an argument list names.
pub enum CommandKind {
    Update,
    Watch,
    Version,
    Help,
    Unknown,
}

/// The command the first argument names; no argument asks for help.
pub open spec fn command_of(args: Seq<Seq<char>>) -> CommandKind {
    if args.len() == 0 {
        CommandKind::Help
    } else if args[0] == "update"@ {
        CommandKind::Update
    } else if args[0] == "watch"@ {
        CommandKind::Watch
    } else if args[0] == "--version"@ || args[0] == "-V"@ || args[0] == "version"@ {
        CommandKind::Version
    } else if args[0] == "help"@ || args[0] == "--help"@ || args[0] == "-h"@ {
        CommandKind::Help
    } else {
        CommandKind::Unknown
    }
}

/// Read the `myo` arguments (without the program name).
pub fn parse_main_command(args: &[String]) -> (r: MainCommand)
    ensures
        ({
            let a = Seq::new(args@.len(), |i: int| args@[i]@);
            &&& command_of(a) is Update ==> (r matches MainCommand::Update(rest) && rest@.len() + 1 == args@.len()
                && forall|i: int| 0 <= i < rest@.len() ==> #[trigger] rest@[i]@ == args@[i + 1]@)
            &&& command_of(a) is Watch ==> r is Watch
            &&& command_of(a) is Version ==> r is Version
            &&& command_of(a) is Help ==> r is Help
            &&& command_of(a) is Unknown ==> (r matches MainCommand::Unknown(u) && u@ == args@[0]@)
        }),
{
    if args.len() == 0 {
        return MainCommand::Help;
    }
    let first = args[0].as_str();
    if eq_str(first, "update") {
        let mut rest: Vec<String> = Vec::new();
        let mut i: usize = 1;
        while i < args.len()
            invariant
                1 <= i <= args@.len(),
                rest@.len() == i - 1,
                forall|k: int| 0 <= k < rest@.len() ==> #[trigger] rest@[k]@ == args@[k + 1]@,
            decreases args@.len() - i,
        {
            rest.push(owned(args[i].as_str()));
            i = i + 1;
        }
        MainCommand::Update(rest)
    } else if eq_str(first, "watch") {
        MainCommand::Watch
    } else if eq_str(first, "--version") || eq_str(first, "-V") || eq_str(first, "version") {
        MainCommand::Version
    } else if eq_str(first, "help") || eq_str(first, "--help") || eq_str(first, "-h") {
        MainCommand::Help
    } else {
        MainCommand::Unknown(owned(first))
    }
}

/// The usage text `myo help` prints.
pub const HELP_TEXT: &'static str = "myo — local voice-first AI companion

USAGE:
  myo [command]
  myo --version

COMMANDS:
  update        Update to the latest release (one shot: check + download + verify + apply)
                Subcommands: status | check | apply | enable | disable
  watch         Run the background update watcher in the foreground
  help          Show this help

Every launch first applies any update staged by a previous run, so upgrades are
hands-free. Self-update honors ~/.myo/config.json (auto_update.*) and is skipped
for package-manager installs (Homebrew/apt/rpm/MSI/Chocolatey/Scoop) and when
MYO_AUTOUPDATE=0.";

} // verus!
