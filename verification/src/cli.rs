//! Command-line arguments.
use vstd::prelude::*;
use vstd::string::StringExecFns;

use crate::config::DEFAULT_CONFIG_PATH;
use crate::text::push_str;

verus! {

/// What the program was asked to do.
#[derive(Debug, Clone)]
pub enum Command {
    Install { config_path: String },
    Uninstall { purge_config: bool },
    Reload,
    Status { config_path: String },
    Daemon { config_path: String },
    PrintDefaultConfig,
    Help,
}

pub enum CommandView {
    Install { config_path: Seq<char> },
    Uninstall { purge_config: bool },
    Reload,
    Status { config_path: Seq<char> },
    Daemon { config_path: Seq<char> },
    PrintDefaultConfig,
    Help,
}

impl View for Command {
    type V = CommandView;

    open spec fn view(&self) -> CommandView {
        match self {
            Command::Install { config_path } => CommandView::Install { config_path: config_path@ },
            Command::Uninstall { purge_config } => CommandView::Uninstall {
                purge_config: *purge_config,
            },
            Command::Reload => CommandView::Reload,
            Command::Status { config_path } => CommandView::Status { config_path: config_path@ },
            Command::Daemon { config_path } => CommandView::Daemon { config_path: config_path@ },
            Command::PrintDefaultConfig => CommandView::PrintDefaultConfig,
            Command::Help => CommandView::Help,
        }
    }
}

/// Why the arguments were refused.
#[derive(Debug, Clone)]
pub enum CliError {
    UnknownCommand { command: String },
    UnknownUninstallFlag { flag: String },
    UnknownFlag { flag: String },
    MissingConfigValue,
}

pub enum CliErrorView {
    UnknownCommand { command: Seq<char> },
    UnknownUninstallFlag { flag: Seq<char> },
    UnknownFlag { flag: Seq<char> },
    MissingConfigValue,
}

impl View for CliError {
    type V = CliErrorView;

    open spec fn view(&self) -> CliErrorView {
        match self {
            CliError::UnknownCommand { command } => CliErrorView::UnknownCommand {
                command: command@,
            },
            CliError::UnknownUninstallFlag { flag } => CliErrorView::UnknownUninstallFlag {
                flag: flag@,
            },
            CliError::UnknownFlag { flag } => CliErrorView::UnknownFlag { flag: flag@ },
            CliError::MissingConfigValue => CliErrorView::MissingConfigValue,
        }
    }
}

/// What a refusal of the arguments says.
pub open spec fn cli_error_text(e: CliErrorView) -> Seq<char> {
    match e {
        CliErrorView::UnknownCommand { command } => "unknown command: "@ + command,
        CliErrorView::UnknownUninstallFlag { flag } => "unknown uninstall flag: "@ + flag,
        CliErrorView::UnknownFlag { flag } => "unknown flag: "@ + flag,
        CliErrorView::MissingConfigValue => "missing value after --config"@,
    }
}

impl CliError {
    /// What the refusal says.
    pub fn message(&self) -> (s: String)
        ensures
            s@ == cli_error_text(self@),
    {
        let mut out = String::new();
        match self {
            CliError::UnknownCommand { command } => {
                push_str(&mut out, "unknown command: ");
                push_str(&mut out, command.as_str());
            },
            CliError::UnknownUninstallFlag { flag } => {
                push_str(&mut out, "unknown uninstall flag: ");
                push_str(&mut out, flag.as_str());
            },
            CliError::UnknownFlag { flag } => {
                push_str(&mut out, "unknown flag: ");
                push_str(&mut out, flag.as_str());
            },
            CliError::MissingConfigValue => {
                push_str(&mut out, "missing value after --config");
            },
        }
        assert(out@ =~= cli_error_text(self@));
        out
    }
}

pub open spec fn args_view(args: Seq<String>) -> Seq<Seq<char>> {
    args.map_values(|a: String| a@)
}

/// `--config <path>` options from index `i` on; the last one wins.
pub open spec fn config_path_from(args: Seq<Seq<char>>, i: int, path: Seq<char>) -> Result<
    Seq<char>,
    CliErrorView,
>
    decreases args.len() - i,
{
    if i < 0 || i >= args.len() {
        Ok(path)
    } else if args[i] == "--config"@ {
        if i + 1 >= args.len() {
            Err(CliErrorView::MissingConfigValue)
        } else {
            config_path_from(args, i + 2, args[i + 1])
        }
    } else {
        Err(CliErrorView::UnknownFlag { flag: args[i] })
    }
}

/// `--purge` / `--purge-config` flags from index `i` on.
pub open spec fn purge_from(args: Seq<Seq<char>>, i: int, purge: bool) -> Result<bool, CliErrorView>
    decreases args.len() - i,
{
    if i < 0 || i >= args.len() {
        Ok(purge)
    } else if args[i] == "--purge"@ || args[i] == "--purge-config"@ {
        purge_from(args, i + 1, true)
    } else {
        Err(CliErrorView::UnknownUninstallFlag { flag: args[i] })
    }
}

pub open spec fn with_path(r: Result<Seq<char>, CliErrorView>, make: spec_fn(Seq<char>) -> CommandView) -> Result<CommandView, CliErrorView> {
    match r {
        Ok(p) => Ok(make(p)),
        Err(e) => Err(e),
    }
}

/// What the arguments (without the program name) ask for. No arguments ask
/// for help; `reload`, `print-default-config` and `help` ignore what follows.
pub open spec fn command_of(args: Seq<Seq<char>>) -> Result<CommandView, CliErrorView> {
    if args.len() == 0 {
        Ok(CommandView::Help)
    } else {
        let c = args[0];
        let path = config_path_from(args, 1, DEFAULT_CONFIG_PATH@);
        if c == "install"@ {
            with_path(path, |p: Seq<char>| CommandView::Install { config_path: p })
        } else if c == "uninstall"@ {
            match purge_from(args, 1, false) {
                Ok(b) => Ok(CommandView::Uninstall { purge_config: b }),
                Err(e) => Err(e),
            }
        } else if c == "reload"@ {
            Ok(CommandView::Reload)
        } else if c == "status"@ {
            with_path(path, |p: Seq<char>| CommandView::Status { config_path: p })
        } else if c == "daemon"@ {
            with_path(path, |p: Seq<char>| CommandView::Daemon { config_path: p })
        } else if c == "print-default-config"@ {
            Ok(CommandView::PrintDefaultConfig)
        } else if c == "help"@ || c == "--help"@ || c == "-h"@ {
            Ok(CommandView::Help)
        } else {
            Err(CliErrorView::UnknownCommand { command: c })
        }
    }
}

fn is_lit(s: &String, lit: &str) -> (b: bool)
    ensures
        b == (s@ == lit@),
{
    let t = String::from_str(lit);
    *s == t
}

fn take_config_path(args: &Vec<String>, start: usize) -> (r: Result<String, CliError>)
    requires
        start <= args@.len(),
    ensures
        match config_path_from(args_view(args@), start as int, DEFAULT_CONFIG_PATH@) {
            Ok(p) => r matches Ok(x) && x@ == p,
            Err(e) => r matches Err(x) && x@ == e,
        },
{
    let ghost av = args_view(args@);
    let mut config_path = String::from_str(DEFAULT_CONFIG_PATH);
    let mut i = start;
    while i < args.len()
        invariant
            start <= i <= args@.len(),
            av == args_view(args@),
            config_path_from(av, start as int, DEFAULT_CONFIG_PATH@) == config_path_from(
                av,
                i as int,
                config_path@,
            ),
        decreases args@.len() - i,
    {
        assert(av[i as int] == args@[i as int]@);
        if is_lit(&args[i], "--config") {
            if i + 1 >= args.len() {
                return Err(CliError::MissingConfigValue);
            }
            assert(av[i + 1] == args@[i + 1]@);
            config_path = args[i + 1].clone();
            i = i + 2;
        } else {
            return Err(CliError::UnknownFlag { flag: args[i].clone() });
        }
    }
    Ok(config_path)
}

/// Reads the arguments that follow the program name.
pub fn parse_args(args: Vec<String>) -> (r: Result<Command, CliError>)
    ensures
        match command_of(args_view(args@)) {
            Ok(c) => r matches Ok(x) && x@ == c,
            Err(e) => r matches Err(x) && x@ == e,
        },
{
    let ghost av = args_view(args@);
    if args.len() == 0 {
        return Ok(Command::Help);
    }
    assert(av[0] == args@[0]@);
    let command = &args[0];
    if is_lit(command, "install") {
        match take_config_path(&args, 1) {
            Ok(p) => Ok(Command::Install { config_path: p }),
            Err(e) => Err(e),
        }
    } else if is_lit(command, "uninstall") {
        let mut purge_config = false;
        let mut i: usize = 1;
        while i < args.len()
            invariant
                1 <= i <= args@.len(),
                av == args_view(args@),
                av[0] == "uninstall"@,
                av[0] != "install"@,
                purge_from(av, 1, false) == purge_from(av, i as int, purge_config),
            decreases args@.len() - i,
        {
            assert(av[i as int] == args@[i as int]@);
            if is_lit(&args[i], "--purge") || is_lit(&args[i], "--purge-config") {
                purge_config = true;
            } else {
                return Err(CliError::UnknownUninstallFlag { flag: args[i].clone() });
            }
            i = i + 1;
        }
        Ok(Command::Uninstall { purge_config })
    } else if is_lit(command, "reload") {
        Ok(Command::Reload)
    } else if is_lit(command, "status") {
        match take_config_path(&args, 1) {
            Ok(p) => Ok(Command::Status { config_path: p }),
            Err(e) => Err(e),
        }
    } else if is_lit(command, "daemon") {
        match take_config_path(&args, 1) {
            Ok(p) => Ok(Command::Daemon { config_path: p }),
            Err(e) => Err(e),
        }
    } else if is_lit(command, "print-default-config") {
        Ok(Command::PrintDefaultConfig)
    } else if is_lit(command, "help") || is_lit(command, "--help") || is_lit(command, "-h") {
        Ok(Command::Help)
    } else {
        Err(CliError::UnknownCommand { command: command.clone() })
    }
}

pub const USAGE: &'static str = "useless <command> [options]

Commands:
  install [--config <path>]      Install the binary and service files
  uninstall [--purge]            Remove service files and optionally /etc/useless
  reload                         Reload the running service configuration
  status [--config <path>]       Show service and config status
  daemon [--config <path>]       Run the foreground daemon (used by service managers)
  print-default-config           Print the default config template
  help                           Show this help
";

/// The help text.
pub fn usage() -> (s: &'static str)
    ensures
        s@ == USAGE@,
{
    USAGE
}

proof fn lemma_command_words_differ()
    ensures
        "install"@ != "uninstall"@,
        "install"@ != "reload"@,
        "install"@ != "status"@,
        "install"@ != "daemon"@,
        "install"@ != "print-default-config"@,
        "install"@ != "help"@,
        "uninstall"@ != "reload"@,
        "uninstall"@ != "status"@,
        "uninstall"@ != "daemon"@,
        "uninstall"@ != "print-default-config"@,
        "uninstall"@ != "help"@,
        "reload"@ != "status"@,
        "reload"@ != "daemon"@,
        "reload"@ != "print-default-config"@,
        "reload"@ != "help"@,
        "status"@ != "daemon"@,
        "status"@ != "print-default-config"@,
        "status"@ != "help"@,
        "daemon"@ != "print-default-config"@,
        "daemon"@ != "help"@,
        "print-default-config"@ != "help"@,
        "--purge"@ != "--purge-config"@,
{
    reveal_strlit("install");
    reveal_strlit("uninstall");
    reveal_strlit("reload");
    reveal_strlit("status");
    reveal_strlit("daemon");
    reveal_strlit("print-default-config");
    reveal_strlit("help");
    reveal_strlit("--purge");
    reveal_strlit("--purge-config");
    assert("install"@[0] != "uninstall"@[0]);
    assert("install"@[0] != "reload"@[0]);
    assert("install"@[0] != "status"@[0]);
    assert("install"@[0] != "daemon"@[0]);
    assert("install"@[0] != "print-default-config"@[0]);
    assert("install"@[0] != "help"@[0]);
    assert("uninstall"@[0] != "reload"@[0]);
    assert("uninstall"@[0] != "status"@[0]);
    assert("uninstall"@[0] != "daemon"@[0]);
    assert("uninstall"@[0] != "print-default-config"@[0]);
    assert("uninstall"@[0] != "help"@[0]);
    assert("reload"@[0] != "status"@[0]);
    assert("reload"@[0] != "daemon"@[0]);
    assert("reload"@[0] != "print-default-config"@[0]);
    assert("reload"@[0] != "help"@[0]);
    assert("status"@[0] != "daemon"@[0]);
    assert("status"@[0] != "print-default-config"@[0]);
    assert("status"@[0] != "help"@[0]);
    assert("daemon"@[0] != "print-default-config"@[0]);
    assert("daemon"@[0] != "help"@[0]);
    assert("print-default-config"@[0] != "help"@[0]);
    assert("--purge"@.len() != "--purge-config"@.len());
}

/// Every command and option that the help text lists is accepted: each
/// command alone, `install`, `status` and `daemon` with `--config <path>`,
/// and `uninstall` with `--purge`. The text starts with the synopsis.
pub proof fn lemma_listed_commands_are_accepted(path: Seq<char>)
    ensures
        USAGE@.len() >= 27 && USAGE@.subrange(0, 27) == "useless <command> [options]"@,
        command_of(seq!["install"@]) == Ok::<CommandView, CliErrorView>(
            CommandView::Install { config_path: DEFAULT_CONFIG_PATH@ },
        ),
        command_of(seq!["install"@, "--config"@, path]) == Ok::<CommandView, CliErrorView>(
            CommandView::Install { config_path: path },
        ),
        command_of(seq!["uninstall"@]) == Ok::<CommandView, CliErrorView>(
            CommandView::Uninstall { purge_config: false },
        ),
        command_of(seq!["uninstall"@, "--purge"@]) == Ok::<CommandView, CliErrorView>(
            CommandView::Uninstall { purge_config: true },
        ),
        command_of(seq!["reload"@]) == Ok::<CommandView, CliErrorView>(CommandView::Reload),
        command_of(seq!["status"@]) == Ok::<CommandView, CliErrorView>(
            CommandView::Status { config_path: DEFAULT_CONFIG_PATH@ },
        ),
        command_of(seq!["status"@, "--config"@, path]) == Ok::<CommandView, CliErrorView>(
            CommandView::Status { config_path: path },
        ),
        command_of(seq!["daemon"@]) == Ok::<CommandView, CliErrorView>(
            CommandView::Daemon { config_path: DEFAULT_CONFIG_PATH@ },
        ),
        command_of(seq!["daemon"@, "--config"@, path]) == Ok::<CommandView, CliErrorView>(
            CommandView::Daemon { config_path: path },
        ),
        command_of(seq!["print-default-config"@]) == Ok::<CommandView, CliErrorView>(
            CommandView::PrintDefaultConfig,
        ),
        command_of(seq!["help"@]) == Ok::<CommandView, CliErrorView>(CommandView::Help),
{
    lemma_command_words_differ();
    reveal_strlit("useless <command> [options]\n\nCommands:\n  install [--config <path>]      Install the binary and service files\n  uninstall [--purge]            Remove service files and optionally /etc/useless\n  reload                         Reload the running service configuration\n  status [--config <path>]       Show service and config status\n  daemon [--config <path>]       Run the foreground daemon (used by service managers)\n  print-default-config           Print the default config template\n  help                           Show this help\n");
    reveal_strlit("useless <command> [options]");
    assert(USAGE@.subrange(0, 27) =~= "useless <command> [options]"@);
    reveal_strlit("install");
    reveal_strlit("uninstall");
    reveal_strlit("reload");
    reveal_strlit("status");
    reveal_strlit("daemon");
    reveal_strlit("print-default-config");
    reveal_strlit("help");
    reveal_strlit("--config");
    reveal_strlit("--purge");
    let a = seq!["install"@, "--config"@, path];
    assert(config_path_from(a, 3, path) == Ok::<Seq<char>, CliErrorView>(path));
    let a = seq!["status"@, "--config"@, path];
    assert(config_path_from(a, 3, path) == Ok::<Seq<char>, CliErrorView>(path));
    let a = seq!["daemon"@, "--config"@, path];
    assert(config_path_from(a, 3, path) == Ok::<Seq<char>, CliErrorView>(path));
    let a = seq!["uninstall"@, "--purge"@];
    assert(a[1] == "--purge"@);
    assert(purge_from(a, 2, true) == Ok::<bool, CliErrorView>(true));
    assert(purge_from(a, 1, false) == Ok::<bool, CliErrorView>(true));
    let b = seq!["uninstall"@];
    assert(purge_from(b, 1, false) == Ok::<bool, CliErrorView>(false));
    assert(b[0] == "uninstall"@ && a[0] == "uninstall"@);
}

} // verus!
