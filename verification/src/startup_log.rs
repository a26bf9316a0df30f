//! Startup notices and the run target they depend on.
//!
//! Every startup notice goes to the log file; it is mirrored to stderr
//! unless the run is interactive, where the terminal belongs to the TUI.
//! The target is picked from the parsed command line.
use vstd::prelude::*;

use crate::text::{decimal, push_decimal, push_str};

verus! {

/// What a `pi` invocation runs.
#[derive(Debug, Clone, Copy, PartialEq, Eq, Structural)]
pub enum ModeTarget {
    /// The terminal UI.
    Interactive,
    /// One prompt, answered on stdout.
    Print,
    /// JSON-RPC over stdio.
    Rpc,
    /// A session subcommand.
    Session,
    /// A package subcommand (`version`, `install`, `remove`, `list`,
    /// `update-models`, `list-models`).
    Packages,
}

/// The subcommand given on the command line.
#[derive(Debug, Clone, Copy, PartialEq, Eq, Structural)]
pub enum CommandKind {
    /// `pi print`.
    Print,
    /// `pi rpc`.
    Rpc,
    /// `pi session ...`.
    Session,
    /// `pi version`.
    Version,
    /// `pi install`.
    Install,
    /// `pi remove`.
    Remove,
    /// `pi list`.
    List,
    /// `pi update-models`.
    UpdateModels,
    /// `pi list-models`.
    ListModels,
    /// Any other subcommand.
    Other,
}

/// The command-line spelling of each subcommand (`Other` has none).
pub open spec fn command_name(k: CommandKind) -> Option<Seq<char>> {
    match k {
        CommandKind::Print => Some("print"@),
        CommandKind::Rpc => Some("rpc"@),
        CommandKind::Session => Some("session"@),
        CommandKind::Version => Some("version"@),
        CommandKind::Install => Some("install"@),
        CommandKind::Remove => Some("remove"@),
        CommandKind::List => Some("list"@),
        CommandKind::UpdateModels => Some("update-models"@),
        CommandKind::ListModels => Some("list-models"@),
        CommandKind::Other => None,
    }
}

impl CommandKind {
    /// The subcommand spelled `name`, if it is one of the known ones.
    pub fn from_name(name: &str) -> (r: Option<CommandKind>)
        ensures
            match r {
                Some(k) => command_name(k) == Some(name@),
                None => forall|k: CommandKind| command_name(k) != Some(name@),
            },
    {
        let v = crate::text::chars_of(name);
        if crate::text::equals_lit(&v, "print") {
            Some(CommandKind::Print)
        } else if crate::text::equals_lit(&v, "rpc") {
            Some(CommandKind::Rpc)
        } else if crate::text::equals_lit(&v, "session") {
            Some(CommandKind::Session)
        } else if crate::text::equals_lit(&v, "version") {
            Some(CommandKind::Version)
        } else if crate::text::equals_lit(&v, "install") {
            Some(CommandKind::Install)
        } else if crate::text::equals_lit(&v, "remove") {
            Some(CommandKind::Remove)
        } else if crate::text::equals_lit(&v, "list") {
            Some(CommandKind::List)
        } else if crate::text::equals_lit(&v, "update-models") {
            Some(CommandKind::UpdateModels)
        } else if crate::text::equals_lit(&v, "list-models") {
            Some(CommandKind::ListModels)
        } else {
            None
        }
    }
}

/// The run target: the subcommand decides; otherwise `--print`, then
/// `--rpc`, then the terminal UI.
pub open spec fn mode_target_spec(command: Option<CommandKind>, print: bool, rpc: bool) -> ModeTarget {
    match command {
        Some(CommandKind::Print) => ModeTarget::Print,
        Some(CommandKind::Rpc) => ModeTarget::Rpc,
        Some(CommandKind::Session) => ModeTarget::Session,
        Some(CommandKind::Version) | Some(CommandKind::Install) | Some(CommandKind::Remove) | Some(
            CommandKind::List,
        ) | Some(CommandKind::UpdateModels) | Some(CommandKind::ListModels) => ModeTarget::Packages,
        _ => if print {
            ModeTarget::Print
        } else if rpc {
            ModeTarget::Rpc
        } else {
            ModeTarget::Interactive
        },
    }
}

/// Pick the run target from the subcommand and the `--print` / `--rpc`
/// flags (`print` says whether `--print` was given).
pub fn detect_mode_target(command: Option<CommandKind>, print: bool, rpc: bool) -> (r: ModeTarget)
    ensures
        r == mode_target_spec(command, print, rpc),
{
    match command {
        Some(CommandKind::Print) => ModeTarget::Print,
        Some(CommandKind::Rpc) => ModeTarget::Rpc,
        Some(CommandKind::Session) => ModeTarget::Session,
        Some(CommandKind::Version) | Some(CommandKind::Install) | Some(CommandKind::Remove) | Some(
            CommandKind::List,
        ) | Some(CommandKind::UpdateModels) | Some(CommandKind::ListModels) => ModeTarget::Packages,
        _ => if print {
            ModeTarget::Print
        } else if rpc {
            ModeTarget::Rpc
        } else {
            ModeTarget::Interactive
        },
    }
}

/// Where startup notices go: always the log file, and stderr while the
/// mirror flag is on (it starts on).
#[derive(Debug, Clone, Copy, PartialEq, Eq)]
pub struct StartupLog {
    /// Whether notices are mirrored to stderr.
    pub mirror: bool,
}

/// A notice as one line of the log file.
pub open spec fn log_file_line(stamp: u64, line: Seq<char>) -> Seq<char> {
    "["@ + decimal(stamp as nat) + "] "@ + line + "\n"@
}

impl StartupLog {
    /// Mirroring on, as before any run target is known.
    pub fn new() -> (r: Self)
        ensures
            r.mirror,
    {
        StartupLog { mirror: true }
    }

    /// Turn mirroring to stderr on or off; the log file is written either
    /// way.
    pub fn set_mirror_to_stderr(&mut self, enabled: bool)
        ensures
            final(self).mirror == enabled,
    {
        self.mirror = enabled;
    }

    /// Whether notices are mirrored to stderr.
    pub fn mirror_to_stderr(&self) -> (r: bool)
        ensures
            r == self.mirror,
    {
        self.mirror
    }

    /// Record one notice stamped with `stamp` (seconds since the epoch):
    /// the text appended to the log file, and whether to echo `line` on
    /// stderr.
    pub fn log_message(&self, stamp: u64, line: &str) -> (r: (String, bool))
        ensures
            r.0@ == log_file_line(stamp, line@),
            r.1 == self.mirror,
    {
        let mut out = String::from_str("[");
        push_decimal(&mut out, stamp);
        push_str(&mut out, "] ");
        out.append(line);
        push_str(&mut out, "\n");
        (out, self.mirror)
    }
}

/// Mirroring is on exactly when the run is not interactive.
pub fn mirror_for(target: ModeTarget) -> (r: bool)
    ensures
        r == (target != ModeTarget::Interactive),
{
    match target {
        ModeTarget::Interactive => false,
        _ => true,
    }
}

} // verus!
