//! Console commands sent by the node: the registry, how a command line is
//! split and matched, and what each command answers. Commands answer with
//! log lines; writing them out is the caller's.
use vstd::prelude::*;

use crate::text::is_unicode_whitespace;

pub mod execute;
pub mod parse;

verus! {

/// Name and description of a registered command, for the help listing.
#[derive(Debug, Clone)]
pub struct CommandInfo {
    pub name: String,
    pub description: String,
}

/// The commands the relay knows.
#[derive(Debug, Clone, Copy, PartialEq, Eq, Structural)]
pub enum CommandKind {
    Help,
    Stop,
    Restart,
    Status,
    Instances,
    Clients,
    Uptime,
    Version,
    Memory,
    Use,
    Tps,
    Threshold,
}

impl CommandKind {
    pub open spec fn spec_name(self) -> Seq<char> {
        match self {
            CommandKind::Help => "help"@,
            CommandKind::Stop => "stop"@,
            CommandKind::Restart => "restart"@,
            CommandKind::Status => "status"@,
            CommandKind::Instances => "instances"@,
            CommandKind::Clients => "clients"@,
            CommandKind::Uptime => "uptime"@,
            CommandKind::Version => "version"@,
            CommandKind::Memory => "memory"@,
            CommandKind::Use => "use"@,
            CommandKind::Tps => "tps"@,
            CommandKind::Threshold => "threshold"@,
        }
    }

    pub open spec fn spec_alias(self) -> Option<Seq<char>> {
        match self {
            CommandKind::Threshold => Some("th"@),
            _ => None,
        }
    }

    /// The command name.
    pub fn name(self) -> (s: &'static str)
        ensures
            s@ == self.spec_name(),
    {
        match self {
            CommandKind::Help => "help",
            CommandKind::Stop => "stop",
            CommandKind::Restart => "restart",
            CommandKind::Status => "status",
            CommandKind::Instances => "instances",
            CommandKind::Clients => "clients",
            CommandKind::Uptime => "uptime",
            CommandKind::Version => "version",
            CommandKind::Memory => "memory",
            CommandKind::Use => "use",
            CommandKind::Tps => "tps",
            CommandKind::Threshold => "threshold",
        }
    }

    /// The other name the command answers to, if any.
    pub fn alias(self) -> (s: Option<&'static str>)
        ensures
            match s {
                Some(a) => self.spec_alias() == Some(a@),
                None => self.spec_alias() is None,
            },
    {
        match self {
            CommandKind::Threshold => Some("th"),
            _ => None,
        }
    }

    /// The one-line description shown by `help`.
    pub open spec fn spec_description(self) -> Seq<char> {
        match self {
            CommandKind::Help => "Show this help message"@,
            CommandKind::Stop => "Gracefully stop the relay server"@,
            CommandKind::Restart => "Restart the relay server"@,
            CommandKind::Status => "Show relay status and statistics"@,
            CommandKind::Instances => "List all running instances"@,
            CommandKind::Clients => "List connected clients"@,
            CommandKind::Uptime => "Show relay uptime"@,
            CommandKind::Version => "Show relay version and engine info"@,
            CommandKind::Memory => "Show memory usage statistics"@,
            CommandKind::Use => "Select an instance by internal ID for subsequent tps/threshold commands"@,
            CommandKind::Tps => "Get or set the TPS of the selected instance"@,
            CommandKind::Threshold => "Get or set the transform threshold of the selected instance (alias: th)"@,
        }
    }

    /// The one-line description shown by `help`.
    pub fn description(self) -> (s: &'static str)
        ensures
            s@ == self.spec_description(),
    {
        match self {
            CommandKind::Help => "Show this help message",
            CommandKind::Stop => "Gracefully stop the relay server",
            CommandKind::Restart => "Restart the relay server",
            CommandKind::Status => "Show relay status and statistics",
            CommandKind::Instances => "List all running instances",
            CommandKind::Clients => "List connected clients",
            CommandKind::Uptime => "Show relay uptime",
            CommandKind::Version => "Show relay version and engine info",
            CommandKind::Memory => "Show memory usage statistics",
            CommandKind::Use => "Select an instance by internal ID for subsequent tps/threshold commands",
            CommandKind::Tps => "Get or set the TPS of the selected instance",
            CommandKind::Threshold => "Get or set the transform threshold of the selected instance (alias: th)",
        }
    }
}

/// `help`.
pub struct HelpCommand;
/// `stop`.
pub struct StopCommand;
/// `restart`.
pub struct RestartCommand;
/// `status`.
pub struct StatusCommand;
/// `instances`.
pub struct InstancesCommand;
/// `clients`.
pub struct ClientsCommand;
/// `uptime`.
pub struct UptimeCommand;
/// `version`.
pub struct VersionCommand;
/// `memory`.
pub struct MemoryCommand;
/// `use <internal_id>`.
pub struct UseCommand;
/// `tps [value]`.
pub struct TpsCommand;
/// `threshold [value]`, alias `th`.
pub struct ThresholdCommand;

/// The registered commands, in registration order (stop and restart were
/// registered twice; the first registration answers).
pub open spec fn registry() -> Seq<CommandKind> {
    seq![
        CommandKind::Help,
        CommandKind::Stop,
        CommandKind::Restart,
        CommandKind::Status,
        CommandKind::Instances,
        CommandKind::Clients,
        CommandKind::Uptime,
        CommandKind::Version,
        CommandKind::Memory,
        CommandKind::Stop,
        CommandKind::Restart,
        CommandKind::Use,
        CommandKind::Tps,
        CommandKind::Threshold,
    ]
}

/// The whitespace-separated words of `s`, in order.
pub open spec fn words(s: Seq<char>) -> Seq<Seq<char>>
    decreases s.len(),
{
    if s.len() == 0 {
        Seq::empty()
    } else {
        let w = words(s.drop_last());
        let c = s.last();
        if is_unicode_whitespace(c) {
            w
        } else if s.len() >= 2 && !is_unicode_whitespace(s[s.len() - 2]) {
            w.update(w.len() - 1, w.last().push(c))
        } else {
            w.push(seq![c])
        }
    }
}

/// `c` with ASCII upper case turned to lower case.
pub open spec fn ascii_lower(c: char) -> char {
    if 'A' <= c <= 'Z' {
        ((c as u32) + 32) as char
    } else {
        c
    }
}

/// Whether `word`, once ASCII-lower-cased, is the name or alias of `k`.
pub open spec fn answers_to(k: CommandKind, word: Seq<char>) -> bool {
    let lower = word.map_values(|c: char| ascii_lower(c));
    lower == k.spec_name() || k.spec_alias() == Some(lower)
}

/// Whether `i` is the first registered command that answers to `word`.
pub open spec fn is_first_match(cmds: Seq<CommandKind>, word: Seq<char>, i: int) -> bool {
    0 <= i < cmds.len() && answers_to(cmds[i], word) && forall|j: int| 0 <= j < i ==> !answers_to(#[trigger] cmds[j], word)
}

/// How a command line resolves.
pub enum Resolved {
    /// Nothing but whitespace.
    Empty,
    /// No command answers to the first word (given back).
    Unknown(String),
    /// The command and the words after it.
    Found(CommandKind, Vec<String>),
}

/// The registry that matches command lines to commands.
pub struct CommandRegistry {
    pub commands: Vec<CommandKind>,
    pub commands_info: Vec<CommandInfo>,
}

impl CommandRegistry {
    /// The relay's commands, with their help entries in the same order.
    pub fn new() -> (r: Self)
        ensures
            r.commands@ == registry(),
            r.commands_info@.len() == registry().len(),
            forall|i: int| 0 <= i < registry().len() ==> #[trigger] r.commands_info@[i].name@ == registry()[i].spec_name()
                && r.commands_info@[i].description@ == registry()[i].spec_description(),
    {
        let commands: Vec<CommandKind> = vec![
            CommandKind::Help,
            CommandKind::Stop,
            CommandKind::Restart,
            CommandKind::Status,
            CommandKind::Instances,
            CommandKind::Clients,
            CommandKind::Uptime,
            CommandKind::Version,
            CommandKind::Memory,
            CommandKind::Stop,
            CommandKind::Restart,
            CommandKind::Use,
            CommandKind::Tps,
            CommandKind::Threshold,
        ];
        assert(commands@ =~= registry());
        let mut commands_info: Vec<CommandInfo> = Vec::new();
        let mut i: usize = 0;
        while i < commands.len()
            invariant
                commands@ == registry(),
                i <= commands@.len(),
                commands_info@.len() == i,
                forall|j: int| 0 <= j < i ==> #[trigger] commands_info@[j].name@ == registry()[j].spec_name()
                    && commands_info@[j].description@ == registry()[j].spec_description(),
            decreases commands@.len() - i,
        {
            let k = commands[i];
            commands_info.push(CommandInfo { name: String::from_str(k.name()), description: String::from_str(k.description()) });
            i = i + 1;
        }
        CommandRegistry { commands, commands_info }
    }
}

} // verus!
