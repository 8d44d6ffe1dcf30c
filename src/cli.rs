//! The supervisor's commands, as its command line names them.
use vstd::prelude::*;

verus! {

/// The parsed command line.
pub struct Cli {
    pub command: Option<Commands>,
}

/// What `daemon` does with the bridge and adapters running in the background.
#[derive(Clone, Copy, Debug, PartialEq, Eq, Structural)]
pub enum DaemonCommands {
    Start,
    Status { json: bool },
    Stop,
    Restart,
}

/// The subcommands.
pub enum Commands {
    Daemon { action: DaemonCommands },
    Start { provider: String },
    Gemini { new: bool },
    Anthropic { new: bool },
    Codex { new: bool },
    Opencode { new: bool },
    Dummy { new: bool },
    Stop,
    Restart,
    Status,
    Init,
    Tick,
    Pub { message: String, channel: Option<String> },
    Reset,
}

/// The provider that a plain start uses.
pub const DEFAULT_PROVIDER: &'static str = "Gemini";

impl Cli {
    /// The command to run: the one given, or a start with the default provider.
    pub fn command_or_default(self) -> (r: Commands)
        ensures
            match self.command {
                Some(c) => r == c,
                None => r matches Commands::Start { provider } && provider@ == DEFAULT_PROVIDER@,
            },
    {
        match self.command {
            Some(c) => c,
            None => Commands::Start { provider: DEFAULT_PROVIDER.to_owned() },
        }
    }
}

impl Commands {
    /// For a provider shorthand, the provider it starts and whether it asks for
    /// a new session; `None` for any other command.
    pub fn provider_shorthand(&self) -> (r: Option<(&'static str, bool)>)
        ensures
            match self {
                Commands::Gemini { new } => r matches Some(p) && p.0@ == "Gemini"@ && p.1 == *new,
                Commands::Anthropic { new } => r matches Some(p) && p.0@ == "Anthropic"@ && p.1 == *new,
                Commands::Codex { new } => r matches Some(p) && p.0@ == "Codex"@ && p.1 == *new,
                Commands::Opencode { new } => r matches Some(p) && p.0@ == "OpenCode"@ && p.1
                    == *new,
                Commands::Dummy { new } => r matches Some(p) && p.0@ == "Dummy"@ && p.1 == *new,
                _ => r is None,
            },
    {
        match self {
            Commands::Gemini { new } => Some(("Gemini", *new)),
            Commands::Anthropic { new } => Some(("Anthropic", *new)),
            Commands::Codex { new } => Some(("Codex", *new)),
            Commands::Opencode { new } => Some(("OpenCode", *new)),
            Commands::Dummy { new } => Some(("Dummy", *new)),
            _ => None,
        }
    }
}

} // verus!
