//! The command line of `xrayctl`: the commands and the flags that select them.
use vstd::prelude::*;

verus! {

/// The whole command line.
#[derive(Debug)]
pub struct Cli {
    pub command: Commands,
}

/// The top-level commands.
#[derive(Debug)]
pub enum Commands {
    Subscription(SubArgs),
}

/// The arguments of `xrayctl sub`: at most one of the shortcut flags, or a
/// subcommand.
#[derive(Debug)]
pub struct SubArgs {
    pub start: bool,
    pub stop: bool,
    pub status: bool,
    pub list: bool,
    pub update: bool,
    pub generate: bool,
    pub command: Option<SubscriptionCommand>,
}

/// The subscription commands.
#[derive(Debug)]
#[allow(inconsistent_fields)]
pub enum SubscriptionCommand {
    Add { url: String },
    Show,
    Fetch,
    Info,
    List,
    Debug,
    ShowProfile { index: usize },
    Use { index: usize },
    Generate,
    Start { index: Option<usize> },
    Stop,
    Status,
    Update,
}

/// The command that `xrayctl sub` runs: the first shortcut flag set, in the
/// order start, stop, status, list, update, generate; else the subcommand.
pub open spec fn selected_command_spec(args: SubArgs) -> Option<SubscriptionCommand> {
    if args.start {
        Some(SubscriptionCommand::Start { index: None })
    } else if args.stop {
        Some(SubscriptionCommand::Stop)
    } else if args.status {
        Some(SubscriptionCommand::Status)
    } else if args.list {
        Some(SubscriptionCommand::List)
    } else if args.update {
        Some(SubscriptionCommand::Update)
    } else if args.generate {
        Some(SubscriptionCommand::Generate)
    } else {
        args.command
    }
}

impl SubArgs {
    /// The command that these arguments select.
    pub fn selected_command(self) -> (r: Option<SubscriptionCommand>)
        ensures
            r == selected_command_spec(self),
    {
        if self.start {
            Some(SubscriptionCommand::Start { index: None })
        } else if self.stop {
            Some(SubscriptionCommand::Stop)
        } else if self.status {
            Some(SubscriptionCommand::Status)
        } else if self.list {
            Some(SubscriptionCommand::List)
        } else if self.update {
            Some(SubscriptionCommand::Update)
        } else if self.generate {
            Some(SubscriptionCommand::Generate)
        } else {
            self.command
        }
    }
}

} // verus!
