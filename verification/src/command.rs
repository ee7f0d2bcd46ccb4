//! Command descriptors: what a command is called, what it takes, where it may
//! run and which hooks guard it.

use crate::hooks::Hook;
use vstd::prelude::*;

verus! {

/// The declared kind of an option.
#[derive(Clone, Copy, PartialEq, Eq, Structural, Debug)]
pub enum OptionKind {
    SubCommand,
    SubCommandGroup,
    String,
    Integer,
    Boolean,
    User,
    Channel,
    Role,
    Mentionable,
    Number,
    /// A kind that this library does not know.
    Unknown,
}

/// One argument of a command, with the arguments below it. A command's
/// arguments nest at most three deep: group, subcommand, leaf.
#[derive(Debug)]
pub struct Arg {
    pub name: String,
    pub description: String,
    pub kind: OptionKind,
    pub required: bool,
    pub options: Vec<Arg>,
}

/// How a command's body takes its input.
#[derive(Clone, Copy, PartialEq, Eq, Structural, Debug)]
pub enum CommandFnType {
    /// The body takes the normalized options.
    Slash,
    /// The body takes the handle alone.
    Multi,
}

/// A command as registered: never changed afterwards.
#[derive(Debug)]
pub struct Command {
    pub fun: CommandFnType,
    /// The primary name, then the aliases.
    pub names: Vec<String>,
    pub desc: String,
    pub examples: Vec<String>,
    pub group: String,
    pub args: Vec<Arg>,
    pub can_blacklist: bool,
    pub supports_dm: bool,
    /// The command's own hooks, in the order in which they run.
    pub hooks: Vec<Hook>,
}

impl Command {
    /// A command has a primary name.
    pub open spec fn wf(&self) -> bool {
        self.names@.len() > 0
    }

    /// The primary name.
    pub open spec fn primary(&self) -> Seq<char>
        recommends
            self.wf(),
    {
        self.names@[0]@
    }

    /// Whether the command has a primary name, without which it cannot be
    /// registered.
    pub fn is_wf(&self) -> (r: bool)
        ensures
            r == self.wf(),
    {
        self.names.len() > 0
    }

    /// Whether `other` is the same command: commands are told apart by their
    /// primary names.
    pub fn same_command(&self, other: &Command) -> (r: bool)
        requires
            self.wf(),
            other.wf(),
        ensures
            r == (self.primary() == other.primary()),
    {
        self.names[0] == other.names[0]
    }
}

} // verus!
