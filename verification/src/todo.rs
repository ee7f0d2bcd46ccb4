//! The to-do lists: whose list a command means, and what to do with it.

use crate::text::view_of;
use vstd::prelude::*;
use vstd::string::StringExecFns;

verus! {

/// What to do with a to-do list.
#[derive(Clone, Copy, PartialEq, Eq, Structural, Debug)]
pub enum SubCommand {
    View,
    Add,
    Remove,
    Clear,
}

impl SubCommand {
    /// The word that asks for the subcommand; to view takes no word.
    pub open spec fn word(self) -> Seq<char> {
        match self {
            SubCommand::View => ""@,
            SubCommand::Add => "add"@,
            SubCommand::Remove => "remove"@,
            SubCommand::Clear => "clear"@,
        }
    }

    /// The subcommand that a word asks for: no word or an empty one is to
    /// view; any other word than the three known asks for nothing.
    pub open spec fn parse(value: Option<Seq<char>>) -> Result<SubCommand, ()> {
        match value {
            None => Ok(SubCommand::View),
            Some(w) => if w == "add"@ {
                Ok(SubCommand::Add)
            } else if w == "remove"@ {
                Ok(SubCommand::Remove)
            } else if w == "clear"@ {
                Ok(SubCommand::Clear)
            } else if w == ""@ {
                Ok(SubCommand::View)
            } else {
                Err(())
            },
        }
    }

    /// Reads a subcommand from the word that asks for it.
    pub fn try_from(value: Option<&str>) -> (r: Result<SubCommand, ()>)
        ensures
            r == SubCommand::parse(
                match value {
                    Some(w) => Some(w@),
                    None => None,
                },
            ),
    {
        match value {
            None => Ok(SubCommand::View),
            Some(w) => {
                let word = String::from_str(w);
                if word == String::from_str("add") {
                    Ok(SubCommand::Add)
                } else if word == String::from_str("remove") {
                    Ok(SubCommand::Remove)
                } else if word == String::from_str("clear") {
                    Ok(SubCommand::Clear)
                } else if word == String::from_str("") {
                    Ok(SubCommand::View)
                } else {
                    Err(())
                }
            },
        }
    }

    /// Writes the word that asks for the subcommand.
    pub fn to_string(&self) -> (r: String)
        ensures
            r@ == self.word(),
    {
        match self {
            SubCommand::View => String::from_str(""),
            SubCommand::Add => String::from_str("add"),
            SubCommand::Remove => String::from_str("remove"),
            SubCommand::Clear => String::from_str("clear"),
        }
    }
}

/// Whose to-do list is meant: that of a channel where one is given, else that
/// of a guild where one is given, else the user's own.
#[derive(Clone, Copy, PartialEq, Eq, Structural, Debug)]
pub struct TodoTarget {
    pub user: u64,
    pub guild: Option<u64>,
    pub channel: Option<u64>,
}

impl TodoTarget {
    /// The word for the kind of list in a command.
    pub open spec fn context(&self) -> Seq<char> {
        if self.channel is Some {
            "channel"@
        } else if self.guild is Some {
            "guild"@
        } else {
            "user"@
        }
    }

    /// The command that works on the list, as a user would type it.
    pub open spec fn command_text(&self, subcommand: Option<SubCommand>) -> Seq<char> {
        match subcommand {
            Some(s) => "todo "@ + self.context() + " "@ + s.word(),
            None => "todo "@ + self.context(),
        }
    }

    /// The kind of list as a title.
    pub open spec fn title(&self) -> Seq<char> {
        if self.channel is Some {
            "Channel"@
        } else if self.guild is Some {
            "Guild"@
        } else {
            "User"@
        }
    }

    fn context_word(&self) -> (r: &'static str)
        ensures
            r@ == self.context(),
    {
        if self.channel.is_some() {
            "channel"
        } else if self.guild.is_some() {
            "guild"
        } else {
            "user"
        }
    }

    /// Writes the command that works on the list.
    pub fn command(&self, subcommand_opt: Option<SubCommand>) -> (r: String)
        ensures
            r@ == self.command_text(subcommand_opt),
    {
        let mut out = String::from_str("todo ");
        out.append(self.context_word());
        match subcommand_opt {
            Some(subcommand) => {
                out.append(" ");
                out.append(subcommand.to_string().as_str());
            },
            None => {},
        }
        out
    }

    /// Writes the kind of list as a title.
    pub fn name(&self) -> (r: String)
        ensures
            r@ == self.title(),
    {
        if self.channel.is_some() {
            String::from_str("Channel")
        } else if self.guild.is_some() {
            String::from_str("Guild")
        } else {
            String::from_str("User")
        }
    }
}

} // verus!
