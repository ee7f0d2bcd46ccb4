//! Records of guilds and users as the persistence layer keeps them.

use vstd::prelude::*;

verus! {

/// A guild and the prefix its members begin commands with.
#[derive(Clone, Debug, PartialEq, Eq)]
pub struct GuildData {
    pub id: u32,
    pub name: String,
    pub prefix: String,
}

/// A user with the language and the time zone chosen.
#[derive(Clone, Debug, PartialEq, Eq)]
pub struct UserData {
    pub id: u32,
    pub user: u64,
    pub name: String,
    pub dm_channel: u32,
    pub language: String,
    pub timezone: String,
}

} // verus!
