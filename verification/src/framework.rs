//! The registry of commands and the two matchers compiled from it.

use crate::catalog::{catalog, entries_of, schema_views, CommandSchema};
use crate::command::Command;
use crate::dispatch::{Dispatch, Phase};
use crate::hooks::Hook;
use crate::matcher::{
    by_length, dm_pattern, dm_pattern_string, error_text, groups_view, guild_pattern,
    captured, compiles, guild_pattern_string, sort_names, Matcher, PatternSource,
    DOT_MATCHES_LINE_BREAK,
};
use crate::text::{view_of, views};
use crate::options::{
    absorb_all, all_well_typed, check_well_typed, CommandOptions, DataOption, OptionsModel,
};
use vstd::prelude::*;
use vstd::string::StringExecFns;

verus! {

/// A name under which a command is known, and the place of that command among
/// the registered ones.
#[derive(Debug)]
pub struct NameEntry {
    pub name: String,
    pub command: usize,
}

/// Why the matchers could not be built.
#[derive(Debug)]
pub enum BuildError {
    /// The pattern for guild messages did not compile; the reason in words.
    Guild(String),
    /// The pattern for direct messages did not compile; the reason in words.
    Dm(String),
}

/// Why a structured trigger was not taken in.
#[derive(Clone, Copy, PartialEq, Eq, Structural, Debug)]
pub enum ExecuteError {
    /// A leaf of the option tree lacks the value that its kind asks for.
    InvalidOptions,
}

/// A command recognized in a message.
#[derive(Clone, Debug, PartialEq, Eq)]
pub struct TextMatch {
    /// The prefix in front of the name; none where the message began with a
    /// mention.
    pub prefix: Option<String>,
    /// The name as it stood in the message.
    pub command: String,
    /// What followed the name, word for word; empty where nothing did.
    pub args: String,
}

/// A recognized command as the contracts see it.
pub struct TextMatchModel {
    pub prefix: Option<Seq<char>>,
    pub command: Seq<char>,
    pub args: Seq<char>,
}

impl View for TextMatch {
    type V = TextMatchModel;

    open spec fn view(&self) -> TextMatchModel {
        TextMatchModel { prefix: view_of(self.prefix), command: self.command@, args: self.args@ }
    }
}

/// The view of an optional match.
pub open spec fn match_view(m: Option<TextMatch>) -> Option<TextMatchModel> {
    match m {
        Some(t) => Some(t@),
        None => None,
    }
}

/// What the groups of a match say: the name is the group `cmd`, the arguments
/// are the group `args` or empty, the prefix is the group `prefix`. Without a
/// match, or without a name, there is no command.
pub open spec fn interpret(
    groups: Option<(Option<Seq<char>>, Option<Seq<char>>, Option<Seq<char>>)>,
) -> Option<TextMatchModel> {
    match groups {
        Some((prefix, Some(cmd), args)) => Some(
            TextMatchModel {
                prefix,
                command: cmd,
                args: match args {
                    Some(a) => a,
                    None => Seq::empty(),
                },
            },
        ),
        _ => None,
    }
}

/// What a matcher compiled from `source` finds in `text`; a missing matcher
/// finds nothing.
pub open spec fn found(source: Option<PatternSource>, text: Seq<char>) -> Option<TextMatchModel> {
    match source {
        Some(source) => interpret(captured(source, text)),
        None => None,
    }
}

/// Whether `source` stands in the way of no build: there is nothing to
/// compile, or it compiles.
pub open spec fn absent_or_compiles(source: Option<PatternSource>) -> bool {
    match source {
        Some(source) => compiles(source),
        None => true,
    }
}

/// Reads a command out of the groups of a match.
pub fn interpret_captures(groups: Option<(Option<String>, Option<String>, Option<String>)>) -> (r:
    Option<TextMatch>)
    ensures
        match_view(r) == interpret(groups_view(groups)),
{
    match groups {
        Some((prefix, Some(command), args)) => {
            let args = match args {
                Some(a) => a,
                None => String::new(),
            };
            Some(TextMatch { prefix, command, args })
        },
        _ => None,
    }
}

/// The names of a list of entries.
pub open spec fn entry_names(entries: Seq<NameEntry>) -> Seq<Seq<char>> {
    Seq::new(entries.len(), |i: int| entries[i].name@)
}

/// The place of the first among the first `n` of `names` that equals `name`.
pub open spec fn find_name(names: Seq<Seq<char>>, n: nat, name: Seq<char>) -> Option<int>
    decreases n,
{
    if n == 0 || n > names.len() {
        None
    } else {
        match find_name(names, (n - 1) as nat, name) {
            Some(i) => Some(i),
            None => if names[n - 1] == name {
                Some(n - 1)
            } else {
                None
            },
        }
    }
}

/// The entries after `name` was given to the command at place `command`: a
/// name that is known changes hands, a new one is added at the end.
pub open spec fn register(entries: Seq<NameEntry>, name: String, command: usize) -> Seq<NameEntry> {
    match find_name(entry_names(entries), entries.len(), name@) {
        Some(i) => entries.update(i, NameEntry { name: entries[i].name, command }),
        None => entries.push(NameEntry { name, command }),
    }
}

/// The entries after the first `n` of `names` were given to the command at
/// place `command`, one after another.
pub open spec fn register_all(entries: Seq<NameEntry>, names: Seq<String>, n: nat, command: usize) -> Seq<
    NameEntry,
>
    decreases n,
{
    if n == 0 || n > names.len() {
        entries
    } else {
        register(register_all(entries, names, (n - 1) as nat, command), names[n - 1], command)
    }
}

/// The names among the first `n` entries whose command may run in direct
/// messages.
pub open spec fn dm_listed(entries: Seq<NameEntry>, commands: Seq<Command>, n: nat) -> Seq<Seq<char>>
    decreases n,
{
    if n == 0 || n > entries.len() {
        Seq::empty()
    } else {
        let before = dm_listed(entries, commands, (n - 1) as nat);
        let e = entries[n - 1];
        if e.command < commands.len() && commands[e.command as int].supports_dm {
            before.push(e.name@)
        } else {
            before
        }
    }
}

/// What the guild matcher is compiled from: the guild pattern over `names`,
/// the longest first; nothing where there is no name to match.
pub open spec fn guild_source_for(client_id: u64, fold_case: bool, names: Seq<Seq<char>>) -> Option<
    PatternSource,
> {
    if names.len() == 0 {
        None
    } else {
        Some(
            PatternSource {
                pattern: guild_pattern(client_id, by_length(names)),
                fold_case,
                dot_matches_line_break: DOT_MATCHES_LINE_BREAK,
            },
        )
    }
}

/// What the matcher for direct messages is compiled from: the pattern for
/// direct messages over `names`, the longest first; nothing where there is no
/// name to match.
pub open spec fn dm_source_for(client_id: u64, fold_case: bool, names: Seq<Seq<char>>) -> Option<
    PatternSource,
> {
    if names.len() == 0 {
        None
    } else {
        Some(
            PatternSource {
                pattern: dm_pattern(client_id, by_length(names)),
                fold_case,
                dot_matches_line_break: DOT_MATCHES_LINE_BREAK,
            },
        )
    }
}

/// What a matcher was compiled from.
pub open spec fn source_of(m: Option<Matcher>) -> Option<PatternSource> {
    match m {
        Some(m) => Some(m.source()),
        None => None,
    }
}

/// What the outcome of a compilation was compiled from; nothing where nothing
/// was compiled or the compilation failed.
pub open spec fn compiled_source(m: Option<Result<Matcher, regex::Error>>) -> Option<
    PatternSource,
> {
    match m {
        Some(Ok(m)) => Some(m.source()),
        _ => None,
    }
}

/// The settings of a framework as the contracts see them.
pub struct Settings {
    pub default_prefix: Seq<char>,
    pub client_id: u64,
    pub ignore_bots: bool,
    pub case_insensitive: bool,
    pub dm_enabled: bool,
    pub debug_guild: Option<u64>,
}

/// The commands of a bot, the names they go by, the global hooks, the
/// settings, and the matchers once they are built.
pub struct RegexFramework {
    registered: Vec<Command>,
    names: Vec<NameEntry>,
    command_matcher: Option<Matcher>,
    dm_regex_matcher: Option<Matcher>,
    default_prefix: String,
    client_id: u64,
    ignore_bots: bool,
    case_insensitive: bool,
    dm_enabled: bool,
    debug_guild: Option<u64>,
    hooks: Vec<Hook>,
    built: bool,
}

impl RegexFramework {
    #[verifier::type_invariant]
    spec fn inv(self) -> bool {
        &&& forall|i: int| 0 <= i < self.names@.len() ==> (#[trigger] self.names@[i]).command < self.registered@.len()
        &&& forall|i: int| 0 <= i < self.registered@.len() ==> (#[trigger] self.registered@[i]).wf()
    }

    /// Every command that was added, in the order of registration.
    pub closed spec fn commands(&self) -> Seq<Command> {
        self.registered@
    }

    /// The names that are known, each with the place of its command.
    pub closed spec fn entries(&self) -> Seq<NameEntry> {
        self.names@
    }

    /// The global hooks in the order of registration.
    pub closed spec fn global_hooks(&self) -> Seq<Hook> {
        self.hooks@
    }

    /// The settings.
    pub closed spec fn settings(&self) -> Settings {
        Settings {
            default_prefix: self.default_prefix@,
            client_id: self.client_id,
            ignore_bots: self.ignore_bots,
            case_insensitive: self.case_insensitive,
            dm_enabled: self.dm_enabled,
            debug_guild: self.debug_guild,
        }
    }

    /// Whether the matchers were built.
    pub closed spec fn is_built(&self) -> bool {
        self.built
    }

    /// What the guild matcher was compiled from, if there is one.
    pub closed spec fn guild_source(&self) -> Option<PatternSource> {
        source_of(self.command_matcher)
    }

    /// What the matcher for direct messages was compiled from, if there is one.
    pub closed spec fn dm_source(&self) -> Option<PatternSource> {
        source_of(self.dm_regex_matcher)
    }

    /// Whether `other` holds the same commands, names, hooks and matchers.
    pub open spec fn same_registry(&self, other: &RegexFramework) -> bool {
        &&& self.commands() == other.commands()
        &&& self.entries() == other.entries()
        &&& self.global_hooks() == other.global_hooks()
        &&& self.is_built() == other.is_built()
        &&& self.guild_source() == other.guild_source()
        &&& self.dm_source() == other.dm_source()
    }

    /// The command that goes by `name`, if one does.
    pub open spec fn command_named(&self, name: Seq<char>) -> Option<Command> {
        match find_name(entry_names(self.entries()), self.entries().len(), name) {
            Some(i) => Some(self.commands()[self.entries()[i].command as int]),
            None => None,
        }
    }

    /// A framework for the client `client_id` with no command, no hook and no
    /// matcher; it ignores bots, takes upper and lower case for the same and
    /// listens to direct messages.
    pub fn new(client_id: u64) -> (r: Self)
        ensures
            r.commands().len() == 0,
            r.entries().len() == 0,
            r.global_hooks().len() == 0,
            !r.is_built(),
            r.guild_source() is None,
            r.dm_source() is None,
            r.settings() == (Settings {
                default_prefix: Seq::empty(),
                client_id,
                ignore_bots: true,
                case_insensitive: true,
                dm_enabled: true,
                debug_guild: None,
            }),
    {
        RegexFramework {
            registered: Vec::new(),
            names: Vec::new(),
            command_matcher: None,
            dm_regex_matcher: None,
            default_prefix: String::new(),
            client_id,
            ignore_bots: true,
            case_insensitive: true,
            dm_enabled: true,
            debug_guild: None,
            hooks: Vec::new(),
            built: false,
        }
    }

    /// Sets whether the matchers take upper and lower case for the same.
    pub fn case_insensitive(self, case_insensitive: bool) -> (r: Self)
        ensures
            r.settings() == (Settings { case_insensitive, ..self.settings() }),
            r.same_registry(&self),
    {
        proof {
            use_type_invariant(&self);
        }
        let mut r = self;
        r.case_insensitive = case_insensitive;
        r
    }

    /// Sets the prefix that commands begin with where a guild has none of its
    /// own.
    pub fn default_prefix(self, new_prefix: &str) -> (r: Self)
        ensures
            r.settings() == (Settings { default_prefix: new_prefix@, ..self.settings() }),
            r.same_registry(&self),
    {
        proof {
            use_type_invariant(&self);
        }
        let mut r = self;
        r.default_prefix = String::from_str(new_prefix);
        r
    }

    /// Sets whether messages of bots are ignored.
    pub fn ignore_bots(self, ignore_bots: bool) -> (r: Self)
        ensures
            r.settings() == (Settings { ignore_bots, ..self.settings() }),
            r.same_registry(&self),
    {
        proof {
            use_type_invariant(&self);
        }
        let mut r = self;
        r.ignore_bots = ignore_bots;
        r
    }

    /// Sets whether direct messages are listened to.
    pub fn dm_enabled(self, dm_enabled: bool) -> (r: Self)
        ensures
            r.settings() == (Settings { dm_enabled, ..self.settings() }),
            r.same_registry(&self),
    {
        proof {
            use_type_invariant(&self);
        }
        let mut r = self;
        r.dm_enabled = dm_enabled;
        r
    }

    /// Sets the guild to which the command catalog is published while
    /// testing.
    pub fn debug_guild(self, guild_id: Option<u64>) -> (r: Self)
        ensures
            r.settings() == (Settings { debug_guild: guild_id, ..self.settings() }),
            r.same_registry(&self),
    {
        proof {
            use_type_invariant(&self);
        }
        let mut r = self;
        r.debug_guild = guild_id;
        r
    }

    /// Adds a global hook behind those that are there.
    pub fn add_hook(self, fun: Hook) -> (r: Self)
        ensures
            r.global_hooks() == self.global_hooks().push(fun),
            r.settings() == self.settings(),
            r.commands() == self.commands(),
            r.entries() == self.entries(),
            r.is_built() == self.is_built(),
            r.guild_source() == self.guild_source(),
            r.dm_source() == self.dm_source(),
    {
        proof {
            use_type_invariant(&self);
        }
        let RegexFramework {
            registered,
            names,
            command_matcher,
            dm_regex_matcher,
            default_prefix,
            client_id,
            ignore_bots,
            case_insensitive,
            dm_enabled,
            debug_guild,
            hooks,
            built,
        } = self;
        let mut hooks = hooks;
        hooks.push(fun);
        RegexFramework {
            registered,
            names,
            command_matcher,
            dm_regex_matcher,
            default_prefix,
            client_id,
            ignore_bots,
            case_insensitive,
            dm_enabled,
            debug_guild,
            hooks,
            built,
        }
    }

    /// Registers a command under its primary name and each of its aliases. A
    /// name that another command went by goes to the new command. Commands
    /// are added before the matchers are built, not after.
    pub fn add_command(self, command: Command) -> (r: Self)
        requires
            command.wf(),
            !self.is_built(),
        ensures
            r.commands() == self.commands().push(command),
            r.entries() == register_all(
                self.entries(),
                command.names@,
                command.names@.len(),
                self.commands().len() as usize,
            ),
            r.global_hooks() == self.global_hooks(),
            r.settings() == self.settings(),
            !r.is_built(),
            r.guild_source() == self.guild_source(),
            r.dm_source() == self.dm_source(),
    {
        proof {
            use_type_invariant(&self);
        }
        let RegexFramework {
            registered,
            names,
            command_matcher,
            dm_regex_matcher,
            default_prefix,
            client_id,
            ignore_bots,
            case_insensitive,
            dm_enabled,
            debug_guild,
            hooks,
            built,
        } = self;
        let mut registered = registered;
        let mut names = names;
        let place: usize = registered.len();
        let ghost before = names@;
        let mut i: usize = 0;
        while i < command.names.len()
            invariant
                i <= command.names.len(),
                place == registered@.len(),
                names@ == register_all(before, command.names@, i as nat, place),
                forall|j: int| 0 <= j < names@.len() ==> (#[trigger] names@[j]).command <= place,
            decreases command.names.len() - i,
        {
            let name = command.names[i].clone();
            match find_entry(&names, &name) {
                Some(at) => {
                    let kept = names[at].name.clone();
                    names.set(at, NameEntry { name: kept, command: place });
                },
                None => {
                    names.push(NameEntry { name, command: place });
                },
            }
            i = i + 1;
        }
        registered.push(command);
        RegexFramework {
            registered,
            names,
            command_matcher,
            dm_regex_matcher,
            default_prefix,
            client_id,
            ignore_bots,
            case_insensitive,
            dm_enabled,
            debug_guild,
            hooks,
            built,
        }
    }

    /// The command that goes by `name`, if one does.
    pub fn command_for(&self, name: &str) -> (r: Option<&Command>)
        ensures
            match r {
                Some(c) => self.command_named(name@) == Some(*c) && c.wf(),
                None => self.command_named(name@) is None,
            },
    {
        proof {
            use_type_invariant(self);
        }
        let wanted = String::from_str(name);
        match find_entry(&self.names, &wanted) {
            Some(at) => Some(&self.registered[self.names[at].command]),
            None => None,
        }
    }

    fn known_command(&self, name: &str) -> (r: &Command)
        requires
            self.command_named(name@) is Some,
        ensures
            self.command_named(name@) == Some(*r),
            r.wf(),
    {
        proof {
            use_type_invariant(self);
        }
        let wanted = String::from_str(name);
        let at = entry_place(&self.names, &wanted);
        &self.registered[self.names[at].command]
    }

    /// The command that the options name, for the caller to run its body.
    /// The options must name a command that is registered; `command_for`
    /// tells whether they do.
    pub fn run_command_from_options(&self, command_options: &CommandOptions) -> (r: &Command)
        requires
            self.command_named(command_options@.command) is Some,
        ensures
            self.command_named(command_options@.command) == Some(*r),
            r.wf(),
    {
        self.known_command(command_options.command.as_str())
    }

    /// Takes in a structured trigger: finds the command that it names, reads
    /// its options, and sets up the run through the command's own hooks and
    /// then the global ones. The trigger must name a command that is
    /// registered: one that does not shows that the published catalog and the
    /// registry have come apart, and is no input to go on with; `command_for`
    /// tells whether it does. A leaf without the value its kind asks for is an
    /// error.
    pub fn execute(&self, name: &str, options: &Vec<DataOption>, user: u64) -> (r: Result<
        (&Command, CommandOptions, Dispatch),
        ExecuteError,
    >)
        requires
            self.command_named(name@) is Some,
        ensures
            (r is Ok) == all_well_typed(options@, options@.len()),
            match r {
                Ok((command, args, dispatch)) => {
                    &&& self.command_named(name@) == Some(*command)
                    &&& args@ == absorb_all(
                        OptionsModel {
                            command: command.primary(),
                            subcommand: None,
                            subcommand_group: None,
                            options: Map::empty(),
                        },
                        options@,
                        options@.len(),
                    )
                    &&& dispatch@.chain == command.hooks@ + self.global_hooks()
                    &&& dispatch@.user == user
                    &&& dispatch@.phase == Phase::Ready
                },
                Err(e) => e == ExecuteError::InvalidOptions,
            },
    {
        let command = self.known_command(name);
        if !check_well_typed(options) {
            return Err(ExecuteError::InvalidOptions);
        }
        let args = CommandOptions::new(command).populate(options);
        let dispatch = Dispatch::new(&command.hooks, &self.hooks, user);
        Ok((command, args, dispatch))
    }

    /// The names of the commands that may run in direct messages, in the
    /// order of first registration.
    pub fn dm_names(&self) -> (r: Vec<String>)
        ensures
            views(r@) == dm_listed(self.entries(), self.commands(), self.entries().len()),
    {
        proof {
            use_type_invariant(self);
        }
        let mut out: Vec<String> = Vec::new();
        let mut i: usize = 0;
        assert(views(out@) =~= dm_listed(self.names@, self.registered@, 0));
        while i < self.names.len()
            invariant
                i <= self.names.len(),
                forall|k: int|
                    0 <= k < self.names@.len() ==> (#[trigger] self.names@[k]).command
                        < self.registered@.len(),
                views(out@) == dm_listed(self.names@, self.registered@, i as nat),
            decreases self.names.len() - i,
        {
            if self.registered[self.names[i].command].supports_dm {
                let ghost sofar = out@;
                let name = self.names[i].name.clone();
                out.push(name);
                assert(views(out@) =~= views(sofar).push(name@));
            }
            i = i + 1;
        }
        out
    }

    /// Puts the two compiled matchers in place, or reports the pattern that
    /// did not compile: that for guild messages first. A matcher that is not
    /// given stays away, and its kind of message then matches nothing.
    pub fn with_matchers(
        self,
        guild: Option<Result<Matcher, regex::Error>>,
        dm: Option<Result<Matcher, regex::Error>>,
    ) -> (r: Result<Self, BuildError>)
        ensures
            match r {
                Ok(f) => {
                    &&& !(guild matches Some(Err(_)))
                    &&& !(dm matches Some(Err(_)))
                    &&& f.is_built()
                    &&& f.guild_source() == compiled_source(guild)
                    &&& f.dm_source() == compiled_source(dm)
                    &&& f.commands() == self.commands()
                    &&& f.entries() == self.entries()
                    &&& f.global_hooks() == self.global_hooks()
                    &&& f.settings() == self.settings()
                },
                Err(BuildError::Guild(_)) => guild matches Some(Err(_)),
                Err(BuildError::Dm(_)) => !(guild matches Some(Err(_))) && dm matches Some(Err(_)),
            },
    {
        proof {
            use_type_invariant(&self);
        }
        let command_matcher = match guild {
            Some(Ok(m)) => Some(m),
            Some(Err(e)) => {
                return Err(BuildError::Guild(error_text(&e)));
            },
            None => None,
        };
        let dm_regex_matcher = match dm {
            Some(Ok(m)) => Some(m),
            Some(Err(e)) => {
                return Err(BuildError::Dm(error_text(&e)));
            },
            None => None,
        };
        let RegexFramework {
            registered,
            names,
            command_matcher: _,
            dm_regex_matcher: _,
            default_prefix,
            client_id,
            ignore_bots,
            case_insensitive,
            dm_enabled,
            debug_guild,
            hooks,
            built: _,
        } = self;
        Ok(
            RegexFramework {
                registered,
                names,
                command_matcher,
                dm_regex_matcher,
                default_prefix,
                client_id,
                ignore_bots,
                case_insensitive,
                dm_enabled,
                debug_guild,
                hooks,
                built: true,
            },
        )
    }

    /// What the guild matcher of this framework is to be compiled from.
    pub open spec fn guild_plan(&self) -> Option<PatternSource> {
        guild_source_for(
            self.settings().client_id,
            self.settings().case_insensitive,
            entry_names(self.entries()),
        )
    }

    /// What the matcher for direct messages of this framework is to be
    /// compiled from.
    pub open spec fn dm_plan(&self) -> Option<PatternSource> {
        dm_source_for(
            self.settings().client_id,
            self.settings().case_insensitive,
            dm_listed(self.entries(), self.commands(), self.entries().len()),
        )
    }

    /// Builds the two matchers from the names that are known.
    ///
    /// The guild matcher is compiled from the guild pattern over all names,
    /// the longest first; the matcher for direct messages from the pattern for
    /// direct messages over the names of the commands that may run there. A
    /// framework without such names gets no matcher of that kind, and nothing
    /// of that kind matches. The commands, names, hooks and settings stay as
    /// they are. The build succeeds exactly when each pattern that there is
    /// compiles; an error names the pattern that did not, that for guild
    /// messages first.
    pub fn build(self) -> (r: Result<Self, BuildError>)
        ensures
            (r is Ok) == (absent_or_compiles(self.guild_plan()) && absent_or_compiles(
                self.dm_plan(),
            )),
            (r matches Err(BuildError::Guild(_))) == !absent_or_compiles(self.guild_plan()),
            (r matches Err(BuildError::Dm(_))) == (absent_or_compiles(self.guild_plan())
                && !absent_or_compiles(self.dm_plan())),
            match r {
                Ok(f) => {
                    &&& f.is_built()
                    &&& f.guild_source() == self.guild_plan()
                    &&& f.dm_source() == self.dm_plan()
                    &&& f.commands() == self.commands()
                    &&& f.entries() == self.entries()
                    &&& f.global_hooks() == self.global_hooks()
                    &&& f.settings() == self.settings()
                },
                Err(_) => true,
            },
    {
        let names = self.all_names();
        let guild = if names.len() == 0 {
            None
        } else {
            let sorted = sort_names(&names);
            Some(
                Matcher::compile(
                    guild_pattern_string(self.client_id, &sorted),
                    self.case_insensitive,
                    DOT_MATCHES_LINE_BREAK,
                ),
            )
        };
        let dm_names = self.dm_names();
        let dm = if dm_names.len() == 0 {
            None
        } else {
            let sorted = sort_names(&dm_names);
            Some(
                Matcher::compile(
                    dm_pattern_string(self.client_id, &sorted),
                    self.case_insensitive,
                    DOT_MATCHES_LINE_BREAK,
                ),
            )
        };
        self.with_matchers(guild, dm)
    }

    /// Looks for a command in a message sent in a guild.
    pub fn match_guild(&self, text: &str) -> (r: Option<TextMatch>)
        ensures
            match_view(r) == found(self.guild_source(), text@),
    {
        match &self.command_matcher {
            Some(m) => interpret_captures(m.captures(text)),
            None => None,
        }
    }

    /// Looks for a command in a direct message.
    pub fn match_dm(&self, text: &str) -> (r: Option<TextMatch>)
        ensures
            match_view(r) == found(self.dm_source(), text@),
    {
        match &self.dm_regex_matcher {
            Some(m) => interpret_captures(m.captures(text)),
            None => None,
        }
    }

    /// Every command that was added, in the order of registration.
    pub fn registered_commands(&self) -> (r: &Vec<Command>)
        ensures
            r@ == self.commands(),
    {
        &self.registered
    }

    /// The catalog of slash commands to publish: one entry for each primary
    /// name, with the options three levels deep.
    pub fn catalog(&self) -> (r: Vec<CommandSchema>)
        ensures
            schema_views(r@) == entries_of(self.commands(), self.commands().len()),
    {
        proof {
            use_type_invariant(self);
        }
        catalog(&self.registered)
    }

    /// The global hooks in the order of registration.
    pub fn hooks(&self) -> (r: &Vec<Hook>)
        ensures
            r@ == self.global_hooks(),
    {
        &self.hooks
    }

    /// The client that the matchers take a mention of.
    pub fn client_id(&self) -> (r: u64)
        ensures
            r == self.settings().client_id,
    {
        self.client_id
    }

    /// Whether messages of bots are ignored.
    pub fn ignores_bots(&self) -> (r: bool)
        ensures
            r == self.settings().ignore_bots,
    {
        self.ignore_bots
    }

    /// Whether direct messages are listened to.
    pub fn is_dm_enabled(&self) -> (r: bool)
        ensures
            r == self.settings().dm_enabled,
    {
        self.dm_enabled
    }

    /// Whether the matchers take upper and lower case for the same.
    pub fn is_case_insensitive(&self) -> (r: bool)
        ensures
            r == self.settings().case_insensitive,
    {
        self.case_insensitive
    }

    /// The guild to which the command catalog is published while testing.
    pub fn debug_guild_id(&self) -> (r: Option<u64>)
        ensures
            r == self.settings().debug_guild,
    {
        self.debug_guild
    }

    /// The prefix that commands begin with where a guild has none of its own.
    pub fn prefix(&self) -> (r: &String)
        ensures
            r@ == self.settings().default_prefix,
    {
        &self.default_prefix
    }

    /// Whether the matchers were built.
    pub fn built(&self) -> (r: bool)
        ensures
            r == self.is_built(),
    {
        self.built
    }

    /// Every name that is known, in the order of first registration.
    pub fn all_names(&self) -> (r: Vec<String>)
        ensures
            views(r@) == entry_names(self.entries()),
    {
        let mut out: Vec<String> = Vec::new();
        let mut i: usize = 0;
        assert(views(out@) =~= entry_names(self.names@.subrange(0, 0)));
        while i < self.names.len()
            invariant
                i <= self.names.len(),
                views(out@) == entry_names(self.names@.subrange(0, i as int)),
            decreases self.names.len() - i,
        {
            let ghost sofar = out@;
            let name = self.names[i].name.clone();
            out.push(name);
            assert(views(out@) =~= views(sofar).push(name@));
            assert(entry_names(self.names@.subrange(0, i + 1)) =~= entry_names(
                self.names@.subrange(0, i as int),
            ).push(name@));
            i = i + 1;
        }
        assert(self.names@.subrange(0, self.names@.len() as int) =~= self.names@);
        out
    }
}

/// The place of the first entry that goes by `name`, where there is one.
fn entry_place(entries: &Vec<NameEntry>, name: &String) -> (r: usize)
    requires
        find_name(entry_names(entries@), entries@.len(), name@) is Some,
    ensures
        r < entries@.len(),
        find_name(entry_names(entries@), entries@.len(), name@) == Some(r as int),
{
    match find_entry(entries, name) {
        Some(at) => at,
        None => 0,
    }
}

/// Finds the first entry that goes by `name`.
fn find_entry(entries: &Vec<NameEntry>, name: &String) -> (r: Option<usize>)
    ensures
        match r {
            Some(i) => i < entries@.len() && find_name(entry_names(entries@), entries@.len(), name@)
                == Some(i as int),
            None => find_name(entry_names(entries@), entries@.len(), name@) is None,
        },
{
    let mut i: usize = 0;
    while i < entries.len()
        invariant
            i <= entries.len(),
            find_name(entry_names(entries@), i as nat, name@) is None,
        decreases entries.len() - i,
    {
        if entries[i].name == *name {
            proof {
                lemma_found_stays(entry_names(entries@), (i + 1) as nat, entries@.len(), name@);
            }
            return Some(i);
        }
        i = i + 1;
    }
    None
}

proof fn lemma_find_prefix(a: Seq<Seq<char>>, b: Seq<Seq<char>>, n: nat, x: Seq<char>)
    requires
        n <= a.len(),
        n <= b.len(),
        forall|i: int| 0 <= i < n ==> a[i] == b[i],
    ensures
        find_name(a, n, x) == find_name(b, n, x),
    decreases n,
{
    if n > 0 {
        lemma_find_prefix(a, b, (n - 1) as nat, x);
    }
}

proof fn lemma_find_is_first(names: Seq<Seq<char>>, n: nat, x: Seq<char>)
    requires
        n <= names.len(),
    ensures
        match find_name(names, n, x) {
            Some(i) => 0 <= i < n && names[i] == x,
            None => forall|j: int| 0 <= j < n ==> names[j] != x,
        },
    decreases n,
{
    if n > 0 {
        lemma_find_is_first(names, (n - 1) as nat, x);
    }
}

proof fn lemma_register(entries: Seq<NameEntry>, name: String, command: usize, x: Seq<char>)
    ensures
        ({
            let r = register(entries, name, command);
            let before = find_name(entry_names(entries), entries.len(), x);
            let after = find_name(entry_names(r), r.len(), x);
            &&& r.len() >= entries.len()
            &&& after is Some ==> 0 <= after.unwrap() < r.len() && r[after.unwrap()].name@ == x
            &&& before is Some ==> after == before
            &&& x == name@ ==> after is Some && r[after.unwrap()].command == command
            &&& x != name@ ==> after == before
            &&& x != name@ && before is Some ==> r[before.unwrap()].command
                == entries[before.unwrap()].command
        }),
{
    let r = register(entries, name, command);
    let old_names = entry_names(entries);
    let new_names = entry_names(r);
    lemma_find_is_first(old_names, entries.len(), x);
    lemma_find_is_first(old_names, entries.len(), name@);
    lemma_find_is_first(new_names, r.len(), x);
    match find_name(old_names, entries.len(), name@) {
        Some(i) => {
            assert(new_names =~= old_names);
        },
        None => {
            assert(new_names =~= old_names.push(name@));
            lemma_find_prefix(old_names, new_names, entries.len(), x);
        },
    }
}

/// Every name and alias of a command is known once the command is added, and
/// leads to that command.
pub proof fn law_added_names_are_found(
    entries: Seq<NameEntry>,
    names: Seq<String>,
    n: nat,
    command: usize,
    k: int,
)
    requires
        0 <= k < n <= names.len(),
    ensures
        ({
            let r = register_all(entries, names, n, command);
            let at = find_name(entry_names(r), r.len(), names[k]@);
            at is Some && 0 <= at.unwrap() < r.len() && r[at.unwrap()].command == command
        }),
    decreases n,
{
    let before = register_all(entries, names, (n - 1) as nat, command);
    lemma_register(before, names[n - 1], command, names[k]@);
    if k < n - 1 {
        law_added_names_are_found(entries, names, (n - 1) as nat, command, k);
    }
}

/// Adding a command leaves every name that is not one of its own where it
/// was: known or unknown as before, and with the same command.
pub proof fn law_other_names_unchanged(
    entries: Seq<NameEntry>,
    names: Seq<String>,
    n: nat,
    command: usize,
    x: Seq<char>,
)
    requires
        n <= names.len(),
        forall|k: int| 0 <= k < n ==> (#[trigger] names[k])@ != x,
    ensures
        ({
            let r = register_all(entries, names, n, command);
            let before = find_name(entry_names(entries), entries.len(), x);
            let after = find_name(entry_names(r), r.len(), x);
            after == before && (before is Some ==> 0 <= before.unwrap() < entries.len()
                && before.unwrap() < r.len() && r[before.unwrap()].command
                == entries[before.unwrap()].command)
        }),
    decreases n,
{
    lemma_find_is_first(entry_names(entries), entries.len(), x);
    if n > 0 {
        law_other_names_unchanged(entries, names, (n - 1) as nat, command, x);
        let before = register_all(entries, names, (n - 1) as nat, command);
        assert(names[n - 1]@ != x);
        lemma_register(before, names[n - 1], command, x);
    }
}

/// Whether one of the first `n` entries goes by `name` and belongs to a
/// command that may run in direct messages.
pub open spec fn dm_eligible(entries: Seq<NameEntry>, commands: Seq<Command>, n: nat, name: Seq<char>) -> bool {
    exists|k: int|
        0 <= k < n && k < entries.len() && (#[trigger] entries[k]).name@ == name
            && entries[k].command < commands.len()
            && commands[entries[k].command as int].supports_dm
}

/// Only commands that may run in direct messages lend their names to the
/// matcher for direct messages: every name listed for it belongs to such a
/// command, and every name of such a command is listed. A name that no such
/// command goes by is not among the alternatives, whatever the guild matcher
/// makes of it.
pub proof fn law_dm_names_are_eligible(entries: Seq<NameEntry>, commands: Seq<Command>, n: nat)
    requires
        n <= entries.len(),
    ensures
        forall|j: int|
            0 <= j < dm_listed(entries, commands, n).len() ==> dm_eligible(
                entries,
                commands,
                n,
                #[trigger] dm_listed(entries, commands, n)[j],
            ),
        forall|name: Seq<char>|
            dm_eligible(entries, commands, n, name) ==> #[trigger] dm_listed(
                entries,
                commands,
                n,
            ).contains(name),
    decreases n,
{
    if n > 0 {
        law_dm_names_are_eligible(entries, commands, (n - 1) as nat);
        let before = dm_listed(entries, commands, (n - 1) as nat);
        let now = dm_listed(entries, commands, n);
        let e = entries[n - 1];
        assert forall|j: int| 0 <= j < now.len() implies dm_eligible(
            entries,
            commands,
            n,
            #[trigger] now[j],
        ) by {
            if j < before.len() {
                assert(now[j] == before[j]);
                assert(dm_eligible(entries, commands, (n - 1) as nat, before[j]));
                let k = choose|k: int|
                    0 <= k < n - 1 && k < entries.len() && (#[trigger] entries[k]).name@
                        == before[j] && entries[k].command < commands.len()
                        && commands[entries[k].command as int].supports_dm;
                assert(entries[k].name@ == now[j]);
            } else {
                assert(entries[n - 1].name@ == now[j]);
            }
        }
        assert forall|name: Seq<char>| dm_eligible(entries, commands, n, name) implies now.contains(
            name,
        ) by {
            let k = choose|k: int|
                0 <= k < n && k < entries.len() && (#[trigger] entries[k]).name@ == name
                    && entries[k].command < commands.len()
                    && commands[entries[k].command as int].supports_dm;
            if k < n - 1 {
                assert(dm_eligible(entries, commands, (n - 1) as nat, name));
                assert(before.contains(name));
                let w = choose|w: int| 0 <= w < before.len() && before[w] == name;
                assert(now[w] == name);
            } else {
                assert(now[now.len() - 1] == name);
            }
        }
    }
}

proof fn lemma_found_stays(names: Seq<Seq<char>>, k: nat, n: nat, name: Seq<char>)
    requires
        k <= n <= names.len(),
        find_name(names, k, name) is Some,
    ensures
        find_name(names, n, name) == find_name(names, k, name),
    decreases n - k,
{
    if k < n {
        lemma_found_stays(names, k, (n - 1) as nat, name);
    }
}

} // verus!
