//! The catalog of slash commands as it is published: for each command its
//! name, its description and its options, three levels deep.

use crate::command::{Arg, Command, OptionKind};
use vstd::prelude::*;

verus! {

/// How many levels of options lie below the options of a command in the
/// catalog: an option, its sub-options, and theirs.
pub const SUB_LEVELS: usize = 2;

/// An option as the catalog lists it.
#[derive(Debug)]
pub struct OptionSchema {
    pub name: String,
    pub description: String,
    pub kind: OptionKind,
    pub required: bool,
    pub options: Vec<OptionSchema>,
}

/// A command as the catalog lists it.
#[derive(Debug)]
pub struct CommandSchema {
    pub name: String,
    pub description: String,
    pub options: Vec<OptionSchema>,
}

/// An option of the catalog as the contracts see it.
pub struct OptionModel {
    pub name: Seq<char>,
    pub description: Seq<char>,
    pub kind: OptionKind,
    pub required: bool,
    pub options: Seq<OptionModel>,
}

/// A command of the catalog as the contracts see it.
pub struct CommandModel {
    pub name: Seq<char>,
    pub description: Seq<char>,
    pub options: Seq<OptionModel>,
}

/// The argument `arg` with `levels` levels of the arguments below it; what
/// lies deeper is not listed.
pub open spec fn listed(arg: Arg, levels: nat) -> OptionModel
    decreases levels, 0nat,
{
    OptionModel {
        name: arg.name@,
        description: arg.description@,
        kind: arg.kind,
        required: arg.required,
        options: if levels == 0 {
            Seq::empty()
        } else {
            all_listed(arg.options@, arg.options@.len(), (levels - 1) as nat)
        },
    }
}

/// The first `n` of `args`, each with `levels` levels below it.
pub open spec fn all_listed(args: Seq<Arg>, n: nat, levels: nat) -> Seq<OptionModel>
    decreases levels, n,
{
    if n == 0 || n > args.len() {
        Seq::empty()
    } else {
        all_listed(args, (n - 1) as nat, levels).push(listed(args[n - 1], levels))
    }
}

/// What an option of the catalog holds, level by level.
pub open spec fn option_model(o: OptionSchema) -> OptionModel
    decreases o, 0nat,
{
    OptionModel {
        name: o.name@,
        description: o.description@,
        kind: o.kind,
        required: o.required,
        options: option_models(o.options@, o.options@.len()),
    }
}

/// What the first `n` of `options` hold.
pub open spec fn option_models(options: Seq<OptionSchema>, n: nat) -> Seq<OptionModel>
    decreases options, n,
{
    if n == 0 || n > options.len() {
        Seq::empty()
    } else {
        option_models(options, (n - 1) as nat).push(option_model(options[n - 1]))
    }
}

impl View for CommandSchema {
    type V = CommandModel;

    open spec fn view(&self) -> CommandModel {
        CommandModel {
            name: self.name@,
            description: self.description@,
            options: option_models(self.options@, self.options@.len()),
        }
    }
}

/// The entry of a command in the catalog: its primary name, its description,
/// and its arguments with two levels below each.
pub open spec fn entry_of(command: Command) -> CommandModel
    recommends
        command.wf(),
{
    CommandModel {
        name: command.primary(),
        description: command.desc@,
        options: all_listed(command.args@, command.args@.len(), SUB_LEVELS as nat),
    }
}

/// Whether the command at place `i` is listed: it is unless a command before
/// it has the same primary name.
pub open spec fn is_listed(commands: Seq<Command>, i: int) -> bool {
    forall|j: int| 0 <= j < i ==> (#[trigger] commands[j]).primary() != commands[i].primary()
}

/// The entries of the first `n` of `commands`, one for each primary name, in
/// the order of registration.
pub open spec fn entries_of(commands: Seq<Command>, n: nat) -> Seq<CommandModel>
    decreases n,
{
    if n == 0 || n > commands.len() {
        Seq::empty()
    } else {
        let before = entries_of(commands, (n - 1) as nat);
        if is_listed(commands, n - 1) {
            before.push(entry_of(commands[n - 1]))
        } else {
            before
        }
    }
}

/// The views of a list of catalog entries.
pub open spec fn schema_views(v: Seq<CommandSchema>) -> Seq<CommandModel> {
    Seq::new(v.len(), |i: int| v[i]@)
}

fn list_arg(arg: &Arg, levels: usize) -> (r: OptionSchema)
    ensures
        option_model(r) == listed(*arg, levels as nat),
    decreases levels, 0nat,
{
    let options = if levels == 0 {
        Vec::new()
    } else {
        list_args(&arg.options, levels - 1)
    };
    OptionSchema {
        name: arg.name.clone(),
        description: arg.description.clone(),
        kind: arg.kind,
        required: arg.required,
        options,
    }
}

fn list_args(args: &Vec<Arg>, levels: usize) -> (r: Vec<OptionSchema>)
    ensures
        option_models(r@, r@.len()) == all_listed(args@, args@.len(), levels as nat),
    decreases levels, 1nat,
{
    let mut out: Vec<OptionSchema> = Vec::new();
    let mut i: usize = 0;
    while i < args.len()
        invariant
            i <= args.len(),
            option_models(out@, out@.len()) == all_listed(args@, i as nat, levels as nat),
        decreases args.len() - i,
    {
        let ghost sofar = out@;
        let o = list_arg(&args[i], levels);
        out.push(o);
        proof {
            lemma_models_prefix(sofar, out@, sofar.len());
        }
        i = i + 1;
    }
    out
}

proof fn lemma_models_prefix(a: Seq<OptionSchema>, b: Seq<OptionSchema>, n: nat)
    requires
        n <= a.len(),
        n <= b.len(),
        forall|i: int| 0 <= i < n ==> a[i] == b[i],
    ensures
        option_models(a, n) == option_models(b, n),
    decreases n,
{
    if n > 0 {
        lemma_models_prefix(a, b, (n - 1) as nat);
    }
}

/// Whether a command before place `i` has the same primary name as the one at
/// `i`.
fn listed_at(commands: &Vec<Command>, i: usize) -> (r: bool)
    requires
        i < commands@.len(),
        forall|k: int| 0 <= k < commands@.len() ==> (#[trigger] commands@[k]).wf(),
    ensures
        r == is_listed(commands@, i as int),
{
    let mut j: usize = 0;
    while j < i
        invariant
            j <= i,
            i < commands@.len(),
            forall|k: int| 0 <= k < commands@.len() ==> (#[trigger] commands@[k]).wf(),
            forall|k: int| 0 <= k < j ==> (#[trigger] commands@[k]).primary() != commands@[i as int].primary(),
        decreases i - j,
    {
        if commands[j].same_command(&commands[i]) {
            assert(commands@[j as int].primary() == commands@[i as int].primary());
            return false;
        }
        j = j + 1;
    }
    true
}

/// Writes the catalog for `commands`: one entry for each primary name, that
/// of the command registered first, in the order of registration.
pub fn catalog(commands: &Vec<Command>) -> (r: Vec<CommandSchema>)
    requires
        forall|k: int| 0 <= k < commands@.len() ==> (#[trigger] commands@[k]).wf(),
    ensures
        schema_views(r@) == entries_of(commands@, commands@.len()),
{
    let mut out: Vec<CommandSchema> = Vec::new();
    let mut i: usize = 0;
    assert(schema_views(out@) =~= entries_of(commands@, 0));
    while i < commands.len()
        invariant
            i <= commands.len(),
            forall|k: int| 0 <= k < commands@.len() ==> (#[trigger] commands@[k]).wf(),
            schema_views(out@) == entries_of(commands@, i as nat),
        decreases commands.len() - i,
    {
        if listed_at(commands, i) {
            let ghost sofar = out@;
            let entry = CommandSchema {
                name: commands[i].names[0].clone(),
                description: commands[i].desc.clone(),
                options: list_args(&commands[i].args, SUB_LEVELS),
            };
            out.push(entry);
            assert(schema_views(out@) =~= schema_views(sofar).push(entry@));
        }
        i = i + 1;
    }
    out
}

} // verus!
