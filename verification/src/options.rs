//! The normalizer: from the option tree of a structured trigger to one flat
//! set of named values.

use crate::command::{Command, OptionKind};
use crate::text::{
    decimal, decimal_string, parse_u64, parse_u64_spec, signed_decimal, signed_decimal_string, view_of,
};
use vstd::prelude::*;
use vstd::string::StringExecFns;

verus! {

/// The value of one leaf option. A number that is no integer is kept as its
/// decimal numeral.
#[derive(Clone, Debug, PartialEq, Eq)]
pub enum OptionValue {
    String(String),
    Integer(i64),
    Boolean(bool),
    User(u64),
    Channel(u64),
    Role(u64),
    Mentionable(u64),
    Number(String),
}

/// An option value as the contracts see it.
pub enum ValueModel {
    String(Seq<char>),
    Integer(i64),
    Boolean(bool),
    User(u64),
    Channel(u64),
    Role(u64),
    Mentionable(u64),
    Number(Seq<char>),
}

impl View for OptionValue {
    type V = ValueModel;

    open spec fn view(&self) -> ValueModel {
        match self {
            OptionValue::String(s) => ValueModel::String(s@),
            OptionValue::Integer(i) => ValueModel::Integer(*i),
            OptionValue::Boolean(b) => ValueModel::Boolean(*b),
            OptionValue::User(u) => ValueModel::User(*u),
            OptionValue::Channel(c) => ValueModel::Channel(*c),
            OptionValue::Role(r) => ValueModel::Role(*r),
            OptionValue::Mentionable(m) => ValueModel::Mentionable(*m),
            OptionValue::Number(n) => ValueModel::Number(n@),
        }
    }
}

impl OptionValue {
    /// The value in words: a string as it is, a number in decimal, a truth
    /// value as `true` or `false`.
    pub open spec fn shown(&self) -> Seq<char> {
        match self@ {
            ValueModel::String(s) => s,
            ValueModel::Integer(i) => signed_decimal(i as int),
            ValueModel::Boolean(b) => if b {
                "true"@
            } else {
                "false"@
            },
            ValueModel::User(u) => decimal(u as nat),
            ValueModel::Channel(c) => decimal(c as nat),
            ValueModel::Role(r) => decimal(r as nat),
            ValueModel::Mentionable(m) => decimal(m as nat),
            ValueModel::Number(n) => n,
        }
    }

    /// Writes the value in words.
    pub fn to_string(&self) -> (r: String)
        ensures
            r@ == self.shown(),
    {
        match self {
            OptionValue::String(s) => s.clone(),
            OptionValue::Integer(i) => signed_decimal_string(*i),
            OptionValue::Boolean(b) => if *b {
                String::from_str("true")
            } else {
                String::from_str("false")
            },
            OptionValue::User(u) => decimal_string(*u),
            OptionValue::Channel(c) => decimal_string(*c),
            OptionValue::Role(r) => decimal_string(*r),
            OptionValue::Mentionable(m) => decimal_string(*m),
            OptionValue::Number(n) => n.clone(),
        }
    }

    /// The integer, if the value is one.
    pub fn as_i64(&self) -> (r: Option<i64>)
        ensures
            r == (match self@ {
                ValueModel::Integer(i) => Some(i),
                _ => None,
            }),
    {
        match self {
            OptionValue::Integer(i) => Some(*i),
            _ => None,
        }
    }

    /// The truth value, if the value is one.
    pub fn as_bool(&self) -> (r: Option<bool>)
        ensures
            r == (match self@ {
                ValueModel::Boolean(b) => Some(b),
                _ => None,
            }),
    {
        match self {
            OptionValue::Boolean(b) => Some(*b),
            _ => None,
        }
    }

    /// The channel's number, if the value names a channel.
    pub fn as_channel_id(&self) -> (r: Option<u64>)
        ensures
            r == (match self@ {
                ValueModel::Channel(c) => Some(c),
                _ => None,
            }),
    {
        match self {
            OptionValue::Channel(c) => Some(*c),
            _ => None,
        }
    }
}

/// What the platform sent as the value of an option, in each reading that the
/// normalizer may ask for. A reading is absent where the value has none.
#[derive(Clone, Debug, PartialEq, Eq)]
pub struct RawValue {
    /// The value as text.
    pub text: Option<String>,
    /// The value as a signed integer.
    pub signed: Option<i64>,
    /// The value as an unsigned integer.
    pub unsigned: Option<u64>,
    /// The value as a truth value.
    pub boolean: Option<bool>,
    /// The value as a number, in decimal.
    pub number: Option<String>,
}

/// A node of the option tree of a structured trigger.
#[derive(Debug, PartialEq, Eq)]
pub struct DataOption {
    pub name: String,
    pub kind: OptionKind,
    pub value: Option<RawValue>,
    pub options: Vec<DataOption>,
}

/// The value of a leaf of the given kind, read from what the platform sent:
/// text for a string; the signed reading for an integer; the truth value for
/// a boolean; for a user, a channel or a role the number that the text
/// writes; the unsigned reading for a mentionable; the decimal numeral for a
/// number. Nothing where that reading is missing, and nothing for any other
/// kind.
pub open spec fn extract(kind: OptionKind, value: Option<RawValue>) -> Option<ValueModel> {
    match value {
        None => None,
        Some(raw) => match kind {
            OptionKind::String => match raw.text {
                Some(t) => Some(ValueModel::String(t@)),
                None => None,
            },
            OptionKind::Integer => match raw.signed {
                Some(i) => Some(ValueModel::Integer(i)),
                None => None,
            },
            OptionKind::Boolean => match raw.boolean {
                Some(b) => Some(ValueModel::Boolean(b)),
                None => None,
            },
            OptionKind::User => match text_number(raw) {
                Some(n) => Some(ValueModel::User(n)),
                None => None,
            },
            OptionKind::Channel => match text_number(raw) {
                Some(n) => Some(ValueModel::Channel(n)),
                None => None,
            },
            OptionKind::Role => match text_number(raw) {
                Some(n) => Some(ValueModel::Role(n)),
                None => None,
            },
            OptionKind::Mentionable => match raw.unsigned {
                Some(n) => Some(ValueModel::Mentionable(n)),
                None => None,
            },
            OptionKind::Number => match raw.number {
                Some(n) => Some(ValueModel::Number(n@)),
                None => None,
            },
            _ => None,
        },
    }
}

/// The kind that a value belongs to.
pub open spec fn kind_of(v: ValueModel) -> OptionKind {
    match v {
        ValueModel::String(_) => OptionKind::String,
        ValueModel::Integer(_) => OptionKind::Integer,
        ValueModel::Boolean(_) => OptionKind::Boolean,
        ValueModel::User(_) => OptionKind::User,
        ValueModel::Channel(_) => OptionKind::Channel,
        ValueModel::Role(_) => OptionKind::Role,
        ValueModel::Mentionable(_) => OptionKind::Mentionable,
        ValueModel::Number(_) => OptionKind::Number,
    }
}

/// A leaf is read as a value of its own kind or not at all, and only the
/// kinds that carry a value are read.
pub proof fn law_value_has_its_kind(kind: OptionKind, value: Option<RawValue>)
    ensures
        extract(kind, value) matches Some(v) ==> kind_of(v) == kind && is_leaf_kind(kind),
{
}

/// The number that the text reading writes.
pub open spec fn text_number(raw: RawValue) -> Option<u64> {
    match raw.text {
        Some(t) => parse_u64_spec(t@),
        None => None,
    }
}

/// Whether a node of this kind carries a value.
pub open spec fn is_leaf_kind(kind: OptionKind) -> bool {
    kind != OptionKind::SubCommand && kind != OptionKind::SubCommandGroup && kind
        != OptionKind::Unknown
}

/// Whether every leaf of a known kind in `node` and below has the reading that
/// its kind asks for.
pub open spec fn well_typed(node: DataOption) -> bool
    decreases node, 0nat,
{
    match node.kind {
        OptionKind::SubCommand | OptionKind::SubCommandGroup => all_well_typed(
            node.options@,
            node.options@.len(),
        ),
        OptionKind::Unknown => true,
        _ => extract(node.kind, node.value) is Some,
    }
}

/// Whether the first `n` of `nodes` are well typed.
pub open spec fn all_well_typed(nodes: Seq<DataOption>, n: nat) -> bool
    decreases nodes, n,
{
    if n == 0 || n > nodes.len() {
        true
    } else {
        all_well_typed(nodes, (n - 1) as nat) && well_typed(nodes[n - 1])
    }
}

/// The options of one invocation as the contracts see them.
pub struct OptionsModel {
    pub command: Seq<char>,
    pub subcommand: Option<Seq<char>>,
    pub subcommand_group: Option<Seq<char>>,
    pub options: Map<Seq<char>, ValueModel>,
}

/// The options after `node` was taken in. A subcommand gives its name and
/// hands on to the nodes below it, a subcommand group likewise; a leaf puts
/// its value under its name, in place of any value that was there; a node of
/// a kind that is not known, or a leaf without the reading its kind asks for,
/// leaves no trace.
pub open spec fn absorb(acc: OptionsModel, node: DataOption) -> OptionsModel
    decreases node, 0nat,
{
    match node.kind {
        OptionKind::SubCommand => absorb_all(
            OptionsModel { subcommand: Some(node.name@), ..acc },
            node.options@,
            node.options@.len(),
        ),
        OptionKind::SubCommandGroup => absorb_all(
            OptionsModel { subcommand_group: Some(node.name@), ..acc },
            node.options@,
            node.options@.len(),
        ),
        _ => match extract(node.kind, node.value) {
            Some(v) => OptionsModel { options: acc.options.insert(node.name@, v), ..acc },
            None => acc,
        },
    }
}

/// The options after the first `n` of `nodes` were taken in, one after another.
pub open spec fn absorb_all(acc: OptionsModel, nodes: Seq<DataOption>, n: nat) -> OptionsModel
    decreases nodes, n,
{
    if n == 0 || n > nodes.len() {
        acc
    } else {
        absorb(absorb_all(acc, nodes, (n - 1) as nat), nodes[n - 1])
    }
}

/// The names of the leaves in `node` and below that carry a value of their
/// kind.
pub open spec fn leaf_keys(node: DataOption) -> Set<Seq<char>>
    decreases node, 0nat,
{
    match node.kind {
        OptionKind::SubCommand | OptionKind::SubCommandGroup => all_leaf_keys(
            node.options@,
            node.options@.len(),
        ),
        _ => if extract(node.kind, node.value) is Some {
            set![node.name@]
        } else {
            Set::empty()
        },
    }
}

/// The names of the leaves in the first `n` of `nodes` and below them.
pub open spec fn all_leaf_keys(nodes: Seq<DataOption>, n: nat) -> Set<Seq<char>>
    decreases nodes, n,
{
    if n == 0 || n > nodes.len() {
        Set::empty()
    } else {
        all_leaf_keys(nodes, (n - 1) as nat).union(leaf_keys(nodes[n - 1]))
    }
}

proof fn lemma_keys_of_node(acc: OptionsModel, node: DataOption)
    ensures
        absorb(acc, node).options.dom() == acc.options.dom().union(leaf_keys(node)),
        absorb(acc, node).command == acc.command,
    decreases node, 0nat,
{
    match node.kind {
        OptionKind::SubCommand => {
            law_keys_are_the_leaves(
                OptionsModel { subcommand: Some(node.name@), ..acc },
                node.options@,
                node.options@.len(),
            );
        },
        OptionKind::SubCommandGroup => {
            law_keys_are_the_leaves(
                OptionsModel { subcommand_group: Some(node.name@), ..acc },
                node.options@,
                node.options@.len(),
            );
        },
        _ => {
            assert(absorb(acc, node).options.dom() =~= acc.options.dom().union(leaf_keys(node)));
        },
    }
}

/// The names under which values stand after a tree was taken in are those
/// that stood there before and the names of the tree's leaves, no more and no
/// fewer; the command's name is as it was.
pub proof fn law_keys_are_the_leaves(acc: OptionsModel, nodes: Seq<DataOption>, n: nat)
    ensures
        absorb_all(acc, nodes, n).options.dom() == acc.options.dom().union(all_leaf_keys(nodes, n)),
        absorb_all(acc, nodes, n).command == acc.command,
    decreases nodes, n,
{
    if n == 0 || n > nodes.len() {
        assert(acc.options.dom() =~= acc.options.dom().union(all_leaf_keys(nodes, n)));
    } else {
        law_keys_are_the_leaves(acc, nodes, (n - 1) as nat);
        let before = absorb_all(acc, nodes, (n - 1) as nat);
        lemma_keys_of_node(before, nodes[n - 1]);
        assert(absorb_all(acc, nodes, n).options.dom() =~= acc.options.dom().union(
            all_leaf_keys(nodes, n),
        ));
    }
}

/// A named value.
#[derive(Clone, Debug, PartialEq, Eq)]
pub struct Entry {
    pub name: String,
    pub value: OptionValue,
}

/// The value that `entries` hold under `key`: that of the last entry of that
/// name.
pub open spec fn lookup(entries: Seq<Entry>, key: Seq<char>) -> Option<ValueModel>
    decreases entries.len(),
{
    if entries.len() == 0 {
        None
    } else if entries.last().name@ == key {
        Some(entries.last().value@)
    } else {
        lookup(entries.drop_last(), key)
    }
}

/// The mapping that `entries` stand for.
pub open spec fn entries_map(entries: Seq<Entry>) -> Map<Seq<char>, ValueModel> {
    Map::new(|k: Seq<char>| lookup(entries, k) is Some, |k: Seq<char>| lookup(entries, k).unwrap())
}

proof fn lemma_entries_push(entries: Seq<Entry>, e: Entry)
    ensures
        entries_map(entries.push(e)) == entries_map(entries).insert(e.name@, e.value@),
{
    let longer = entries.push(e);
    assert(longer.drop_last() =~= entries);
    assert(longer.last() == e);
    assert forall|k: Seq<char>|
        lookup(longer, k) == (if k == e.name@ {
            Some(e.value@)
        } else {
            lookup(entries, k)
        }) by {}
    assert(entries_map(longer) =~= entries_map(entries).insert(e.name@, e.value@));
}

/// What one invocation was called with: the command, the subcommand and the
/// group if there are any, and a value for each leaf option by its name.
#[derive(Clone, Debug, PartialEq, Eq)]
pub struct CommandOptions {
    pub command: String,
    pub subcommand: Option<String>,
    pub subcommand_group: Option<String>,
    /// The values in the order in which they were put in. Where a name occurs
    /// twice, the later entry counts.
    pub entries: Vec<Entry>,
}

impl View for CommandOptions {
    type V = OptionsModel;

    open spec fn view(&self) -> OptionsModel {
        OptionsModel {
            command: self.command@,
            subcommand: view_of(self.subcommand),
            subcommand_group: view_of(self.subcommand_group),
            options: entries_map(self.entries@),
        }
    }
}

impl CommandOptions {
    /// The options of an invocation of `command` before anything was taken in:
    /// the primary name, and nothing else.
    pub fn new(command: &Command) -> (r: Self)
        requires
            command.wf(),
        ensures
            r@ == (OptionsModel {
                command: command.primary(),
                subcommand: None,
                subcommand_group: None,
                options: Map::empty(),
            }),
    {
        let r = CommandOptions {
            command: command.names[0].clone(),
            subcommand: None,
            subcommand_group: None,
            entries: Vec::new(),
        };
        assert(r@.options =~= Map::<Seq<char>, ValueModel>::empty());
        r
    }

    /// The value under `key`, if there is one.
    pub fn get(&self, key: &str) -> (r: Option<&OptionValue>)
        ensures
            match r {
                Some(v) => self@.options.contains_key(key@) && self@.options[key@] == v@,
                None => !self@.options.contains_key(key@),
            },
    {
        let wanted = String::from_str(key);
        let mut i: usize = self.entries.len();
        assert(self.entries@.subrange(0, i as int) =~= self.entries@);
        while i > 0
            invariant
                i <= self.entries.len(),
                wanted@ == key@,
                lookup(self.entries@, key@) == lookup(self.entries@.subrange(0, i as int), key@),
            decreases i,
        {
            let ghost upto = self.entries@.subrange(0, i as int);
            i = i - 1;
            proof {
                assert(upto.last() == self.entries@[i as int]);
                assert(upto.drop_last() =~= self.entries@.subrange(0, i as int));
            }
            if self.entries[i].name == wanted {
                return Some(&self.entries[i].value);
            }
        }
        assert(self.entries@.subrange(0, 0).len() == 0);
        None
    }

    /// Puts `value` under `name`, in place of any value that was there.
    pub fn insert(&mut self, name: String, value: OptionValue)
        ensures
            final(self)@ == (OptionsModel {
                options: old(self)@.options.insert(name@, value@),
                ..old(self)@
            }),
    {
        proof {
            lemma_entries_push(self.entries@, Entry { name, value });
        }
        self.entries.push(Entry { name, value });
    }

    /// Takes in the option tree of a structured trigger, node after node.
    pub fn populate(self, options: &Vec<DataOption>) -> (r: Self)
        requires
            all_well_typed(options@, options@.len()),
        ensures
            r@ == absorb_all(self@, options@, options@.len()),
    {
        let mut acc = self;
        take_all(&mut acc, options);
        acc
    }
}

/// Reads the value of a leaf of the given kind.
pub fn extract_value(kind: OptionKind, value: &Option<RawValue>) -> (r: Option<OptionValue>)
    ensures
        match r {
            Some(v) => extract(kind, *value) == Some(v@),
            None => extract(kind, *value) is None,
        },
{
    match value {
        None => None,
        Some(raw) => match kind {
            OptionKind::String => match &raw.text {
                Some(t) => Some(OptionValue::String(t.clone())),
                None => None,
            },
            OptionKind::Integer => match raw.signed {
                Some(i) => Some(OptionValue::Integer(i)),
                None => None,
            },
            OptionKind::Boolean => match raw.boolean {
                Some(b) => Some(OptionValue::Boolean(b)),
                None => None,
            },
            OptionKind::User => match read_number(raw) {
                Some(n) => Some(OptionValue::User(n)),
                None => None,
            },
            OptionKind::Channel => match read_number(raw) {
                Some(n) => Some(OptionValue::Channel(n)),
                None => None,
            },
            OptionKind::Role => match read_number(raw) {
                Some(n) => Some(OptionValue::Role(n)),
                None => None,
            },
            OptionKind::Mentionable => match raw.unsigned {
                Some(n) => Some(OptionValue::Mentionable(n)),
                None => None,
            },
            OptionKind::Number => match &raw.number {
                Some(n) => Some(OptionValue::Number(n.clone())),
                None => None,
            },
            _ => None,
        },
    }
}

fn read_number(raw: &RawValue) -> (r: Option<u64>)
    ensures
        r == text_number(*raw),
{
    match &raw.text {
        Some(t) => parse_u64(t.as_str()),
        None => None,
    }
}

fn take_node(acc: &mut CommandOptions, node: &DataOption)
    ensures
        final(acc)@ == absorb(old(acc)@, *node),
    decreases node, 0nat,
{
    match node.kind {
        OptionKind::SubCommand => {
            acc.subcommand = Some(node.name.clone());
            take_all(acc, &node.options);
        },
        OptionKind::SubCommandGroup => {
            acc.subcommand_group = Some(node.name.clone());
            take_all(acc, &node.options);
        },
        _ => {
            match extract_value(node.kind, &node.value) {
                Some(v) => {
                    acc.insert(node.name.clone(), v);
                },
                None => {},
            }
        },
    }
}

fn take_all(acc: &mut CommandOptions, nodes: &Vec<DataOption>)
    ensures
        final(acc)@ == absorb_all(old(acc)@, nodes@, nodes@.len()),
    decreases nodes, 1nat,
{
    let mut i: usize = 0;
    while i < nodes.len()
        invariant
            i <= nodes.len(),
            acc@ == absorb_all(old(acc)@, nodes@, i as nat),
        decreases nodes.len() - i,
    {
        take_node(acc, &nodes[i]);
        i = i + 1;
    }
}

/// Whether every leaf of a known kind in `nodes` and below has the reading
/// that its kind asks for.
pub fn check_well_typed(nodes: &Vec<DataOption>) -> (r: bool)
    ensures
        r == all_well_typed(nodes@, nodes@.len()),
    decreases nodes, 1nat,
{
    let mut i: usize = 0;
    while i < nodes.len()
        invariant
            i <= nodes.len(),
            all_well_typed(nodes@, i as nat),
        decreases nodes.len() - i,
    {
        if !check_node(&nodes[i]) {
            proof {
                lemma_ill_typed_stays(nodes@, (i + 1) as nat, nodes@.len());
            }
            return false;
        }
        i = i + 1;
    }
    true
}

fn check_node(node: &DataOption) -> (r: bool)
    ensures
        r == well_typed(*node),
    decreases node, 0nat,
{
    match node.kind {
        OptionKind::SubCommand | OptionKind::SubCommandGroup => check_well_typed(&node.options),
        OptionKind::Unknown => true,
        _ => extract_value(node.kind, &node.value).is_some(),
    }
}

proof fn lemma_ill_typed_stays(nodes: Seq<DataOption>, k: nat, n: nat)
    requires
        k <= n <= nodes.len(),
        !all_well_typed(nodes, k),
    ensures
        !all_well_typed(nodes, n),
    decreases n - k,
{
    if k < n {
        lemma_ill_typed_stays(nodes, k, (n - 1) as nat);
    }
}

} // verus!
