use command_framework::command::{Command, CommandFnType, OptionKind};
use command_framework::response::{CreateGenericResponse, EPHEMERAL};
use command_framework::options::{
    check_well_typed, extract_value, CommandOptions, DataOption, OptionValue, RawValue,
};

fn text(s: &str) -> Option<RawValue> {
    Some(RawValue { text: Some(s.to_string()), signed: None, unsigned: None, boolean: None, number: None })
}

fn integer(i: i64) -> Option<RawValue> {
    Some(RawValue {
        text: None,
        signed: Some(i),
        unsigned: if i >= 0 { Some(i as u64) } else { None },
        boolean: None,
        number: Some(format!("{}", i)),
    })
}

fn leaf(name: &str, kind: OptionKind, value: Option<RawValue>) -> DataOption {
    DataOption { name: name.to_string(), kind, value, options: vec![] }
}

fn group(name: &str, kind: OptionKind, options: Vec<DataOption>) -> DataOption {
    DataOption { name: name.to_string(), kind, value: None, options }
}

fn command(names: &[&str]) -> Command {
    Command {
        fun: CommandFnType::Slash,
        names: names.iter().map(|n| n.to_string()).collect(),
        desc: String::new(),
        examples: vec![],
        group: String::new(),
        args: vec![],
        can_blacklist: true,
        supports_dm: true,
        hooks: vec![],
    }
}

#[test]
fn normalizer_round_trip() {
    let tree = vec![group(
        "g",
        OptionKind::SubCommandGroup,
        vec![group(
            "s",
            OptionKind::SubCommand,
            vec![
                leaf("k1", OptionKind::String, text("x")),
                leaf("k2", OptionKind::Integer, integer(5)),
            ],
        )],
    )];
    assert!(check_well_typed(&tree));
    let opts = CommandOptions::new(&command(&["todo", "t"])).populate(&tree);
    assert_eq!(opts.command, "todo");
    assert_eq!(opts.subcommand_group, Some("g".to_string()));
    assert_eq!(opts.subcommand, Some("s".to_string()));
    assert_eq!(opts.get("k1"), Some(&OptionValue::String("x".to_string())));
    assert_eq!(opts.get("k2"), Some(&OptionValue::Integer(5)));
    assert_eq!(opts.get("k3"), None);
    assert_eq!(opts.entries.len(), 2);
}

#[test]
fn new_options_are_empty() {
    let opts = CommandOptions::new(&command(&["remind", "r"]));
    assert_eq!(opts.command, "remind");
    assert_eq!(opts.subcommand, None);
    assert_eq!(opts.subcommand_group, None);
    assert!(opts.entries.is_empty());
}

#[test]
fn every_kind_is_read_by_its_reading() {
    let number = Some(RawValue {
        text: None,
        signed: None,
        unsigned: None,
        boolean: None,
        number: Some("2.5".to_string()),
    });
    let truth = Some(RawValue {
        text: None,
        signed: None,
        unsigned: None,
        boolean: Some(true),
        number: None,
    });
    let tree = vec![
        leaf("a", OptionKind::String, text("hello")),
        leaf("b", OptionKind::Integer, integer(-3)),
        leaf("c", OptionKind::Boolean, truth),
        leaf("d", OptionKind::User, text("123")),
        leaf("e", OptionKind::Channel, text("456")),
        leaf("f", OptionKind::Role, text("789")),
        leaf("g", OptionKind::Mentionable, integer(42)),
        leaf("h", OptionKind::Number, number),
    ];
    assert!(check_well_typed(&tree));
    let opts = CommandOptions::new(&command(&["c"])).populate(&tree);
    assert_eq!(opts.get("a"), Some(&OptionValue::String("hello".to_string())));
    assert_eq!(opts.get("b"), Some(&OptionValue::Integer(-3)));
    assert_eq!(opts.get("c"), Some(&OptionValue::Boolean(true)));
    assert_eq!(opts.get("d"), Some(&OptionValue::User(123)));
    assert_eq!(opts.get("e"), Some(&OptionValue::Channel(456)));
    assert_eq!(opts.get("f"), Some(&OptionValue::Role(789)));
    assert_eq!(opts.get("g"), Some(&OptionValue::Mentionable(42)));
    assert_eq!(opts.get("h"), Some(&OptionValue::Number("2.5".to_string())));
    assert_eq!(opts.subcommand, None);
}

#[test]
fn unknown_kind_is_left_out() {
    let tree = vec![
        leaf("x", OptionKind::Unknown, text("whatever")),
        leaf("y", OptionKind::Boolean, Some(RawValue {
            text: None,
            signed: None,
            unsigned: None,
            boolean: Some(false),
            number: None,
        })),
    ];
    assert!(check_well_typed(&tree));
    let opts = CommandOptions::new(&command(&["c"])).populate(&tree);
    assert_eq!(opts.get("x"), None);
    assert_eq!(opts.get("y"), Some(&OptionValue::Boolean(false)));
}

#[test]
fn later_leaf_replaces_earlier_of_the_same_name() {
    let tree = vec![
        leaf("k", OptionKind::Integer, integer(1)),
        leaf("k", OptionKind::Integer, integer(2)),
    ];
    let opts = CommandOptions::new(&command(&["c"])).populate(&tree);
    assert_eq!(opts.get("k"), Some(&OptionValue::Integer(2)));
}

#[test]
fn insert_puts_and_replaces() {
    let mut opts = CommandOptions::new(&command(&["c"]));
    opts.insert("a".to_string(), OptionValue::Integer(1));
    opts.insert("b".to_string(), OptionValue::Boolean(true));
    opts.insert("a".to_string(), OptionValue::Integer(3));
    assert_eq!(opts.get("a"), Some(&OptionValue::Integer(3)));
    assert_eq!(opts.get("b"), Some(&OptionValue::Boolean(true)));
    assert_eq!(opts.get(""), None);
}

#[test]
fn ill_typed_leaves_are_found() {
    assert!(!check_well_typed(&vec![leaf("a", OptionKind::String, None)]));
    assert!(!check_well_typed(&vec![leaf("a", OptionKind::Integer, text("5"))]));
    assert!(!check_well_typed(&vec![leaf("a", OptionKind::User, text("abc"))]));
    assert!(!check_well_typed(&vec![leaf("a", OptionKind::Channel, integer(5))]));
    assert!(!check_well_typed(&vec![
        leaf("ok", OptionKind::String, text("x")),
        group("s", OptionKind::SubCommand, vec![leaf("a", OptionKind::Role, text("-1"))]),
        leaf("ok2", OptionKind::String, text("y")),
    ]));
    assert!(check_well_typed(&vec![group("s", OptionKind::SubCommand, vec![])]));
    assert!(check_well_typed(&vec![]));
}

#[test]
fn extract_value_by_kind() {
    assert_eq!(extract_value(OptionKind::User, &text("+7")), Some(OptionValue::User(7)));
    assert_eq!(extract_value(OptionKind::User, &text("18446744073709551616")), None);
    assert_eq!(extract_value(OptionKind::SubCommand, &text("x")), None);
    assert_eq!(extract_value(OptionKind::Unknown, &text("x")), None);
    assert_eq!(extract_value(OptionKind::String, &None), None);
    assert_eq!(extract_value(OptionKind::Mentionable, &integer(-1)), None);
}

#[test]
fn option_value_readers() {
    assert_eq!(OptionValue::Integer(5).as_i64(), Some(5));
    assert_eq!(OptionValue::Boolean(true).as_i64(), None);
    assert_eq!(OptionValue::Boolean(true).as_bool(), Some(true));
    assert_eq!(OptionValue::Integer(1).as_bool(), None);
    assert_eq!(OptionValue::Channel(9).as_channel_id(), Some(9));
    assert_eq!(OptionValue::User(9).as_channel_id(), None);
}

#[test]
fn option_value_in_words() {
    assert_eq!(OptionValue::String("hi".to_string()).to_string(), "hi");
    assert_eq!(OptionValue::Integer(-42).to_string(), "-42");
    assert_eq!(OptionValue::Integer(0).to_string(), "0");
    assert_eq!(OptionValue::Integer(i64::MIN).to_string(), "-9223372036854775808");
    assert_eq!(OptionValue::Integer(i64::MAX).to_string(), "9223372036854775807");
    assert_eq!(OptionValue::Boolean(true).to_string(), "true");
    assert_eq!(OptionValue::Boolean(false).to_string(), "false");
    assert_eq!(OptionValue::User(1).to_string(), "1");
    assert_eq!(OptionValue::Channel(22).to_string(), "22");
    assert_eq!(OptionValue::Role(333).to_string(), "333");
    assert_eq!(OptionValue::Mentionable(4444).to_string(), "4444");
    assert_eq!(OptionValue::Number("2.5".to_string()).to_string(), "2.5");
}

#[test]
fn generic_response_builder() {
    let r = CreateGenericResponse::new();
    assert_eq!(r.content, "");
    assert_eq!(r.flags, 0);
    assert!(!r.is_ephemeral());
    let r = r.content("hello").ephemeral();
    assert_eq!(r.content, "hello");
    assert_eq!(r.flags, EPHEMERAL);
    assert_eq!(EPHEMERAL, 64);
    assert!(r.is_ephemeral());
    let r = r.content("bye");
    assert_eq!(r.content, "bye");
    assert!(r.is_ephemeral());
}
