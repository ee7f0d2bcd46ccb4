use command_framework::command::{Command, CommandFnType, OptionKind};
use command_framework::dispatch::Phase;
use command_framework::command::Arg;
use command_framework::framework::{
    interpret_captures, BuildError, ExecuteError, RegexFramework, TextMatch,
};
use command_framework::hooks::Hook;
use command_framework::matcher::{dm_pattern_string, guild_pattern_string, join_names, sort_names};
use command_framework::options::{DataOption, OptionValue, RawValue};

fn command(names: &[&str], supports_dm: bool, hooks: &[u128]) -> Command {
    Command {
        fun: CommandFnType::Slash,
        names: names.iter().map(|n| n.to_string()).collect(),
        desc: "a command".to_string(),
        examples: vec![],
        group: "test".to_string(),
        args: vec![],
        can_blacklist: true,
        supports_dm,
        hooks: hooks.iter().map(|u| Hook { uuid: *u }).collect(),
    }
}

fn framework() -> RegexFramework {
    RegexFramework::new(123)
        .default_prefix("$")
        .add_command(command(&["remind", "r"], true, &[1]))
        .add_command(command(&["pause"], false, &[]))
        .add_command(command(&["look", "l"], true, &[]))
        .add_hook(Hook { uuid: 100 })
        .add_hook(Hook { uuid: 200 })
        .build()
        .unwrap()
}

fn found(prefix: Option<&str>, command: &str, args: &str) -> Option<TextMatch> {
    Some(TextMatch {
        prefix: prefix.map(|p| p.to_string()),
        command: command.to_string(),
        args: args.to_string(),
    })
}

#[test]
fn guild_matcher_accepts_every_name_and_alias() {
    let f = framework();
    for name in ["remind", "r", "pause", "look", "l"] {
        assert_eq!(f.match_guild(&format!("<@123> {} some args", name)), found(None, name, "some args"));
        assert_eq!(f.match_guild(&format!("<@!123> {} some args", name)), found(None, name, "some args"));
        assert_eq!(f.match_guild(&format!("${} some args", name)), found(Some("$"), name, "some args"));
        assert_eq!(f.match_guild(&format!("${}", name)), found(Some("$"), name, ""));
    }
}

#[test]
fn guild_matcher_rejects_unregistered_names() {
    let f = framework();
    assert_eq!(f.match_guild("$foo some args"), None);
    assert_eq!(f.match_guild("<@123> foo some args"), None);
    assert_eq!(f.match_guild("<@!123> todo"), None);
    assert_eq!(f.match_guild("<@999> remind me"), None);
    assert_eq!(f.match_guild("remind me"), None);
    assert_eq!(f.match_guild(""), None);
}

#[test]
fn longest_name_first() {
    let f = RegexFramework::new(1)
        .add_command(command(&["r"], true, &[]))
        .add_command(command(&["remind"], true, &[]))
        .build()
        .unwrap();
    assert_eq!(f.match_guild("$remind foo"), found(Some("$"), "remind", "foo"));
    assert_eq!(f.match_dm("remind foo"), found(None, "remind", "foo"));
    assert_eq!(f.match_guild("$r foo"), found(Some("$"), "r", "foo"));
}

#[test]
fn dm_matcher_takes_only_dm_commands() {
    let f = framework();
    assert_eq!(f.match_guild("$pause 1h"), found(Some("$"), "pause", "1h"));
    assert_eq!(f.match_dm("$pause 1h"), None);
    assert_eq!(f.match_dm("pause 1h"), None);
    assert_eq!(f.match_dm("<@123> pause 1h"), None);
    assert_eq!(f.match_dm("remind me"), found(None, "remind", "me"));
    assert_eq!(f.match_dm("$remind me"), found(None, "remind", "me"));
    assert_eq!(f.match_dm("<@123> l"), found(None, "l", ""));
    assert_eq!(f.match_dm("<@!123> look all"), found(None, "look", "all"));
}

#[test]
fn case_option_decides_on_capitals() {
    let folding = framework();
    assert_eq!(folding.match_guild("$REMIND Foo"), found(Some("$"), "REMIND", "Foo"));
    let exact = RegexFramework::new(123)
        .case_insensitive(false)
        .add_command(command(&["remind"], true, &[]))
        .build()
        .unwrap();
    assert_eq!(exact.match_guild("$REMIND Foo"), None);
    assert_eq!(exact.match_guild("$remind Foo"), found(Some("$"), "remind", "Foo"));
}

#[test]
fn args_may_span_lines() {
    let f = framework();
    assert_eq!(f.match_guild("$remind a\nb"), found(Some("$"), "remind", "a\nb"));
}

#[test]
fn nothing_matches_before_build_or_without_names() {
    let fresh = RegexFramework::new(1).add_command(command(&["remind"], true, &[]));
    assert!(!fresh.built());
    assert_eq!(fresh.match_guild("$remind x"), None);
    assert_eq!(fresh.match_dm("remind x"), None);
    let empty = RegexFramework::new(1).build().unwrap();
    assert!(empty.built());
    assert_eq!(empty.match_guild("$remind x"), None);
    assert_eq!(empty.match_guild("$"), None);
    assert_eq!(empty.match_guild(""), None);
    assert_eq!(empty.match_dm(""), None);
}

#[test]
fn names_are_sorted_longest_first_and_stably() {
    let names: Vec<String> = ["r", "remind", "l", "look", "pause", "del"].iter().map(|s| s.to_string()).collect();
    assert_eq!(sort_names(&names), vec!["remind", "pause", "look", "del", "r", "l"]);
    assert_eq!(sort_names(&vec![]), Vec::<String>::new());
    assert_eq!(join_names(&sort_names(&names)), "remind|pause|look|del|r|l");
    assert_eq!(join_names(&vec![]), "");
    assert_eq!(join_names(&vec!["one".to_string()]), "one");
}

#[test]
fn patterns_are_written_out() {
    let names = vec!["remind".to_string(), "r".to_string()];
    assert_eq!(
        guild_pattern_string(123, &names),
        r#"^(?:(?:<@123>\s*)|(?:<@!123>\s*)|(?P<prefix>\S{1,5}?))(?P<cmd>remind|r)(?:$|\s+(?P<args>.*))$"#
    );
    assert_eq!(
        dm_pattern_string(123, &names),
        r#"^(?:(?:<@123>\s+)|(?:<@!123>\s+)|(\$)|())(?P<cmd>remind|r)(?:$|\s+(?P<args>.*))$"#
    );
}

#[test]
fn build_reports_the_pattern_that_fails() {
    let guild = RegexFramework::new(1).add_command(command(&["("], true, &[])).build();
    match guild {
        Err(BuildError::Guild(words)) => assert!(!words.is_empty()),
        _ => panic!("the guild pattern should not compile"),
    }
    let dm = RegexFramework::new(1)
        .add_command(command(&["("], true, &[]))
        .add_command(command(&[")"], false, &[]))
        .build();
    match dm {
        Err(BuildError::Dm(words)) => assert!(!words.is_empty()),
        _ => panic!("the pattern for direct messages should not compile"),
    }
}

#[test]
fn with_matchers_reports_the_guild_pattern_first() {
    let bad = regex::Regex::new("(").unwrap_err();
    let worse = regex::Regex::new(")").unwrap_err();
    let r = RegexFramework::new(1).with_matchers(Some(Err(bad)), Some(Err(worse)));
    assert!(matches!(r, Err(BuildError::Guild(_))));
    let bad = regex::Regex::new("(").unwrap_err();
    let r = RegexFramework::new(1).with_matchers(None, Some(Err(bad)));
    assert!(matches!(r, Err(BuildError::Dm(_))));
    let r = RegexFramework::new(1).with_matchers(None, None).unwrap();
    assert!(r.built());
    assert_eq!(r.match_guild("x"), None);
}

#[test]
fn captures_are_read_into_a_match() {
    assert_eq!(interpret_captures(None), None);
    assert_eq!(interpret_captures(Some((Some("$".to_string()), None, Some("x".to_string())))), None);
    assert_eq!(
        interpret_captures(Some((None, Some("look".to_string()), None))),
        found(None, "look", "")
    );
    assert_eq!(
        interpret_captures(Some((Some("!".to_string()), Some("look".to_string()), Some("a b".to_string())))),
        found(Some("!"), "look", "a b")
    );
}

#[test]
fn commands_are_found_by_name_and_alias() {
    let f = framework();
    assert_eq!(f.command_for("remind").unwrap().names[0], "remind");
    assert_eq!(f.command_for("r").unwrap().names[0], "remind");
    assert_eq!(f.command_for("l").unwrap().names[0], "look");
    assert!(f.command_for("todo").is_none());
    assert!(f.command_for("REMIND").is_none());
    assert_eq!(f.registered_commands().len(), 3);
    assert_eq!(f.all_names(), vec!["remind", "r", "pause", "look", "l"]);
    assert_eq!(f.dm_names(), vec!["remind", "r", "look", "l"]);
}

#[test]
fn a_name_goes_to_the_command_added_last() {
    let f = RegexFramework::new(1)
        .add_command(command(&["remind", "r"], true, &[]))
        .add_command(command(&["rename", "r"], false, &[]))
        .add_command(command(&["remind", "again"], false, &[]));
    assert_eq!(f.command_for("r").unwrap().names[0], "rename");
    assert_eq!(f.command_for("remind").unwrap().names[1], "again");
    assert_eq!(f.all_names(), vec!["remind", "r", "rename", "again"]);
    assert_eq!(f.dm_names(), Vec::<String>::new());
    let catalog = f.catalog();
    assert_eq!(catalog.len(), 2);
    assert_eq!(catalog[0].name, "remind");
    assert_eq!(catalog[1].name, "rename");
}

#[test]
fn settings_are_kept() {
    let f = RegexFramework::new(77);
    assert_eq!(f.client_id(), 77);
    assert!(f.ignores_bots());
    assert!(f.is_case_insensitive());
    assert!(f.is_dm_enabled());
    assert_eq!(f.debug_guild_id(), None);
    assert_eq!(f.prefix(), "");
    assert!(f.hooks().is_empty());
    let f = f
        .default_prefix("!")
        .ignore_bots(false)
        .case_insensitive(false)
        .dm_enabled(false)
        .debug_guild(Some(5))
        .add_hook(Hook { uuid: 9 });
    assert_eq!(f.client_id(), 77);
    assert!(!f.ignores_bots());
    assert!(!f.is_case_insensitive());
    assert!(!f.is_dm_enabled());
    assert_eq!(f.debug_guild_id(), Some(5));
    assert_eq!(f.prefix(), "!");
    assert_eq!(f.hooks(), &vec![Hook { uuid: 9 }]);
}

#[test]
fn execute_sets_up_options_and_chain() {
    let f = framework();
    let tree = vec![DataOption {
        name: "content".to_string(),
        kind: OptionKind::String,
        value: Some(RawValue {
            text: Some("tea".to_string()),
            signed: None,
            unsigned: None,
            boolean: None,
            number: None,
        }),
        options: vec![],
    }];
    let (cmd, args, dispatch) = f.execute("r", &tree, 55).unwrap();
    assert_eq!(cmd.names[0], "remind");
    assert_eq!(args.command, "remind");
    assert_eq!(args.get("content"), Some(&OptionValue::String("tea".to_string())));
    assert_eq!(dispatch.chain_len(), 3);
    assert_eq!(dispatch.user(), 55);
    assert_eq!(dispatch.phase(), Phase::Ready);
    assert!(f.command_for("nothing").is_none());
    let bad = vec![DataOption {
        name: "content".to_string(),
        kind: OptionKind::Integer,
        value: None,
        options: vec![],
    }];
    assert_eq!(f.execute("r", &bad, 55).err(), Some(ExecuteError::InvalidOptions));
    assert_eq!(f.run_command_from_options(&args).names[0], "remind");
}

fn arg(name: &str, kind: OptionKind, options: Vec<Arg>) -> Arg {
    Arg {
        name: name.to_string(),
        description: format!("about {}", name),
        kind,
        required: true,
        options,
    }
}

#[test]
fn catalog_lists_three_levels_of_options() {
    let mut todo = command(&["todo", "t"], true, &[]);
    todo.args = vec![arg(
        "guild",
        OptionKind::SubCommandGroup,
        vec![arg(
            "add",
            OptionKind::SubCommand,
            vec![arg("task", OptionKind::String, vec![arg("deeper", OptionKind::String, vec![])])],
        )],
    )];
    let f = RegexFramework::new(1).add_command(todo).add_command(command(&["look"], true, &[]));
    let catalog = f.catalog();
    assert_eq!(catalog.len(), 2);
    assert_eq!(catalog[0].name, "todo");
    assert_eq!(catalog[0].description, "a command");
    assert_eq!(catalog[0].options.len(), 1);
    let group = &catalog[0].options[0];
    assert_eq!(group.name, "guild");
    assert_eq!(group.description, "about guild");
    assert_eq!(group.kind, OptionKind::SubCommandGroup);
    assert!(group.required);
    let sub = &group.options[0];
    assert_eq!(sub.name, "add");
    assert_eq!(sub.kind, OptionKind::SubCommand);
    let leaf = &sub.options[0];
    assert_eq!(leaf.name, "task");
    assert_eq!(leaf.kind, OptionKind::String);
    assert!(leaf.options.is_empty());
    assert_eq!(catalog[1].name, "look");
    assert!(catalog[1].options.is_empty());
}
