use command_framework::look::{LookFlags, Selection, TimeDisplayType};

fn defaults() -> LookFlags {
    LookFlags {
        limit: u16::MAX,
        show_disabled: true,
        channel_id: Selection::Nothing,
        time_display: TimeDisplayType::Relative,
    }
}

#[test]
fn look_flags_default() {
    assert_eq!(LookFlags::default(), defaults());
    assert_eq!(LookFlags::from_string(""), defaults());
}

#[test]
fn look_flags_words() {
    assert_eq!(LookFlags::from_string("enabled"), LookFlags { show_disabled: false, ..defaults() });
    assert_eq!(
        LookFlags::from_string("time"),
        LookFlags { time_display: TimeDisplayType::Absolute, ..defaults() }
    );
    assert_eq!(LookFlags::from_string("all"), LookFlags { channel_id: Selection::All, ..defaults() });
    assert_eq!(LookFlags::from_string("10"), LookFlags { limit: 10, ..defaults() });
    assert_eq!(
        LookFlags::from_string("enabled time 5"),
        LookFlags {
            limit: 5,
            show_disabled: false,
            channel_id: Selection::Nothing,
            time_display: TimeDisplayType::Absolute,
        }
    );
}

#[test]
fn look_flags_channel_mention() {
    assert_eq!(
        LookFlags::from_string("<#123456>"),
        LookFlags { channel_id: Selection::Single(123456), ..defaults() }
    );
    assert_eq!(
        LookFlags::from_string(" <#42>"),
        LookFlags { channel_id: Selection::Single(42), ..defaults() }
    );
    assert_eq!(LookFlags::from_string("<#42> enabled"), LookFlags { show_disabled: false, ..defaults() });
    assert_eq!(LookFlags::from_string("whatever"), defaults());
}

#[test]
fn look_flags_later_piece_wins() {
    assert_eq!(LookFlags::from_string("all nonsense"), defaults());
    assert_eq!(LookFlags::from_string("nonsense all"), LookFlags { channel_id: Selection::All, ..defaults() });
    assert_eq!(LookFlags::from_string("3 7"), LookFlags { limit: 7, ..defaults() });
    assert_eq!(LookFlags::from_string("70000"), defaults());
    assert_eq!(LookFlags::from_string("65535 65536"), LookFlags { limit: 65535, ..defaults() });
}

#[test]
fn look_flags_from_parts() {
    assert_eq!(
        LookFlags::from_parts("x", &Some("77".to_string())),
        LookFlags { channel_id: Selection::Single(77), ..defaults() }
    );
    assert_eq!(LookFlags::from_parts("x", &None), defaults());
    assert_eq!(LookFlags::from_parts("12", &Some("77".to_string())), LookFlags { limit: 12, ..defaults() });
    assert_eq!(LookFlags::from_parts("all  x", &Some("1".to_string())).channel_id, Selection::Single(1));
    assert_eq!(LookFlags::from_parts("x all", &Some("1".to_string())).channel_id, Selection::All);
}

#[test]
fn look_flags_mention_too_large() {
    assert_eq!(LookFlags::try_from_string("<#99999999999999999999999999>"), None);
    assert_eq!(
        LookFlags::try_from_string("<#18446744073709551615>"),
        Some(LookFlags { channel_id: Selection::Single(u64::MAX), ..defaults() })
    );
    assert_eq!(LookFlags::try_from_string("time"), Some(LookFlags::from_string("time")));
}
