use regex::Regex;
use sub4usd::command::{parse_command, Command};

#[test]
fn update_interval_re() {
    let hour = match parse_command("set:update_interval  42h ") {
        Some(Command::SetUpdateInterval { hours }) => hours,
        other => panic!("unexpected command {:?}", other),
    };
    assert_eq!(hour, 42);
}

#[test]
fn interval_without_count_is_no_command() {
    assert_eq!(parse_command("set:update_interval"), None);
    assert_eq!(parse_command("set:update_interval h"), None);
    assert_eq!(parse_command("set:update_interval 5"), None);
    assert_eq!(parse_command("set:update_interval5h"), None);
}

#[test]
fn interval_tolerates_whitespace() {
    assert_eq!(
        parse_command("  set:update_interval \t 7h  trailing"),
        Some(Command::SetUpdateInterval { hours: 7 })
    );
    assert_eq!(
        parse_command("set:update_interval\u{a0}3h"),
        Some(Command::SetUpdateInterval { hours: 3 })
    );
}

#[test]
fn first_complete_directive_counts() {
    assert_eq!(
        parse_command("set:update_interval x set:update_interval 12h set:update_interval 4h"),
        Some(Command::SetUpdateInterval { hours: 12 })
    );
}

#[test]
fn interval_too_long_is_no_command() {
    assert_eq!(
        parse_command("set:update_interval 5124095576030431h"),
        Some(Command::SetUpdateInterval { hours: 5124095576030431 })
    );
    assert_eq!(parse_command("set:update_interval 5124095576030432h"), None);
    assert_eq!(parse_command("set:update_interval 99999999999999999999999h"), None);
    assert_eq!(
        parse_command("set:update_interval 0000000000000000000000042h"),
        Some(Command::SetUpdateInterval { hours: 42 })
    );
}

#[test]
fn subscription_commands_match_exactly() {
    assert_eq!(parse_command("/subscribe"), Some(Command::Subscribe));
    assert_eq!(parse_command("/unsubscribe"), Some(Command::Unsubscribe));
    assert_eq!(parse_command("/subscribe "), None);
    assert_eq!(parse_command("subscribe"), None);
    assert_eq!(parse_command(""), None);
}

#[test]
fn directive_agrees_with_regex() {
    let re = Regex::new(r"set:update_interval\s+(?<hour>\d+)h\s*").unwrap();
    let inputs = [
        "set:update_interval  42h ",
        "set:update_interval",
        "set:update_interval 1h",
        "say set:update_interval\n\n9h now",
        "set:update_interval 12 h",
        "set:update_interval 12hh",
        "set:update_interval\u{2003}8h",
        "set:update_intervalset:update_interval 6h",
        "set:update_interval 3x set:update_interval 5h",
        "SET:UPDATE_INTERVAL 5h",
    ];
    for text in inputs {
        let expected = re
            .captures(text)
            .map(|c| c.name("hour").unwrap().as_str().parse::<u64>().unwrap());
        let got = match parse_command(text) {
            Some(Command::SetUpdateInterval { hours }) => Some(hours),
            _ => None,
        };
        assert_eq!(got, expected, "input {:?}", text);
    }
}
