use dijo::command::{Command, CommandLineError};
use dijo::text::{push_decimal, str_eq};

fn parse(line: &str) -> Result<Command, CommandLineError> {
    Command::from_string(line)
}

#[test]
fn add_with_goal() {
    assert_eq!(parse("add coffee 3"), Ok(Command::Add("coffee".to_string(), Some(3), false)));
}

#[test]
fn add_alias_without_goal() {
    assert_eq!(parse("a water"), Ok(Command::Add("water".to_string(), None, false)));
}

#[test]
fn add_auto_and_its_alias() {
    assert_eq!(parse("add-auto steps 10"), Ok(Command::Add("steps".to_string(), Some(10), true)));
    assert_eq!(parse("aa steps"), Ok(Command::Add("steps".to_string(), None, true)));
}

#[test]
fn add_without_name_is_refused() {
    assert_eq!(parse("add"), Err(CommandLineError::NotEnoughArgs("add".to_string(), 1)));
    assert_eq!(parse("a"), Err(CommandLineError::NotEnoughArgs("a".to_string(), 1)));
    assert_eq!(parse("aa"), Err(CommandLineError::NotEnoughArgs("aa".to_string(), 1)));
}

#[test]
fn add_with_malformed_goal_is_refused() {
    assert_eq!(parse("add coffee lots"), Err(CommandLineError::InvalidArg(2)));
    assert_eq!(parse("add coffee -3"), Err(CommandLineError::InvalidArg(2)));
    assert_eq!(parse("add coffee 3x"), Err(CommandLineError::InvalidArg(2)));
    assert_eq!(parse("add coffee 1_000"), Err(CommandLineError::InvalidArg(2)));
    assert_eq!(parse("add coffee +"), Err(CommandLineError::InvalidArg(2)));
}

#[test]
fn add_goal_follows_the_rules_for_unsigned_numbers() {
    assert_eq!(parse("add coffee +5"), Ok(Command::Add("coffee".to_string(), Some(5), false)));
    assert_eq!(parse("add coffee 007"), Ok(Command::Add("coffee".to_string(), Some(7), false)));
    assert_eq!(parse("add coffee 0"), Ok(Command::Add("coffee".to_string(), Some(0), false)));
    assert_eq!(
        parse("add coffee 4294967295"),
        Ok(Command::Add("coffee".to_string(), Some(u32::MAX), false))
    );
    assert_eq!(parse("add coffee 4294967296"), Err(CommandLineError::InvalidArg(2)));
    assert_eq!(
        parse("add coffee 99999999999999999999999999"),
        Err(CommandLineError::InvalidArg(2))
    );
    assert_eq!(
        parse("add coffee 00000000000000000000000042"),
        Ok(Command::Add("coffee".to_string(), Some(42), false))
    );
}

#[test]
fn add_goal_agrees_with_the_standard_parser() {
    for goal in ["0", "1", "12", "+12", "-12", "", "+", "1 ", "4294967295", "4294967296", "١٢", "0x10"] {
        let line = format!("add x {}", goal);
        let expected = match goal.parse::<u32>() {
            Ok(n) => Ok(Command::Add("x".to_string(), Some(n), false)),
            Err(_) => Err(CommandLineError::InvalidArg(2)),
        };
        if goal.is_empty() || goal.ends_with(' ') {
            continue;
        }
        assert_eq!(parse(&line), expected, "goal {:?}", goal);
    }
}

#[test]
fn add_ignores_further_arguments() {
    assert_eq!(
        parse("add coffee 3 cups a day"),
        Ok(Command::Add("coffee".to_string(), Some(3), false))
    );
}

#[test]
fn delete_without_argument() {
    assert_eq!(parse("delete"), Err(CommandLineError::NotEnoughArgs("delete".to_string(), 1)));
    assert_eq!(parse("d"), Err(CommandLineError::NotEnoughArgs("d".to_string(), 1)));
}

#[test]
fn delete_and_its_alias() {
    assert_eq!(parse("delete coffee"), Ok(Command::Delete("coffee".to_string())));
    assert_eq!(parse("d coffee"), Ok(Command::Delete("coffee".to_string())));
}

#[test]
fn track_commands_and_aliases() {
    assert_eq!(parse("track-up jog"), Ok(Command::TrackUp("jog".to_string())));
    assert_eq!(parse("tup jog"), Ok(Command::TrackUp("jog".to_string())));
    assert_eq!(parse("track-down jog"), Ok(Command::TrackDown("jog".to_string())));
    assert_eq!(parse("tdown jog"), Ok(Command::TrackDown("jog".to_string())));
    assert_eq!(parse("tup"), Err(CommandLineError::NotEnoughArgs("tup".to_string(), 1)));
    assert_eq!(
        parse("track-down"),
        Err(CommandLineError::NotEnoughArgs("track-down".to_string(), 1))
    );
}

#[test]
fn month_commands_and_aliases() {
    assert_eq!(parse("mprev"), Ok(Command::MonthPrev));
    assert_eq!(parse("month-prev"), Ok(Command::MonthPrev));
    assert_eq!(parse("mnext"), Ok(Command::MonthNext));
    assert_eq!(parse("month-next"), Ok(Command::MonthNext));
    assert_eq!(parse("mnext now"), Ok(Command::MonthNext));
}

#[test]
fn set_name_and_its_alias() {
    assert_eq!(parse("set-name tea"), Ok(Command::SetName("tea".to_string())));
    assert_eq!(parse("setn tea"), Ok(Command::SetName("tea".to_string())));
    assert_eq!(parse("setn"), Err(CommandLineError::NotEnoughArgs("setn".to_string(), 1)));
}

#[test]
fn quit_and_its_alias() {
    assert_eq!(parse("quit"), Ok(Command::Quit));
    assert_eq!(parse("q"), Ok(Command::Quit));
}

#[test]
fn empty_input_is_blank() {
    assert_eq!(parse(""), Ok(Command::Blank));
    assert_eq!(parse("   "), Ok(Command::Blank));
    assert_eq!(parse("\t\n"), Ok(Command::Blank));
}

#[test]
fn unknown_verb() {
    assert_eq!(parse("bogus"), Err(CommandLineError::InvalidCommand("bogus".to_string())));
    assert_eq!(parse("Add coffee"), Err(CommandLineError::InvalidCommand("Add".to_string())));
    assert_eq!(parse("set"), Err(CommandLineError::InvalidCommand("set".to_string())));
}

#[test]
fn input_is_trimmed_at_both_ends() {
    assert_eq!(parse("  add coffee 3 \n"), Ok(Command::Add("coffee".to_string(), Some(3), false)));
    assert_eq!(parse("\u{a0}q\u{3000}"), Ok(Command::Quit));
    assert_eq!(parse("\u{2003}delete x\u{85}"), Ok(Command::Delete("x".to_string())));
}

#[test]
fn trimming_agrees_with_the_standard_library() {
    for c in ['\u{9}', '\u{a}', '\u{b}', '\u{c}', '\u{d}', ' ', '\u{85}', '\u{a0}', '\u{1680}',
        '\u{2000}', '\u{200a}', '\u{2028}', '\u{2029}', '\u{202f}', '\u{205f}', '\u{3000}',
        '\u{200b}', '\u{feff}', '\u{1c}', 'x']
    {
        let line = format!("{}quit{}", c, c);
        let expected = match line.trim() {
            "quit" => Ok(Command::Quit),
            other => Err(CommandLineError::InvalidCommand(other.to_string())),
        };
        assert_eq!(parse(&line), expected, "character {:?}", c);
    }
}

#[test]
fn only_single_spaces_separate() {
    // Two spaces enclose an empty piece: the name is empty, the goal is "coffee".
    assert_eq!(parse("add  coffee"), Err(CommandLineError::InvalidArg(2)));
    assert_eq!(parse("delete  coffee"), Ok(Command::Delete("".to_string())));
    assert_eq!(parse("add\tcoffee"), Err(CommandLineError::InvalidCommand("add\tcoffee".to_string())));
}

#[test]
fn names_keep_their_characters() {
    assert_eq!(parse("add café 2"), Ok(Command::Add("café".to_string(), Some(2), false)));
    assert_eq!(parse("d 日本語"), Ok(Command::Delete("日本語".to_string())));
}

#[test]
fn error_messages() {
    assert_eq!(
        CommandLineError::InvalidCommand("bogus".to_string()).message(),
        "Invalid command: `bogus`"
    );
    assert_eq!(CommandLineError::InvalidArg(2).message(), "Invalid argument at position 2");
    assert_eq!(
        CommandLineError::NotEnoughArgs("delete".to_string(), 1).message(),
        "Command `delete` requires atleast 1 argument(s)!"
    );
    assert_eq!(
        CommandLineError::NotEnoughArgs("x".to_string(), 4294967295).message(),
        "Command `x` requires atleast 4294967295 argument(s)!"
    );
}

#[test]
fn parsing_is_repeatable() {
    assert_eq!(parse("add coffee 3"), parse("add coffee 3"));
    assert_eq!(parse("bogus"), parse("bogus"));
}

#[test]
fn decimal_notation() {
    for n in [0u128, 1, 9, 10, 11, 99, 100, 101, 4294967295, u64::MAX as u128, u128::MAX] {
        let mut out = String::from("n=");
        push_decimal(&mut out, n);
        assert_eq!(out, format!("n={}", n));
    }
}

#[test]
fn string_equality() {
    assert!(str_eq("", ""));
    assert!(str_eq("add", "add"));
    assert!(!str_eq("add", "ad"));
    assert!(!str_eq("ad", "add"));
    assert!(!str_eq("add", "adx"));
    assert!(str_eq("日本", "日本"));
    assert!(!str_eq("日本", "日月"));
}
