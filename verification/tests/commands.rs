use threebot::audio::effects::AudioEffect;
use threebot::commands::alias::{AliasCommand, AliasRequest};
use threebot::commands::sound::{
    apply_random_modifier, available_effects, code_from_hash, play_message, SoundCommand,
};
use threebot::commands::{
    create_html_table, BuiltinCommand, CommandContext, Executor, KnownUser, PersonalCommand,
    PersonalPlan,
};
use threebot::config::{FarewellMode, GreetingMode};
use threebot::error::Error;
use threebot::persistence::{
    alias_insert_error, contains, setting_id, table_creation_result, SettingType,
};
use threebot::session::{
    channel_after_state, channel_after_sync, farewell_fallback, farewell_plan,
    greeting_fallback, greeting_plan, merged_name, triage_text, AutoPlay, SoundHistory,
    TextAction,
};
use threebot::sounds::{random_sound_offset, sound_key, validate_sound_code};
use threebot::text::parse_number;

fn strings(words: &[&str]) -> Vec<String> {
    words.iter().map(|w| w.to_string()).collect()
}

#[test]
fn a_command_line_is_taken_apart() {
    let line = Executor::parse_command_line("  !sound   play <b>ABCD</b>\t+loud ").unwrap();
    assert_eq!(line.name, "sound");
    assert_eq!(line.args, strings(&["play", "ABCD", "+loud"]));
    let line = Executor::parse_command_line("!ping").unwrap();
    assert_eq!(line.name, "ping");
    assert!(line.args.is_empty());
    let line = Executor::parse_command_line("!").unwrap();
    assert_eq!(line.name, "");
}

#[test]
fn a_line_without_a_command_is_refused() {
    match Executor::parse_command_line("   ") {
        Err(Error::InvalidArgument(message)) => assert_eq!(message, "No command provided"),
        other => panic!("unexpected: {:?}", other),
    }
    match Executor::parse_command_line("<b></b>") {
        Err(Error::InvalidArgument(message)) => assert_eq!(message, "No command provided"),
        other => panic!("unexpected: {:?}", other),
    }
    match Executor::parse_command_line("ping now") {
        Err(Error::InvalidArgument(message)) => {
            assert_eq!(message, "Command must start with '!'")
        }
        other => panic!("unexpected: {:?}", other),
    }
}

#[test]
fn the_commands_of_the_bot_are_known_by_name() {
    assert_eq!(Executor::builtin("alias"), Some(BuiltinCommand::Alias));
    assert_eq!(Executor::builtin("bind"), Some(BuiltinCommand::Bind));
    assert_eq!(Executor::builtin("farewell"), Some(BuiltinCommand::Farewell));
    assert_eq!(Executor::builtin("greeting"), Some(BuiltinCommand::Greeting));
    assert_eq!(Executor::builtin("ping"), Some(BuiltinCommand::Ping));
    assert_eq!(Executor::builtin("sound"), Some(BuiltinCommand::Sound));
    assert_eq!(Executor::builtin("sounds"), None);
    assert_eq!(Executor::builtin("Ping"), None);
    assert_eq!(Executor::builtin(""), None);
}

#[test]
fn placeholders_are_filled_in() {
    assert_eq!(
        Executor::expand_alias("sound play hello; sound play $1", &strings(&["ABCD", "x"])),
        strings(&["!sound play hello", "!sound play ABCD"])
    );
    assert_eq!(
        Executor::expand_alias("greet $@; sound play fanfare", &strings(&["a", "b"])),
        strings(&["!greet a b", "!sound play fanfare"])
    );
    assert_eq!(
        Executor::expand_alias("!say $# $2 $1", &strings(&["a", "b"])),
        strings(&["!say 2 b a"])
    );
    // the first placeholder is also the beginning of the tenth
    let ten = strings(&["a", "b", "c", "d", "e", "f", "g", "h", "i", "j"]);
    assert_eq!(Executor::expand_alias("x $10", &ten), strings(&["!x a0"]));
    // an argument can bring a placeholder along
    assert_eq!(
        Executor::expand_alias("x $1", &strings(&["$2", "b"])),
        strings(&["!x b"])
    );
}

#[test]
fn arguments_go_behind_the_last_command_without_placeholders() {
    assert_eq!(
        Executor::expand_alias("sound play", &strings(&["ABCD", "loud"])),
        strings(&["!sound play ABCD loud"])
    );
    assert_eq!(
        Executor::expand_alias("ping; sound play ", &strings(&["ABCD"])),
        strings(&["!ping", "!ABCD sound play"])
    );
    assert_eq!(
        Executor::expand_alias("ping;", &strings(&["!x"])),
        strings(&["!ping", "!x"])
    );
    assert_eq!(
        Executor::expand_alias(" ; !a ;; b ", &[].to_vec()),
        strings(&["!a", "!b"])
    );
    assert_eq!(Executor::expand_alias("", &[].to_vec()), Vec::<String>::new());
}

#[test]
fn an_alias_is_resolved_one_level_deeper() {
    let args = strings(&["ABCD"]);
    let (lines, depth) = Executor::resolve_alias("hi", Some("sound play $1"), &args, 3).unwrap();
    assert_eq!(lines, strings(&["!sound play ABCD"]));
    assert_eq!(depth, 4);
    match Executor::resolve_alias("hi", None, &args, 0) {
        Err(Error::InvalidArgument(message)) => assert_eq!(message, "Unknown command: hi"),
        other => panic!("unexpected: {:?}", other),
    }
    match Executor::resolve_alias("hi", Some("hi"), &args, 10) {
        Err(Error::InvalidArgument(message)) => assert_eq!(
            message,
            "Maximum alias expansion depth (10) exceeded. Possible recursive alias: hi"
        ),
        other => panic!("unexpected: {:?}", other),
    }
    assert!(Executor::resolve_alias("hi", Some("hi"), &args, 9).is_ok());
}

fn request(words: &[&str]) -> String {
    format!("{:?}", AliasCommand.request(&strings(words)))
}

#[test]
fn the_alias_command_reads_its_arguments() {
    assert!(matches!(AliasCommand.request(&strings(&[])), AliasRequest::List(0)));
    assert!(matches!(AliasCommand.request(&strings(&["list"])), AliasRequest::List(0)));
    assert!(matches!(AliasCommand.request(&strings(&["help"])), AliasRequest::Help));
    assert!(matches!(AliasCommand.request(&strings(&["other"])), AliasRequest::Usage));
    assert_eq!(request(&["remove", "hi"]), "Remove(\"hi\")");
    assert_eq!(request(&["list", "3"]), "List(2)");
    assert_eq!(request(&["list", "0"]), "List(0)");
    assert_eq!(request(&["list", "+7"]), "List(6)");
    assert_eq!(request(&["list", "x"]), "InvalidListPage");
    assert_eq!(request(&["list", "-1"]), "InvalidListPage");
    assert_eq!(request(&["search", "fan"]), "Search(\"fan\", 0)");
    assert_eq!(request(&["search", "fan", "2"]), "Search(\"fan\", 1)");
    assert_eq!(request(&["search", "fan", "two"]), "InvalidSearchPage");
    assert_eq!(
        request(&["hi", "ping"]),
        "Create { name: \"hi\", commands: \"ping\" }"
    );
    assert_eq!(
        request(&["create", "ping"]),
        "Create { name: \"create\", commands: \"ping\" }"
    );
    assert_eq!(
        request(&["hi", "sound", "play", "ABCD"]),
        "Create { name: \"hi\", commands: \"sound play ABCD\" }"
    );
    assert_eq!(
        request(&["create", "list", "sound", "play"]),
        "Create { name: \"list\", commands: \"sound play\" }"
    );
    assert_eq!(
        request(&["create", "hi", "ping"]),
        "Create { name: \"hi\", commands: \"ping\" }"
    );
    assert_eq!(AliasCommand::total_pages(0), 0);
    assert_eq!(AliasCommand::total_pages(1), 1);
    assert_eq!(AliasCommand::total_pages(20), 1);
    assert_eq!(AliasCommand::total_pages(21), 2);
    assert_eq!(AliasCommand::total_pages(u64::MAX), u64::MAX / 20 + 1);
}

#[test]
fn numbers_are_read() {
    assert_eq!(parse_number("0"), Some(0));
    assert_eq!(parse_number("007"), Some(7));
    assert_eq!(parse_number("+12"), Some(12));
    assert_eq!(parse_number("18446744073709551615"), Some(u64::MAX));
    assert_eq!(parse_number("18446744073709551616"), None);
    assert_eq!(parse_number("99999999999999999999"), None);
    assert_eq!(parse_number(""), None);
    assert_eq!(parse_number("+"), None);
    assert_eq!(parse_number("-1"), None);
    assert_eq!(parse_number("1 "), None);
    assert_eq!(parse_number("1a"), None);
    assert_eq!(parse_number("١"), None);
}

#[test]
fn a_personal_command_plans_its_first_step() {
    let somebody = CommandContext {
        triggering_user_id: Some(7),
        source_channel_id: Some(1),
        is_private_message: false,
    };
    let nobody = CommandContext {
        triggering_user_id: None,
        source_channel_id: None,
        is_private_message: false,
    };
    let bind = PersonalCommand::Bind;
    let none: Vec<String> = vec![];
    let some = strings(&["sound", "play", "ABCD"]);
    assert_eq!(bind.plan(&nobody, Some(Some("ann")), true, &some), PersonalPlan::NoUser);
    assert_eq!(bind.plan(&somebody, None, true, &some), PersonalPlan::NoUserInfo);
    assert_eq!(bind.plan(&somebody, Some(None), true, &some), PersonalPlan::NoUsername);
    assert_eq!(bind.plan(&somebody, Some(Some("")), true, &some), PersonalPlan::NoUsername);
    assert_eq!(bind.plan(&somebody, Some(Some("ann")), false, &some), PersonalPlan::NoManager);
    assert_eq!(bind.plan(&somebody, Some(Some("ann")), true, &none), PersonalPlan::Run);
    assert_eq!(bind.plan(&somebody, Some(Some("ann")), true, &some), PersonalPlan::Store);
    assert_eq!(PersonalCommand::stored_command(&some), "!sound play ABCD");
    assert_eq!(PersonalCommand::stored_command(&strings(&["!ping"])), "!ping");
    assert_eq!(PersonalCommand::Greeting.name(), "greeting");
    assert_eq!(PersonalCommand::Farewell.name(), "farewell");
    assert_eq!(bind.name(), "bind");
    assert_ne!(KnownUser::Named, KnownUser::Nameless);
}

#[test]
fn a_table_is_built() {
    let table = create_html_table(
        &strings(&["Name", "Author"]),
        &vec![strings(&["hi", "ann"]), strings(&[]), strings(&["x"])],
    );
    assert_eq!(
        table,
        "<table style=\"border-collapse: collapse; width: 100%; border: none;\"><tr>\
<th style=\"text-align: center; font-weight: bold; padding: 0 8px; border: none;\">Name</th>\
<th style=\"text-align: center; font-weight: bold; padding: 0 8px; border: none;\">Author</th>\
</tr><tr>\
<td style=\"text-align: left; padding: 0 8px; border: none;\">hi</td>\
<td style=\"text-align: left; padding: 0 8px; border: none;\">ann</td>\
</tr><tr></tr><tr>\
<td style=\"text-align: left; padding: 0 8px; border: none;\">x</td>\
</tr></table>"
    );
    assert_eq!(
        create_html_table(&vec![], &vec![]),
        "<table style=\"border-collapse: collapse; width: 100%; border: none;\"><tr></tr></table>"
    );
}

#[test]
fn a_play_request_names_a_sound_and_effects() {
    let command = SoundCommand;
    let request = command.play_request(&strings(&["ABCD", "loud", "+reverb", "WXYZ", "LOUD"]));
    assert_eq!(request.target, Some("ABCD".to_string()));
    assert_eq!(request.effects, vec![AudioEffect::Loud, AudioEffect::Reverb]);
    let request = command.play_request(&strings(&["+echo"]));
    assert_eq!(request.target, None);
    assert_eq!(request.effects, vec![AudioEffect::Echo]);
    let request = command.play_request(&[]);
    assert_eq!(request.target, None);
    assert!(request.effects.is_empty());
}

#[test]
fn a_round_that_fires_adds_a_missing_effect() {
    let mut effects = vec![AudioEffect::Loud, AudioEffect::Reverb];
    assert_eq!(
        available_effects(&effects),
        vec![
            AudioEffect::Fast,
            AudioEffect::Slow,
            AudioEffect::Echo,
            AudioEffect::Up,
            AudioEffect::Down,
            AudioEffect::Bass,
            AudioEffect::Reverse,
            AudioEffect::Muffle
        ]
    );
    // 11 mod 8 is 3: the fourth of the missing effects
    apply_random_modifier(&mut effects, 11, 1_000_000);
    assert_eq!(
        effects,
        vec![AudioEffect::Loud, AudioEffect::Reverb, AudioEffect::Up]
    );
    // a chance of nothing never fires
    apply_random_modifier(&mut effects, 0, 0);
    assert_eq!(effects.len(), 3);
    // a number in the upper half does not fire at one in two
    apply_random_modifier(&mut effects, u64::MAX / 2 + 1, 500_000);
    assert_eq!(effects.len(), 3);
    apply_random_modifier(&mut effects, u64::MAX / 2 - 1, 500_000);
    assert_eq!(effects.len(), 4);
}

#[test]
fn random_modifiers_run_their_rounds() {
    let command = SoundCommand;
    let given = vec![AudioEffect::Loud];
    assert_eq!(
        command.apply_random_modifiers(given.clone(), false, 1_000_000, &[1, 2]),
        given
    );
    assert_eq!(
        command.apply_random_modifiers(given.clone(), true, 1_000_000, &[]),
        given
    );
    assert_eq!(
        command.apply_random_modifiers(given.clone(), true, 1_000_000, &[0, 0]),
        vec![AudioEffect::Loud, AudioEffect::Fast, AudioEffect::Slow]
    );
    let all = command.apply_random_modifiers(vec![], true, 1_000_000, &[0; 12]);
    assert_eq!(all.len(), 10);
}

#[test]
fn a_code_is_four_capitals() {
    assert_eq!(code_from_hash(0), "AAAA");
    assert_eq!(code_from_hash(1), "BAAA");
    assert_eq!(code_from_hash(25), "ZAAA");
    assert_eq!(code_from_hash(26), "AAAA");
    assert_eq!(code_from_hash(0x0102), "YBAA");
    for hash in [7u64, 0xDEAD_BEEF, u64::MAX, 1 << 40] {
        let code = code_from_hash(hash);
        assert!(validate_sound_code(&code));
        let expected: String = (0..4)
            .map(|i| (b'A' + ((hash >> (i * 8)) % 26) as u8) as char)
            .collect();
        assert_eq!(code, expected);
    }
}

#[test]
fn a_sound_key_is_the_code_in_capitals() {
    assert_eq!(sound_key("abCd").unwrap(), "ABCD");
    assert_eq!(sound_key("WXYZ").unwrap(), "WXYZ");
    match sound_key("ab1d") {
        Err(Error::InvalidInput(message)) => assert_eq!(message, "Invalid sound code: ab1d"),
        other => panic!("unexpected: {:?}", other),
    }
    assert!(sound_key("").is_err());
}

#[test]
fn a_random_offset_lies_below_the_count() {
    assert_eq!(random_sound_offset(0), None);
    assert_eq!(random_sound_offset(1), Some(0));
    for _ in 0..200 {
        let offset = random_sound_offset(5).unwrap();
        assert!(offset < 5);
    }
}

#[test]
fn greetings_follow_the_mode() {
    assert_eq!(greeting_plan(GreetingMode::Off, Some("ann"), true), AutoPlay::Nothing);
    assert_eq!(greeting_plan(GreetingMode::All, Some("ann"), true), AutoPlay::Custom);
    assert_eq!(greeting_plan(GreetingMode::All, Some(""), true), AutoPlay::Random);
    assert_eq!(greeting_plan(GreetingMode::All, None, true), AutoPlay::Random);
    assert_eq!(greeting_plan(GreetingMode::All, Some("ann"), false), AutoPlay::Random);
    assert_eq!(greeting_plan(GreetingMode::Custom, Some("ann"), true), AutoPlay::Custom);
    assert_eq!(greeting_plan(GreetingMode::Custom, None, true), AutoPlay::Nothing);
    assert_eq!(greeting_plan(GreetingMode::Custom, Some("ann"), false), AutoPlay::Nothing);
    assert!(greeting_fallback(GreetingMode::All));
    assert!(!greeting_fallback(GreetingMode::Custom));
    assert!(!greeting_fallback(GreetingMode::Off));
    assert_eq!(farewell_plan(FarewellMode::Off, Some("ann"), true), AutoPlay::Nothing);
    assert_eq!(farewell_plan(FarewellMode::All, None, true), AutoPlay::Random);
    assert_eq!(farewell_plan(FarewellMode::Custom, Some("ann"), true), AutoPlay::Custom);
    assert_eq!(farewell_plan(FarewellMode::Custom, Some(""), true), AutoPlay::Nothing);
    assert!(farewell_fallback(FarewellMode::All));
    assert!(!farewell_fallback(FarewellMode::Custom));
}

#[test]
fn the_state_of_the_session_is_kept() {
    let known = "ann".to_string();
    let empty = String::new();
    assert_eq!(merged_name(Some("bea".to_string()), Some(&known)), Some("bea".to_string()));
    assert_eq!(merged_name(None, Some(&known)), Some("ann".to_string()));
    assert_eq!(merged_name(Some(String::new()), Some(&known)), Some("ann".to_string()));
    assert_eq!(merged_name(Some(String::new()), Some(&empty)), Some(String::new()));
    assert_eq!(merged_name(None, None), None);
    assert_eq!(channel_after_state(Some(1), Some(2)), Some(2));
    assert_eq!(channel_after_state(Some(1), None), Some(1));
    assert_eq!(channel_after_state(None, None), None);
    assert_eq!(channel_after_sync(None, None), Some(0));
    assert_eq!(channel_after_sync(Some(4), None), Some(4));
    assert_eq!(channel_after_sync(Some(4), Some(5)), Some(5));
}

#[test]
fn text_messages_are_sorted() {
    assert_eq!(triage_text("hello", 1, false, Some(2), true), TextAction::Ignore);
    assert_eq!(triage_text("", 1, false, Some(2), true), TextAction::Ignore);
    assert_eq!(triage_text("!ping", 1, true, Some(2), false), TextAction::Refuse);
    assert_eq!(
        triage_text("!ping", 1, true, Some(2), true),
        TextAction::Execute(CommandContext {
            triggering_user_id: Some(1),
            source_channel_id: None,
            is_private_message: true
        })
    );
    assert_eq!(
        triage_text("!ping", 1, false, Some(2), false),
        TextAction::Execute(CommandContext {
            triggering_user_id: Some(1),
            source_channel_id: Some(2),
            is_private_message: false
        })
    );
}

#[test]
fn the_history_keeps_the_last_fifty() {
    let mut history = SoundHistory::new();
    assert_eq!(history.len(), 0);
    assert!(history.get(0).is_none());
    for i in 0..60 {
        history.record_sound_played(&format!("S{}", i), i);
    }
    assert_eq!(history.len(), 50);
    assert_eq!(history.get(0), Some(&("S59".to_string(), 59)));
    assert_eq!(history.get(49), Some(&("S10".to_string(), 10)));
    assert!(history.get(50).is_none());
    assert_eq!(
        history.get_sound_history(2),
        vec![("S59".to_string(), 59), ("S58".to_string(), 58)]
    );
    assert_eq!(history.get_sound_history(100).len(), 50);
    assert!(history.get_sound_history(0).is_empty());
}

#[test]
fn settings_have_their_keys() {
    assert_eq!(SettingType::Bind.as_str(), "bind");
    assert_eq!(SettingType::Greeting.as_str(), "greeting");
    assert_eq!(SettingType::Farewell.as_str(), "farewell");
    assert_eq!(SettingType::from_str("bind"), Some(SettingType::Bind));
    assert_eq!(SettingType::from_str("greeting"), Some(SettingType::Greeting));
    assert_eq!(SettingType::from_str("farewell"), Some(SettingType::Farewell));
    assert_eq!(SettingType::from_str("Bind"), None);
    assert_eq!(setting_id("john", SettingType::Greeting), "john:greeting");
}

#[test]
fn what_the_database_says_is_weighed() {
    assert!(contains("a UNIQUE constraint failed: x", "UNIQUE constraint failed"));
    assert!(!contains("abc", "abcd"));
    assert!(contains("abc", ""));
    match alias_insert_error("hi", "error: UNIQUE constraint failed: aliases.name") {
        Error::InvalidArgument(message) => assert_eq!(message, "Alias 'hi' already exists"),
        other => panic!("unexpected: {:?}", other),
    }
    match alias_insert_error("hi", "disk full") {
        Error::DatabaseError(message) => {
            assert_eq!(message, "Failed to create alias: disk full")
        }
        other => panic!("unexpected: {:?}", other),
    }
    assert!(table_creation_result("sounds", "table \"sounds\" already exists").is_ok());
    match table_creation_result("sounds", "disk full") {
        Err(Error::DatabaseError(message)) => {
            assert_eq!(message, "Failed to create sounds table: disk full")
        }
        other => panic!("unexpected: {:?}", other),
    }
}

#[test]
fn a_playing_sound_is_announced() {
    assert_eq!(play_message("ABCD", false, &vec![], false), "🔊 Playing sound 'ABCD'");
    assert_eq!(
        play_message("ABCD", true, &vec![], false),
        "🎲 Playing random sound 'ABCD'"
    );
    assert_eq!(
        play_message("ABCD", false, &vec![AudioEffect::Loud, AudioEffect::Up], true),
        "🔊 Playing sound 'ABCD' with effects: loud, up"
    );
    assert_eq!(
        play_message("ABCD", true, &vec![AudioEffect::Reverb], false),
        "🎲 Playing random sound 'ABCD' with 🎲 random effects: reverb"
    );
}
