use threebot::certificates::{
    accepts, certificate_file_name, fingerprint, format_fingerprint, CertCheck,
    PromptingCertVerifier,
};
use threebot::commands::alias::AliasCommand;
use threebot::commands::bind::BindCommand;
use threebot::commands::farewell::FarewellCommand;
use threebot::commands::greeting::GreetingCommand;
use threebot::commands::ping::PingCommand;
use threebot::commands::sound::SoundCommand;
use threebot::config::{BotConfig, ExternalToolsSettings, FarewellMode, GreetingMode};
use threebot::error::Error;
use threebot::sounds::{join_path, validate_sound_code, SoundFile};

#[test]
fn test_validate_sound_code() {
    assert!(validate_sound_code("ABCD"));
    assert!(validate_sound_code("abcd"));
    assert!(validate_sound_code("AbCd"));

    assert!(!validate_sound_code("ABC")); // too short
    assert!(!validate_sound_code("ABCDE")); // too long
    assert!(!validate_sound_code("AB12")); // contains numbers
    assert!(!validate_sound_code("AB-D")); // contains special chars
    assert!(!validate_sound_code("")); // empty
}

#[test]
fn sound_codes_are_ascii_letters_only() {
    assert!(!validate_sound_code("éé"));
    assert!(!validate_sound_code("ABCé"));
    assert!(!validate_sound_code("AB D"));
    assert!(validate_sound_code("zzZZ"));
}

#[test]
fn a_sound_file_lies_in_the_sounds_directory() {
    let file = SoundFile::new("ABCD".to_string(), "/data/sounds");
    assert_eq!(file.code, "ABCD");
    assert_eq!(file.file_path, "/data/sounds/ABCD.mp3");
    assert_eq!(file.path_str(), Some("/data/sounds/ABCD.mp3"));
    assert!(file.metadata.is_none());
    assert_eq!(SoundFile::new("X".to_string(), "dir/").file_path, "dir/X.mp3");
    assert_eq!(SoundFile::new("X".to_string(), "").file_path, "X.mp3");
    assert_eq!(SoundFile::new("/X".to_string(), "dir").file_path, "/X.mp3");
    assert_eq!(join_path("a", "b"), "a/b");
}

#[test]
fn test_default_config() {
    let config = BotConfig::default();
    assert_eq!(config.bot.username, "Threebot");
    assert_eq!(config.server.host, "localhost");
    assert_eq!(config.server.port, 64738);
    assert!(matches!(config.behavior.auto_greetings, GreetingMode::All));
    assert!(matches!(
        config.behavior.auto_farewells,
        FarewellMode::Custom
    ));
}

#[test]
fn test_path_resolution() {
    let config = BotConfig::default();
    let data_dir = config.get_data_dir(Some("/home/bot"));
    let cert_path = config.get_cert_path(Some("/home/bot"));
    let key_path = config.get_key_path(Some("/home/bot"));

    assert!(cert_path.ends_with("cert.pem"));
    assert!(key_path.ends_with("key.pem"));
    assert!(cert_path.starts_with(&data_dir));
    assert!(key_path.starts_with(&data_dir));
    assert_eq!(data_dir, "/home/bot/.threebot");
    assert_eq!(cert_path, "/home/bot/.threebot/cert.pem");
    assert_eq!(
        config.get_trusted_certs_dir(None),
        "./.threebot/trusted_certificates"
    );
    assert_eq!(
        BotConfig::get_config_path(Some("/home/bot")),
        "/home/bot/.threebot/config.yml"
    );
}

#[test]
fn test_cli_overrides() {
    let mut config = BotConfig::default();
    config.apply_cli_overrides(Some(true), Some("/custom/path".to_string()));

    assert!(config.bot.verbose);
    assert_eq!(config.paths.data_dir, Some("/custom/path".to_string()));
    assert_eq!(config.get_data_dir(Some("/home/bot")), "/custom/path");
    assert_eq!(config.get_key_path(None), "/custom/path/key.pem");

    config.apply_cli_overrides(None, None);
    assert!(config.bot.verbose);
    assert_eq!(config.paths.data_dir, Some("/custom/path".to_string()));
}

#[test]
fn test_tilde_expansion() {
    let mut external_tools = ExternalToolsSettings {
        ytdlp_cookies_file: Some("~/cookies.txt".to_string()),
    };

    let expanded_path = external_tools
        .get_ytdlp_cookies_path(Some("/home/bot"))
        .unwrap();
    assert!(expanded_path.ends_with("cookies.txt"));
    assert!(!expanded_path.starts_with("~"));
    assert_eq!(expanded_path, "/home/bot/cookies.txt");
    assert_eq!(
        external_tools.get_ytdlp_cookies_path(None).unwrap(),
        "~/cookies.txt"
    );

    // Test absolute path (no expansion)
    external_tools.ytdlp_cookies_file = Some("/absolute/path/cookies.txt".to_string());
    let absolute_path = external_tools
        .get_ytdlp_cookies_path(Some("/home/bot"))
        .unwrap();
    assert_eq!(absolute_path, "/absolute/path/cookies.txt");

    // Test just tilde
    external_tools.ytdlp_cookies_file = Some("~".to_string());
    let home_path = external_tools
        .get_ytdlp_cookies_path(Some("/home/bot"))
        .unwrap();
    assert_eq!(home_path, "/home/bot");
    assert_eq!(external_tools.get_ytdlp_cookies_path(None).unwrap(), ".");

    // Test None
    external_tools.ytdlp_cookies_file = None;
    assert!(external_tools
        .get_ytdlp_cookies_path(Some("/home/bot"))
        .is_none());
}

#[test]
fn errors_are_shown_with_their_kind() {
    assert_eq!(
        Error::ConnectionError("lost".to_string()).to_string(),
        "Connection error: lost"
    );
    assert_eq!(
        Error::InvalidArgument("x".to_string()).to_string(),
        "Invalid argument: x"
    );
    assert_eq!(
        Error::InvalidCertificate("x".to_string()).to_string(),
        "Invalid certificate provided: x"
    );
    assert_eq!(
        Error::DatabaseError("x".to_string()).to_string(),
        "Database error: x"
    );
    assert_eq!(
        Error::InvalidInput("x".to_string()).to_string(),
        "Invalid input: x"
    );
    assert_eq!(
        Error::ConfigError("x".to_string()).to_string(),
        "Configuration error: x"
    );
}

#[test]
fn effect_words_are_recognised() {
    let command = SoundCommand;
    for word in [
        "loud", "fast", "slow", "reverb", "echo", "up", "down", "bass", "reverse", "muffle",
    ] {
        assert!(command.is_audio_effect(word));
        assert!(command.is_audio_effect(&format!("+{}", word)));
    }
    assert!(!command.is_audio_effect("LOUD"));
    assert!(!command.is_audio_effect("++loud"));
    assert!(!command.is_audio_effect("ABCD"));
    assert!(!command.is_audio_effect("+"));
    assert!(!command.is_audio_effect(""));
}

#[test]
fn commands_describe_themselves() {
    assert_eq!(
        PingCommand.description(),
        "Responds with 'Pong!' to test command functionality"
    );
    assert_eq!(
        AliasCommand.description(),
        "Create or list command aliases. Usage: !alias <name> <commands...> or !alias list"
    );
    assert_eq!(
        BindCommand.description(),
        "Set or execute personal bind commands - !bind <command> to set, !bind to execute"
    );
    assert_eq!(
        GreetingCommand.description(),
        "Set or execute personal greeting commands - !greeting <command> to set, !greeting to execute"
    );
    assert_eq!(
        FarewellCommand.description(),
        "Set or execute personal farewell commands - !farewell <command> to set, !farewell to execute"
    );
    assert_eq!(
        SoundCommand.description(),
        "Manage and play sound files - play, list, get info, pull from URLs, and scan for orphaned files"
    );
}

#[test]
fn a_fingerprint_is_the_digest_in_hex_with_colons() {
    assert_eq!(format_fingerprint(&[]), "");
    assert_eq!(format_fingerprint(&[0x0A]), "0A");
    assert_eq!(format_fingerprint(&[0x00, 0xFF, 0x9c]), "00:FF:9C");
    assert_eq!(
        fingerprint(b"abc"),
        "BA:78:16:BF:8F:01:CF:EA:41:41:40:DE:5D:AE:22:23:B0:03:61:A3:96:17:7A:9C:B4:10:FF:61:F2:00:15:AD"
    );
    assert_eq!(certificate_file_name("00:FF:9C"), "00FF9C.der");
    assert_eq!(certificate_file_name(""), ".der");
}

#[test]
fn answers_are_read() {
    assert!(accepts("y"));
    assert!(accepts("Y\n"));
    assert!(accepts("  yes  "));
    assert!(accepts("YeS\r\n"));
    assert!(accepts("\u{3000}y\u{2003}"));
    assert!(!accepts(""));
    assert!(!accepts("n"));
    assert!(!accepts("yes please"));
    assert!(!accepts("ye"));
    assert!(!accepts("y e s"));
}

#[test]
fn a_certificate_is_trusted_once_accepted() {
    let mut store = PromptingCertVerifier::new();
    let cert = [1u8, 2, 3];
    assert!(!store.is_trusted(&cert));
    match store.check(&cert) {
        CertCheck::Unknown(text) => assert_eq!(text, fingerprint(&cert)),
        CertCheck::Trusted => panic!("not yet trusted"),
    }
    assert!(!store.decide(&cert, "no"));
    assert!(!store.is_trusted(&cert));
    assert!(store.decide(&cert, "yes"));
    assert!(store.is_trusted(&cert));
    assert!(matches!(store.check(&cert), CertCheck::Trusted));
    assert!(!store.is_trusted(&[1, 2]));
    store.trust(&[1, 2]);
    store.trust(&[1, 2]);
    assert!(store.is_trusted(&[1, 2]));
}
