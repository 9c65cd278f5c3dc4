//! The configuration of the bot, as far as the library reads it.
//!
//! Quantities that a configuration file gives as fractions are held here as
//! integers of a finer unit, or as the decimal text that goes into a filter
//! expression.

use vstd::prelude::*;
use vstd::string::StringExecFns;

use crate::audio::effects::AudioEffectSettings;
use crate::audio::prenorm::{InputNormalization, NormalizationMode};
use crate::audio::sample::UNITY;
use crate::sounds::{join_path, joined_path};
use crate::text::{chars_of, push_range, string_of};

verus! {

/// Identity of the bot.
#[derive(Debug)]
pub struct BotSettings {
    pub username: String,
    pub password: Option<String>,
    pub verbose: bool,
}

/// Where the server is.
#[derive(Debug)]
pub struct ServerSettings {
    pub host: String,
    pub port: u16,
    pub timeout_seconds: u64,
}

/// What is played when a user joins.
#[derive(Debug, Clone, Copy, PartialEq, Eq, Structural)]
pub enum GreetingMode {
    /// The greeting of the user, or a random sound where there is none.
    All,
    /// The greeting of the user only.
    Custom,
    /// Nothing.
    Off,
}

/// What is played when a user leaves.
#[derive(Debug, Clone, Copy, PartialEq, Eq, Structural)]
pub enum FarewellMode {
    /// The farewell of the user, or a random sound where there is none.
    All,
    /// The farewell of the user only.
    Custom,
    /// Nothing.
    Off,
}

/// How the bot behaves.
#[derive(Debug)]
pub struct BehaviorSettings {
    pub auto_greetings: GreetingMode,
    pub auto_farewells: FarewellMode,
    pub allow_private_commands: bool,
    /// Volume of all outgoing audio, in 65536ths.
    pub volume: u32,
    pub volume_normalization_enabled: bool,
    /// Target loudness of the normaliser, in hundredths of a LUFS.
    pub target_loudness_lufs: i32,
    /// Greatest gain of the normaliser, in hundredths of a dB.
    pub max_normalization_gain_db: i32,
    pub random_modifiers_enabled: bool,
    /// Chance of a random modifier in each round, in millionths.
    pub random_modifier_chance: u32,
    pub random_modifier_rounds: u32,
    pub audio_buffer_size: usize,
}

/// Files and directories.
#[derive(Debug)]
pub struct PathSettings {
    pub data_dir: Option<String>,
    pub cert_file: Option<String>,
    pub key_file: Option<String>,
    pub trusted_certs_dir: Option<String>,
}

/// Settings of the tools that the bot runs.
#[derive(Debug)]
pub struct ExternalToolsSettings {
    pub ytdlp_cookies_file: Option<String>,
}

/// The whole configuration.
#[derive(Debug)]
pub struct BotConfig {
    pub bot: BotSettings,
    pub server: ServerSettings,
    pub behavior: BehaviorSettings,
    pub audio_effects: AudioEffectSettings,
    pub input_normalization: InputNormalization,
    pub paths: PathSettings,
    pub external_tools: ExternalToolsSettings,
}

/// The home directory, or the current directory where none is known.
pub open spec fn home_or_here(home: Option<Seq<char>>) -> Seq<char> {
    match home {
        Some(h) => h,
        None => "."@,
    }
}

/// The text of an optional string slice.
pub open spec fn text_of(text: Option<&str>) -> Option<Seq<char>> {
    match text {
        Some(t) => Some(t@),
        None => None,
    }
}

/// The data directory when the configuration names none.
pub open spec fn default_data_dir(home: Option<Seq<char>>) -> Seq<char> {
    joined_path(home_or_here(home), ".threebot"@)
}

/// A path with a leading `~` replaced by the home directory. Without a
/// home directory, `~` alone is the current directory and every other path
/// stays as it is.
pub open spec fn tilde_expanded(path: Seq<char>, home: Option<Seq<char>>) -> Seq<char> {
    if path.len() >= 2 && path[0] == '~' && path[1] == '/' {
        match home {
            Some(h) => joined_path(h, path.skip(2)),
            None => path,
        }
    } else if path == seq!['~'] {
        home_or_here(home)
    } else {
        path
    }
}

fn home_dir_or_here(home: Option<&str>) -> (dir: String)
    ensures
        dir@ == home_or_here(text_of(home)),
{
    match home {
        Some(h) => String::from_str(h),
        None => String::from_str("."),
    }
}

impl ExternalToolsSettings {
    /// The path of the cookies file with a leading `~` expanded. `home` is
    /// the home directory, where one is known.
    pub fn get_ytdlp_cookies_path(&self, home: Option<&str>) -> (path: Option<String>)
        ensures
            path is Some <==> self.ytdlp_cookies_file is Some,
            path matches Some(p) ==> p@ == tilde_expanded(
                self.ytdlp_cookies_file->Some_0@,
                text_of(home),
            ),
    {
        match &self.ytdlp_cookies_file {
            None => None,
            Some(path) => {
                let chars = chars_of(path.as_str());
                if chars.len() >= 2 && chars[0] == '~' && chars[1] == '/' {
                    match home {
                        Some(h) => {
                            let mut rest: Vec<char> = Vec::new();
                            let n = chars.len();
                            push_range(&mut rest, &chars, 2, n);
                            proof {
                                assert(rest@ =~= path@.skip(2));
                            }
                            let rest = string_of(&rest);
                            Some(join_path(h, rest.as_str()))
                        },
                        None => Some(path.clone()),
                    }
                } else if chars.len() == 1 && chars[0] == '~' {
                    proof {
                        assert(path@ =~= seq!['~']);
                    }
                    Some(home_dir_or_here(home))
                } else {
                    proof {
                        if path@ == seq!['~'] {
                            assert(chars@.len() == 1 && chars@[0] == '~');
                        }
                    }
                    Some(path.clone())
                }
            },
        }
    }
}

impl Default for BotConfig {
    /// The configuration of a bot that nobody has configured.
    fn default() -> (config: Self)
        ensures
            config.bot.username@ == "Threebot"@,
            config.bot.password is None,
            !config.bot.verbose,
            config.server.host@ == "localhost"@,
            config.server.port == 64738,
            config.server.timeout_seconds == 10,
            config.behavior.auto_greetings == GreetingMode::All,
            config.behavior.auto_farewells == FarewellMode::Custom,
            config.behavior.allow_private_commands,
            config.behavior.volume == UNITY,
            !config.behavior.volume_normalization_enabled,
            config.behavior.target_loudness_lufs == -1800,
            config.behavior.max_normalization_gain_db == 1200,
            config.behavior.random_modifiers_enabled,
            config.behavior.random_modifier_chance == 50_000,
            config.behavior.random_modifier_rounds == 2,
            config.behavior.audio_buffer_size == 8192,
            config.audio_effects.loud_boost_db@ == "6"@,
            config.audio_effects.fast_speed_multiplier@ == "1.5"@,
            config.audio_effects.slow_speed_multiplier@ == "0.75"@,
            config.audio_effects.pitch_up_cents == 200,
            config.audio_effects.pitch_down_cents == -200,
            config.audio_effects.pitch_up_ratio@ == "1.122462"@,
            config.audio_effects.pitch_down_ratio@ == "0.890899"@,
            config.audio_effects.bass_boost_frequency_hz@ == "50"@,
            config.audio_effects.bass_boost_gain_db@ == "25"@,
            config.audio_effects.reverb_room_size == 100,
            config.audio_effects.reverb_damping == 100,
            config.audio_effects.echo_delay_ms == 300,
            config.audio_effects.echo_feedback@ == "0.3"@,
            config.audio_effects.muffle_cutoff_frequency_hz@ == "1000"@,
            config.input_normalization.mode == NormalizationMode::Full,
            config.input_normalization.target_loudness == -1800,
            config.input_normalization.true_peak == -150,
            config.input_normalization.loudness_range == 1100,
            config.paths.data_dir is None,
            config.paths.cert_file is None,
            config.paths.key_file is None,
            config.paths.trusted_certs_dir is None,
            config.external_tools.ytdlp_cookies_file is None,
    {
        BotConfig {
            bot: BotSettings {
                username: String::from_str("Threebot"),
                password: None,
                verbose: false,
            },
            server: ServerSettings {
                host: String::from_str("localhost"),
                port: 64738,
                timeout_seconds: 10,
            },
            behavior: BehaviorSettings {
                auto_greetings: GreetingMode::All,
                auto_farewells: FarewellMode::Custom,
                allow_private_commands: true,
                volume: UNITY,
                volume_normalization_enabled: false,
                target_loudness_lufs: -1800,
                max_normalization_gain_db: 1200,
                random_modifiers_enabled: true,
                random_modifier_chance: 50_000,
                random_modifier_rounds: 2,
                audio_buffer_size: 8192,
            },
            audio_effects: AudioEffectSettings {
                loud_boost_db: String::from_str("6"),
                fast_speed_multiplier: String::from_str("1.5"),
                slow_speed_multiplier: String::from_str("0.75"),
                pitch_up_cents: 200,
                pitch_down_cents: -200,
                pitch_up_ratio: String::from_str("1.122462"),
                pitch_down_ratio: String::from_str("0.890899"),
                bass_boost_frequency_hz: String::from_str("50"),
                bass_boost_gain_db: String::from_str("25"),
                reverb_room_size: 100,
                reverb_damping: 100,
                echo_delay_ms: 300,
                echo_feedback: String::from_str("0.3"),
                muffle_cutoff_frequency_hz: String::from_str("1000"),
            },
            input_normalization: InputNormalization {
                mode: NormalizationMode::Full,
                target_loudness: -1800,
                true_peak: -150,
                loudness_range: 1100,
            },
            paths: PathSettings {
                data_dir: None,
                cert_file: None,
                key_file: None,
                trusted_certs_dir: None,
            },
            external_tools: ExternalToolsSettings { ytdlp_cookies_file: None },
        }
    }
}

impl BotConfig {
    /// The data directory: the configured one, or `.threebot` below the
    /// home directory.
    pub open spec fn data_dir(self, home: Option<Seq<char>>) -> Seq<char> {
        match self.paths.data_dir {
            Some(dir) => dir@,
            None => default_data_dir(home),
        }
    }

    /// The data directory. `home` is the home directory, where one is known.
    pub fn get_data_dir(&self, home: Option<&str>) -> (dir: String)
        ensures
            dir@ == self.data_dir(text_of(home)),
    {
        match &self.paths.data_dir {
            Some(dir) => dir.clone(),
            None => {
                let base = home_dir_or_here(home);
                join_path(base.as_str(), ".threebot")
            },
        }
    }

    /// The certificate file: the configured one, or `cert.pem` in the data
    /// directory.
    pub fn get_cert_path(&self, home: Option<&str>) -> (path: String)
        ensures
            path@ == match self.paths.cert_file {
                Some(file) => file@,
                None => joined_path(self.data_dir(text_of(home)), "cert.pem"@),
            },
    {
        match &self.paths.cert_file {
            Some(file) => file.clone(),
            None => {
                let dir = self.get_data_dir(home);
                join_path(dir.as_str(), "cert.pem")
            },
        }
    }

    /// The private key file: the configured one, or `key.pem` in the data
    /// directory.
    pub fn get_key_path(&self, home: Option<&str>) -> (path: String)
        ensures
            path@ == match self.paths.key_file {
                Some(file) => file@,
                None => joined_path(self.data_dir(text_of(home)), "key.pem"@),
            },
    {
        match &self.paths.key_file {
            Some(file) => file.clone(),
            None => {
                let dir = self.get_data_dir(home);
                join_path(dir.as_str(), "key.pem")
            },
        }
    }

    /// The directory of trusted certificates: the configured one, or
    /// `trusted_certificates` in the data directory.
    pub fn get_trusted_certs_dir(&self, home: Option<&str>) -> (path: String)
        ensures
            path@ == match self.paths.trusted_certs_dir {
                Some(dir) => dir@,
                None => joined_path(self.data_dir(text_of(home)), "trusted_certificates"@),
            },
    {
        match &self.paths.trusted_certs_dir {
            Some(dir) => dir.clone(),
            None => {
                let dir = self.get_data_dir(home);
                join_path(dir.as_str(), "trusted_certificates")
            },
        }
    }

    /// The place of the configuration file: `.threebot/config.yml` below the
    /// home directory.
    pub fn get_config_path(home: Option<&str>) -> (path: String)
        ensures
            path@ == joined_path(default_data_dir(text_of(home)), "config.yml"@),
    {
        let base = home_dir_or_here(home);
        let dir = join_path(base.as_str(), ".threebot");
        join_path(dir.as_str(), "config.yml")
    }

    /// Puts what was given on the command line in the place of what the
    /// file says.
    pub fn apply_cli_overrides(&mut self, verbose: Option<bool>, data_dir: Option<String>)
        ensures
            final(self).bot.verbose == match verbose {
                Some(v) => v,
                None => old(self).bot.verbose,
            },
            final(self).paths.data_dir == match data_dir {
                Some(dir) => Some(dir),
                None => old(self).paths.data_dir,
            },
            final(self).bot.username == old(self).bot.username,
            final(self).bot.password == old(self).bot.password,
            final(self).server == old(self).server,
            final(self).behavior == old(self).behavior,
            final(self).audio_effects == old(self).audio_effects,
            final(self).input_normalization == old(self).input_normalization,
            final(self).paths.cert_file == old(self).paths.cert_file,
            final(self).paths.key_file == old(self).paths.key_file,
            final(self).paths.trusted_certs_dir == old(self).paths.trusted_certs_dir,
            final(self).external_tools == old(self).external_tools,
    {
        match verbose {
            Some(v) => {
                self.bot.verbose = v;
            },
            None => {},
        }
        match data_dir {
            Some(dir) => {
                self.paths.data_dir = Some(dir);
            },
            None => {},
        }
    }
}

} // verus!
