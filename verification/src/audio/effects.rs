//! The catalogue of audio effects and the filter expression of each.

use vstd::prelude::*;
use vstd::string::StringExecFns;

use crate::error::Error;
use crate::text::{
    ascii_lower, chars_equal, decimal, join, join_strings, push_decimal, push_signed_decimal,
    signed_decimal, to_ascii_lower,
};

verus! {

/// An effect that can be applied to a sound while it is played.
#[derive(Debug, Clone, Copy, PartialEq, Eq, Structural)]
pub enum AudioEffect {
    /// Increase volume.
    Loud,
    /// Increase speed.
    Fast,
    /// Decrease speed.
    Slow,
    /// Add reverberation.
    Reverb,
    /// Add an echo.
    Echo,
    /// Raise the pitch.
    Up,
    /// Lower the pitch.
    Down,
    /// Boost the bass.
    Bass,
    /// Play backwards.
    Reverse,
    /// Cut the high frequencies.
    Muffle,
}

/// The numbers that parameterise the effects. A fractional quantity is held
/// as the decimal text that is written into a filter expression.
#[derive(Debug)]
pub struct AudioEffectSettings {
    /// Volume boost of `loud`, in dB.
    pub loud_boost_db: String,
    /// Speed multiplier of `fast`.
    pub fast_speed_multiplier: String,
    /// Speed multiplier of `slow`.
    pub slow_speed_multiplier: String,
    /// Pitch shift of `up`, in cents.
    pub pitch_up_cents: i32,
    /// Pitch shift of `down`, in cents; negative lowers the pitch.
    pub pitch_down_cents: i32,
    /// Frequency ratio of `up`: two to the power of a 1200th of the cents.
    pub pitch_up_ratio: String,
    /// Frequency ratio of `down`.
    pub pitch_down_ratio: String,
    /// Centre frequency of `bass`, in Hz.
    pub bass_boost_frequency_hz: String,
    /// Gain of `bass`, in dB.
    pub bass_boost_gain_db: String,
    /// Room size of `reverb`, in percent.
    pub reverb_room_size: u32,
    /// Damping of `reverb`, in percent.
    pub reverb_damping: u32,
    /// Delay of `echo`, in milliseconds.
    pub echo_delay_ms: u32,
    /// Feedback of `echo`, between 0 and 1.
    pub echo_feedback: String,
    /// Cutoff frequency of `muffle`, in Hz.
    pub muffle_cutoff_frequency_hz: String,
}

/// The effect that a lower-case name stands for.
pub open spec fn effect_named(name: Seq<char>) -> Option<AudioEffect> {
    if name == "loud"@ {
        Some(AudioEffect::Loud)
    } else if name == "fast"@ {
        Some(AudioEffect::Fast)
    } else if name == "slow"@ {
        Some(AudioEffect::Slow)
    } else if name == "reverb"@ {
        Some(AudioEffect::Reverb)
    } else if name == "echo"@ {
        Some(AudioEffect::Echo)
    } else if name == "up"@ {
        Some(AudioEffect::Up)
    } else if name == "down"@ {
        Some(AudioEffect::Down)
    } else if name == "bass"@ {
        Some(AudioEffect::Bass)
    } else if name == "reverse"@ {
        Some(AudioEffect::Reverse)
    } else if name == "muffle"@ {
        Some(AudioEffect::Muffle)
    } else {
        None
    }
}

/// The effect that `word` names when the case of its letters is ignored.
pub open spec fn parse_effect(word: Seq<char>) -> Option<AudioEffect> {
    effect_named(ascii_lower(word))
}

/// The effects other than reverb: those that the filter tool applies.
pub open spec fn filter_effects(effects: Seq<AudioEffect>) -> Seq<AudioEffect>
    decreases effects.len(),
{
    if effects.len() == 0 {
        Seq::empty()
    } else if effects.last().spec_requires_sox() {
        filter_effects(effects.drop_last())
    } else {
        filter_effects(effects.drop_last()).push(effects.last())
    }
}

/// Whether reverb is among `effects`.
pub open spec fn has_reverb(effects: Seq<AudioEffect>) -> bool {
    exists|i: int| 0 <= i < effects.len() && (#[trigger] effects[i]).spec_requires_sox()
}

/// The filter expressions of `effects`, one for one.
pub open spec fn filter_list(effects: Seq<AudioEffect>, config: AudioEffectSettings) -> Seq<
    Seq<char>,
> {
    Seq::new(effects.len(), |i: int| effects[i].filter(config))
}

/// The filter chain for `effects`: the expressions of those other than
/// reverb, separated by commas.
pub open spec fn filter_chain(effects: Seq<AudioEffect>, config: AudioEffectSettings) -> Seq<
    char,
> {
    join(filter_list(filter_effects(effects), config), ","@)
}

impl AudioEffect {
    /// The name by which the effect is requested.
    pub open spec fn name(self) -> Seq<char> {
        match self {
            AudioEffect::Loud => "loud"@,
            AudioEffect::Fast => "fast"@,
            AudioEffect::Slow => "slow"@,
            AudioEffect::Reverb => "reverb"@,
            AudioEffect::Echo => "echo"@,
            AudioEffect::Up => "up"@,
            AudioEffect::Down => "down"@,
            AudioEffect::Bass => "bass"@,
            AudioEffect::Reverse => "reverse"@,
            AudioEffect::Muffle => "muffle"@,
        }
    }

    /// Whether the effect needs the reverb tool rather than a filter.
    pub open spec fn spec_requires_sox(&self) -> bool {
        *self == AudioEffect::Reverb
    }

    /// The filter expression of the effect. Reverb has none.
    pub open spec fn filter(self, config: AudioEffectSettings) -> Seq<char> {
        match self {
            AudioEffect::Loud => "volume="@ + config.loud_boost_db@ + "dB"@,
            AudioEffect::Fast => "atempo="@ + config.fast_speed_multiplier@,
            AudioEffect::Slow => "atempo="@ + config.slow_speed_multiplier@,
            AudioEffect::Reverb => Seq::empty(),
            AudioEffect::Echo => "aecho=0.8:0.9:"@ + decimal(config.echo_delay_ms as nat) + ":"@
                + config.echo_feedback@,
            AudioEffect::Up => "asetrate=48000*"@ + config.pitch_up_ratio@ + ",aresample=48000"@,
            AudioEffect::Down => "asetrate=48000*"@ + config.pitch_down_ratio@
                + ",aresample=48000"@,
            AudioEffect::Bass => "equalizer=f="@ + config.bass_boost_frequency_hz@
                + ":width_type=h:width="@ + config.bass_boost_frequency_hz@ + ":g="@
                + config.bass_boost_gain_db@,
            AudioEffect::Reverse => "areverse"@,
            AudioEffect::Muffle => "lowpass=f="@ + config.muffle_cutoff_frequency_hz@,
        }
    }

    /// What the effect does, in words, with the configured numbers.
    pub open spec fn describe(self, config: AudioEffectSettings) -> Seq<char> {
        match self {
            AudioEffect::Loud => "Increase volume (+"@ + config.loud_boost_db@ + "dB)"@,
            AudioEffect::Fast => "Increase speed/tempo ("@ + config.fast_speed_multiplier@ + "x)"@,
            AudioEffect::Slow => "Decrease speed/tempo ("@ + config.slow_speed_multiplier@ + "x)"@,
            AudioEffect::Reverb => "Add reverb effect"@,
            AudioEffect::Echo => "Add echo effect ("@ + decimal(config.echo_delay_ms as nat)
                + "ms delay, "@ + config.echo_feedback@ + " feedback)"@,
            AudioEffect::Up => "Pitch up (+"@ + signed_decimal(config.pitch_up_cents as int)
                + " cents)"@,
            AudioEffect::Down => "Pitch down ("@ + signed_decimal(config.pitch_down_cents as int)
                + " cents)"@,
            AudioEffect::Bass => "Bass boost (+"@ + config.bass_boost_gain_db@ + "dB at "@
                + config.bass_boost_frequency_hz@ + "Hz)"@,
            AudioEffect::Reverse => "Play audio backwards"@,
            AudioEffect::Muffle => "Apply low-pass filter ("@ + config.muffle_cutoff_frequency_hz@
                + "Hz cutoff)"@,
        }
    }

    /// Reads an effect from its name, whatever the case of its letters.
    pub fn from_str(s: &str) -> (effect: Option<Self>)
        ensures
            effect == parse_effect(s@),
    {
        let lower = to_ascii_lower(s);
        if chars_equal(&lower, "loud") {
            Some(AudioEffect::Loud)
        } else if chars_equal(&lower, "fast") {
            Some(AudioEffect::Fast)
        } else if chars_equal(&lower, "slow") {
            Some(AudioEffect::Slow)
        } else if chars_equal(&lower, "reverb") {
            Some(AudioEffect::Reverb)
        } else if chars_equal(&lower, "echo") {
            Some(AudioEffect::Echo)
        } else if chars_equal(&lower, "up") {
            Some(AudioEffect::Up)
        } else if chars_equal(&lower, "down") {
            Some(AudioEffect::Down)
        } else if chars_equal(&lower, "bass") {
            Some(AudioEffect::Bass)
        } else if chars_equal(&lower, "reverse") {
            Some(AudioEffect::Reverse)
        } else if chars_equal(&lower, "muffle") {
            Some(AudioEffect::Muffle)
        } else {
            None
        }
    }

    /// The name of the effect, in lower case.
    pub fn as_str(&self) -> (name: &'static str)
        ensures
            name@ == self.name(),
    {
        match self {
            AudioEffect::Loud => "loud",
            AudioEffect::Fast => "fast",
            AudioEffect::Slow => "slow",
            AudioEffect::Reverb => "reverb",
            AudioEffect::Echo => "echo",
            AudioEffect::Up => "up",
            AudioEffect::Down => "down",
            AudioEffect::Bass => "bass",
            AudioEffect::Reverse => "reverse",
            AudioEffect::Muffle => "muffle",
        }
    }

    /// Describes the effect with the numbers of `config`.
    pub fn description(&self, config: &AudioEffectSettings) -> (text: String)
        ensures
            text@ == self.describe(*config),
    {
        match self {
            AudioEffect::Loud => {
                let mut t = String::from_str("Increase volume (+");
                t.append(config.loud_boost_db.as_str());
                t.append("dB)");
                t
            },
            AudioEffect::Fast => {
                let mut t = String::from_str("Increase speed/tempo (");
                t.append(config.fast_speed_multiplier.as_str());
                t.append("x)");
                t
            },
            AudioEffect::Slow => {
                let mut t = String::from_str("Decrease speed/tempo (");
                t.append(config.slow_speed_multiplier.as_str());
                t.append("x)");
                t
            },
            AudioEffect::Reverb => String::from_str("Add reverb effect"),
            AudioEffect::Echo => {
                let mut t = String::from_str("Add echo effect (");
                push_decimal(&mut t, config.echo_delay_ms as u64);
                t.append("ms delay, ");
                t.append(config.echo_feedback.as_str());
                t.append(" feedback)");
                t
            },
            AudioEffect::Up => {
                let mut t = String::from_str("Pitch up (+");
                push_signed_decimal(&mut t, config.pitch_up_cents as i64);
                t.append(" cents)");
                t
            },
            AudioEffect::Down => {
                let mut t = String::from_str("Pitch down (");
                push_signed_decimal(&mut t, config.pitch_down_cents as i64);
                t.append(" cents)");
                t
            },
            AudioEffect::Bass => {
                let mut t = String::from_str("Bass boost (+");
                t.append(config.bass_boost_gain_db.as_str());
                t.append("dB at ");
                t.append(config.bass_boost_frequency_hz.as_str());
                t.append("Hz)");
                t
            },
            AudioEffect::Reverse => String::from_str("Play audio backwards"),
            AudioEffect::Muffle => {
                let mut t = String::from_str("Apply low-pass filter (");
                t.append(config.muffle_cutoff_frequency_hz.as_str());
                t.append("Hz cutoff)");
                t
            },
        }
    }

    /// The filter expression that applies the effect. Reverb is no filter:
    /// it is never handed to the filter tool.
    pub fn to_ffmpeg_filter(&self, config: &AudioEffectSettings) -> (text: String)
        requires
            !self.spec_requires_sox(),
        ensures
            text@ == self.filter(*config),
    {
        match self {
            AudioEffect::Loud => {
                let mut t = String::from_str("volume=");
                t.append(config.loud_boost_db.as_str());
                t.append("dB");
                t
            },
            AudioEffect::Fast => {
                let mut t = String::from_str("atempo=");
                t.append(config.fast_speed_multiplier.as_str());
                t
            },
            AudioEffect::Slow => {
                let mut t = String::from_str("atempo=");
                t.append(config.slow_speed_multiplier.as_str());
                t
            },
            AudioEffect::Reverb => String::new(),
            AudioEffect::Echo => {
                let mut t = String::from_str("aecho=0.8:0.9:");
                push_decimal(&mut t, config.echo_delay_ms as u64);
                t.append(":");
                t.append(config.echo_feedback.as_str());
                t
            },
            AudioEffect::Up => {
                let mut t = String::from_str("asetrate=48000*");
                t.append(config.pitch_up_ratio.as_str());
                t.append(",aresample=48000");
                t
            },
            AudioEffect::Down => {
                let mut t = String::from_str("asetrate=48000*");
                t.append(config.pitch_down_ratio.as_str());
                t.append(",aresample=48000");
                t
            },
            AudioEffect::Bass => {
                let mut t = String::from_str("equalizer=f=");
                t.append(config.bass_boost_frequency_hz.as_str());
                t.append(":width_type=h:width=");
                t.append(config.bass_boost_frequency_hz.as_str());
                t.append(":g=");
                t.append(config.bass_boost_gain_db.as_str());
                t
            },
            AudioEffect::Reverse => String::from_str("areverse"),
            AudioEffect::Muffle => {
                let mut t = String::from_str("lowpass=f=");
                t.append(config.muffle_cutoff_frequency_hz.as_str());
                t
            },
        }
    }

    /// Whether the effect needs the reverb tool.
    #[verifier::when_used_as_spec(spec_requires_sox)]
    pub fn requires_sox(&self) -> (needed: bool)
        ensures
            needed == self.spec_requires_sox(),
    {
        match self {
            AudioEffect::Reverb => true,
            _ => false,
        }
    }
}

/// The words of `words` that name no effect, in order.
pub open spec fn unknown_words(words: Seq<Seq<char>>) -> Seq<Seq<char>>
    decreases words.len(),
{
    if words.len() == 0 {
        Seq::empty()
    } else if parse_effect(words.last()) is None {
        unknown_words(words.drop_last()).push(words.last())
    } else {
        unknown_words(words.drop_last())
    }
}

/// The message that rejects `unknown` and lists the names that are valid.
pub open spec fn unknown_effects_message(unknown: Seq<Seq<char>>) -> Seq<char> {
    "Unknown effects: "@ + join(unknown, ", "@)
        + ". Available effects: loud, fast, slow, reverb, echo, up, down, bass, reverse, muffle"@
}

/// Every word names an effect exactly when none is unknown.
pub proof fn lemma_unknown_words_empty(words: Seq<Seq<char>>)
    ensures
        unknown_words(words).len() == 0 <==> forall|i: int|
            0 <= i < words.len() ==> parse_effect(#[trigger] words[i]) is Some,
    decreases words.len(),
{
    if words.len() > 0 {
        lemma_unknown_words_empty(words.drop_last());
        let rest = words.drop_last();
        if unknown_words(words).len() == 0 {
            assert forall|i: int| 0 <= i < words.len() implies parse_effect(
                #[trigger] words[i],
            ) is Some by {
                if i < rest.len() {
                    assert(words[i] == rest[i]);
                }
            }
        }
        if forall|i: int| 0 <= i < words.len() ==> parse_effect(#[trigger] words[i]) is Some {
            assert forall|i: int| 0 <= i < rest.len() implies parse_effect(
                #[trigger] rest[i],
            ) is Some by {
                assert(rest[i] == words[i]);
            }
        }
    }
}

/// Reads a list of effect names. Either every name is known, and the
/// effects come back in the order given, or the unknown names are reported
/// together with the names that are valid.
pub fn parse_effects(effect_strings: &[String]) -> (parsed: Result<Vec<AudioEffect>, Error>)
    ensures
        parsed is Ok <==> forall|i: int|
            0 <= i < effect_strings@.len() ==> parse_effect(#[trigger] effect_strings@[i]@) is Some,
        parsed matches Ok(effects) ==> {
            &&& effects@.len() == effect_strings@.len()
            &&& forall|i: int|
                0 <= i < effects@.len() ==> Some(#[trigger] effects@[i]) == parse_effect(
                    effect_strings@[i]@,
                )
        },
        parsed matches Err(e) ==> {
            &&& e is InvalidInput
            &&& e.message() == unknown_effects_message(
                unknown_words(effect_strings.deep_view()),
            )
        },
{
    let mut effects: Vec<AudioEffect> = Vec::new();
    let mut unknown: Vec<String> = Vec::new();
    let ghost words = effect_strings.deep_view();
    let mut i: usize = 0;
    while i < effect_strings.len()
        invariant
            i <= effect_strings@.len(),
            words == effect_strings.deep_view(),
            unknown.deep_view() == unknown_words(words.take(i as int)),
            unknown@.len() == 0 ==> effects@.len() == i,
            unknown@.len() == 0 ==> forall|k: int|
                0 <= k < i ==> Some(#[trigger] effects@[k]) == parse_effect(effect_strings@[k]@),
        decreases effect_strings@.len() - i,
    {
        let ghost before = unknown.deep_view();
        proof {
            assert(words.take(i + 1).drop_last() =~= words.take(i as int));
            assert(words.take(i + 1).last() == effect_strings@[i as int]@);
        }
        match AudioEffect::from_str(effect_strings[i].as_str()) {
            Some(effect) => {
                effects.push(effect);
            },
            None => {
                unknown.push(effect_strings[i].clone());
                proof {
                    assert(unknown.deep_view() =~= before.push(effect_strings@[i as int]@));
                }
            },
        }
        i += 1;
    }
    proof {
        assert(words.take(effect_strings@.len() as int) =~= words);
        lemma_unknown_words_empty(words);
        assert forall|k: int| 0 <= k < words.len() implies words[k] == effect_strings@[k]@ by {}
    }
    if unknown.len() > 0 {
        let mut message = String::from_str("Unknown effects: ");
        let listed = join_strings(&unknown, ", ");
        message.append(listed.as_str());
        message.append(
            ". Available effects: loud, fast, slow, reverb, echo, up, down, bass, reverse, muffle",
        );
        return Err(Error::InvalidInput(message));
    }
    proof {
        assert forall|k: int| 0 <= k < effect_strings@.len() implies parse_effect(
            #[trigger] effect_strings@[k]@,
        ) is Some by {
            assert(Some(effects@[k]) == parse_effect(effect_strings@[k]@));
        }
    }
    Ok(effects)
}


impl Clone for AudioEffectSettings {
    fn clone(&self) -> (copy: Self)
        ensures
            copy == *self,
    {
        AudioEffectSettings {
            loud_boost_db: self.loud_boost_db.clone(),
            fast_speed_multiplier: self.fast_speed_multiplier.clone(),
            slow_speed_multiplier: self.slow_speed_multiplier.clone(),
            pitch_up_cents: self.pitch_up_cents,
            pitch_down_cents: self.pitch_down_cents,
            pitch_up_ratio: self.pitch_up_ratio.clone(),
            pitch_down_ratio: self.pitch_down_ratio.clone(),
            bass_boost_frequency_hz: self.bass_boost_frequency_hz.clone(),
            bass_boost_gain_db: self.bass_boost_gain_db.clone(),
            reverb_room_size: self.reverb_room_size,
            reverb_damping: self.reverb_damping,
            echo_delay_ms: self.echo_delay_ms,
            echo_feedback: self.echo_feedback.clone(),
            muffle_cutoff_frequency_hz: self.muffle_cutoff_frequency_hz.clone(),
        }
    }
}

/// Whether reverb is among `effects`.
pub fn includes_reverb(effects: &[AudioEffect]) -> (found: bool)
    ensures
        found == has_reverb(effects@),
{
    let mut i: usize = 0;
    while i < effects.len()
        invariant
            i <= effects@.len(),
            forall|k: int| 0 <= k < i ==> !(#[trigger] effects@[k]).spec_requires_sox(),
        decreases effects@.len() - i,
    {
        if effects[i].requires_sox() {
            return true;
        }
        i += 1;
    }
    false
}

/// The effects that the filter tool applies: all but reverb, in order.
pub fn ffmpeg_effects(effects: &[AudioEffect]) -> (kept: Vec<AudioEffect>)
    ensures
        kept@ == filter_effects(effects@),
{
    let mut kept: Vec<AudioEffect> = Vec::new();
    let mut i: usize = 0;
    while i < effects.len()
        invariant
            i <= effects@.len(),
            kept@ == filter_effects(effects@.take(i as int)),
        decreases effects@.len() - i,
    {
        proof {
            assert(effects@.take(i + 1).drop_last() =~= effects@.take(i as int));
            assert(effects@.take(i + 1).last() == effects@[i as int]);
        }
        if !effects[i].requires_sox() {
            kept.push(effects[i]);
        }
        i += 1;
    }
    proof {
        assert(effects@.take(effects@.len() as int) =~= effects@);
    }
    kept
}

/// No effect of the kept list is reverb.
pub proof fn lemma_filter_effects_no_reverb(effects: Seq<AudioEffect>)
    ensures
        forall|i: int|
            0 <= i < filter_effects(effects).len() ==> !(#[trigger] filter_effects(
                effects,
            )[i]).spec_requires_sox(),
    decreases effects.len(),
{
    if effects.len() > 0 {
        let rest = filter_effects(effects.drop_last());
        lemma_filter_effects_no_reverb(effects.drop_last());
        assert forall|i: int| 0 <= i < filter_effects(effects).len() implies !(
        #[trigger] filter_effects(effects)[i]).spec_requires_sox() by {
            if i < rest.len() {
                assert(filter_effects(effects)[i] == rest[i]);
            }
        }
    }
}

/// The filter chain of `effects`: the filter expression of each effect
/// other than reverb, in order, separated by commas.
pub fn build_filter_chain(effects: &[AudioEffect], config: &AudioEffectSettings) -> (chain: String)
    ensures
        chain@ == filter_chain(effects@, *config),
{
    let kept = ffmpeg_effects(effects);
    let mut filters: Vec<String> = Vec::new();
    let mut i: usize = 0;
    proof {
        lemma_filter_effects_no_reverb(effects@);
    }
    while i < kept.len()
        invariant
            i <= kept@.len(),
            forall|k: int| 0 <= k < kept@.len() ==> !(#[trigger] kept@[k]).spec_requires_sox(),
            filters.deep_view() == filter_list(kept@, *config).take(i as int),
        decreases kept@.len() - i,
    {
        let ghost before = filters.deep_view();
        let f = kept[i].to_ffmpeg_filter(config);
        filters.push(f);
        proof {
            assert(filters.deep_view() =~= before.push(kept@[i as int].filter(*config)));
            assert(filters.deep_view() =~= filter_list(kept@, *config).take(i + 1));
        }
        i += 1;
    }
    proof {
        assert(filter_list(kept@, *config).take(kept@.len() as int) =~= filter_list(
            kept@,
            *config,
        ));
    }
    join_strings(&filters, ",")
}


/// Every effect but reverb has a filter expression, whatever the settings:
/// the mapping leaves none out and asks for nothing but the effect and the
/// settings.
pub proof fn lemma_filter_total(effect: AudioEffect, config: AudioEffectSettings)
    requires
        !effect.spec_requires_sox(),
    ensures
        effect.filter(config).len() > 0,
{
    reveal_strlit("volume=");
    reveal_strlit("atempo=");
    reveal_strlit("aecho=0.8:0.9:");
    reveal_strlit("asetrate=48000*");
    reveal_strlit("equalizer=f=");
    reveal_strlit("areverse");
    reveal_strlit("lowpass=f=");
}


} // verus!
