//! The `sound` command.

use vstd::prelude::*;

use crate::audio::effects::{effect_named, AudioEffect};
use crate::sounds::is_sound_code;
use crate::text::{chars_equal, chars_of, join, join_strings, push_range};
use vstd::string::StringExecFns;

verus! {

/// `arg` without a leading `+`.
pub open spec fn effect_word(arg: Seq<char>) -> Seq<char> {
    if arg.len() > 0 && arg[0] == '+' {
        arg.skip(1)
    } else {
        arg
    }
}

/// Whether `arg` asks for an effect: the lower-case name of one, with or
/// without a `+` in front.
pub open spec fn is_effect_word(arg: Seq<char>) -> bool {
    effect_named(effect_word(arg)) is Some
}

/// Plays and manages sounds.
#[derive(Debug, Default, Clone, Copy)]
pub struct SoundCommand;

impl SoundCommand {
    /// What the command is for.
    pub open spec fn describe() -> Seq<char> {
        "Manage and play sound files - play, list, get info, pull from URLs, and scan for orphaned files"@
    }

    /// Whether `arg` asks for an effect: the lower-case name of one, with
    /// or without a `+` in front.
    pub fn is_audio_effect(&self, arg: &str) -> (yes: bool)
        ensures
            yes == is_effect_word(arg@),
    {
        word_effect(arg).is_some()
    }

    /// Adds random modifiers to `effects`: one round for each of `hashes`,
    /// each round with the given chance in millionths. Nothing is added
    /// unless random modifiers are enabled.
    pub fn apply_random_modifiers(
        &self,
        effects: Vec<AudioEffect>,
        enabled: bool,
        chance: u32,
        hashes: &[u64],
    ) -> (modified: Vec<AudioEffect>)
        ensures
            modified@ == if enabled {
                with_modifiers(effects@, hashes@, chance)
            } else {
                effects@
            },
    {
        let mut modified = effects;
        if !enabled {
            return modified;
        }
        let mut round: usize = 0;
        proof {
            assert(hashes@.take(0) =~= Seq::<u64>::empty());
        }
        while round < hashes.len()
            invariant
                round <= hashes@.len(),
                modified@ == with_modifiers(effects@, hashes@.take(round as int), chance),
            decreases hashes@.len() - round,
        {
            proof {
                assert(hashes@.take(round + 1).drop_last() =~= hashes@.take(round as int));
                assert(hashes@.take(round + 1).last() == hashes@[round as int]);
            }
            apply_random_modifier(&mut modified, hashes[round], chance);
            round += 1;
        }
        proof {
            assert(hashes@.take(hashes@.len() as int) =~= hashes@);
        }
        modified
    }

    /// Reads the arguments of a play request: the first argument that asks
    /// for no effect names the sound; every argument that asks for an effect
    /// adds it.
    pub fn play_request(&self, args: &[String]) -> (request: PlayRequest)
        ensures
            request.effects@ == play_effects(args.deep_view()),
            match request.target {
                Some(code) => play_target(args.deep_view()) == Some(code@),
                None => play_target(args.deep_view()) is None,
            },
    {
        let ghost all = args.deep_view();
        let mut target: Option<String> = None;
        let mut effects: Vec<AudioEffect> = Vec::new();
        let mut i: usize = 0;
        proof {
            assert(all.take(0) =~= Seq::<Seq<char>>::empty());
        }
        while i < args.len()
            invariant
                i <= args@.len(),
                all == args.deep_view(),
                effects@ == play_effects(all.take(i as int)),
                match target {
                    Some(code) => play_target(all.take(i as int)) == Some(code@),
                    None => play_target(all.take(i as int)) is None,
                },
            decreases args@.len() - i,
        {
            proof {
                assert(all.take(i + 1).drop_last() =~= all.take(i as int));
                assert(all.take(i + 1).last() == args@[i as int]@);
            }
            match word_effect(args[i].as_str()) {
                Some(effect) => {
                    effects.push(effect);
                },
                None => {
                    if target.is_none() {
                        target = Some(args[i].clone());
                    }
                },
            }
            i += 1;
        }
        proof {
            assert(all.take(args@.len() as int) =~= all);
        }
        PlayRequest { target, effects }
    }

    /// What the command is for, in a line.
    pub fn description(&self) -> (text: &'static str)
        ensures
            text@ == Self::describe(),
    {
        "Manage and play sound files - play, list, get info, pull from URLs, and scan for orphaned files"
    }
}

/// Every effect, in the order of the catalogue.
pub open spec fn catalogue() -> Seq<AudioEffect> {
    seq![
        AudioEffect::Loud,
        AudioEffect::Fast,
        AudioEffect::Slow,
        AudioEffect::Reverb,
        AudioEffect::Echo,
        AudioEffect::Up,
        AudioEffect::Down,
        AudioEffect::Bass,
        AudioEffect::Reverse,
        AudioEffect::Muffle,
    ]
}

/// The effects of `pool` that are not among `effects`, in order.
pub open spec fn missing(pool: Seq<AudioEffect>, effects: Seq<AudioEffect>) -> Seq<AudioEffect>
    decreases pool.len(),
{
    if pool.len() == 0 {
        Seq::empty()
    } else if effects.contains(pool.last()) {
        missing(pool.drop_last(), effects)
    } else {
        missing(pool.drop_last(), effects).push(pool.last())
    }
}

/// Whether a round with the number `hash` adds a modifier, where the
/// chance of it is `chance` millionths: the number, taken as a fraction of
/// the largest, is below the chance.
pub open spec fn fires(hash: u64, chance: u32) -> bool {
    hash as int * 1_000_000 < chance as int * u64::MAX as int
}

/// The effects after one round: where the round fires and an effect is
/// still missing, the number picks one of the missing effects.
pub open spec fn with_modifier(effects: Seq<AudioEffect>, hash: u64, chance: u32) -> Seq<
    AudioEffect,
> {
    let available = missing(catalogue(), effects);
    if fires(hash, chance) && available.len() > 0 {
        effects.push(available[hash as int % available.len() as int])
    } else {
        effects
    }
}

/// The effects after one round for each of `hashes`.
pub open spec fn with_modifiers(effects: Seq<AudioEffect>, hashes: Seq<u64>, chance: u32) -> Seq<
    AudioEffect,
>
    decreases hashes.len(),
{
    if hashes.len() == 0 {
        effects
    } else {
        with_modifier(with_modifiers(effects, hashes.drop_last(), chance), hashes.last(), chance)
    }
}

/// The letters of the code that `hash` gives: each of its four low bytes,
/// taken with all that lies above it, picks a capital.
pub open spec fn code_letters(hash: u64) -> Seq<char> {
    seq![
        code_letter(hash as int),
        code_letter(hash as int / 0x100),
        code_letter(hash as int / 0x1_0000),
        code_letter(hash as int / 0x100_0000),
    ]
}

/// The capital that `n` picks.
pub open spec fn code_letter(n: int) -> char {
    (65 + n % 26) as char
}

/// The sound that a play request names: the first argument that asks for
/// no effect.
pub open spec fn play_target(args: Seq<Seq<char>>) -> Option<Seq<char>>
    decreases args.len(),
{
    if args.len() == 0 {
        None
    } else {
        match play_target(args.drop_last()) {
            Some(target) => Some(target),
            None => if is_effect_word(args.last()) {
                None
            } else {
                Some(args.last())
            },
        }
    }
}

/// The effects that a play request asks for, in order.
pub open spec fn play_effects(args: Seq<Seq<char>>) -> Seq<AudioEffect>
    decreases args.len(),
{
    if args.len() == 0 {
        Seq::empty()
    } else {
        match effect_named(effect_word(args.last())) {
            Some(effect) => play_effects(args.drop_last()).push(effect),
            None => play_effects(args.drop_last()),
        }
    }
}

/// What a play request asks for.
#[derive(Debug)]
pub struct PlayRequest {
    /// The code of the sound; none asks for a random sound.
    pub target: Option<String>,
    pub effects: Vec<AudioEffect>,
}

fn word_effect(arg: &str) -> (effect: Option<AudioEffect>)
    ensures
        effect == effect_named(effect_word(arg@)),
{
    let chars = chars_of(arg);
    let mut word: Vec<char> = Vec::new();
    let n = chars.len();
    if n > 0 && chars[0] == '+' {
        push_range(&mut word, &chars, 1, n);
        proof {
            assert(word@ =~= arg@.skip(1));
        }
    } else {
        push_range(&mut word, &chars, 0, n);
        proof {
            assert(word@ =~= arg@);
        }
    }
    if chars_equal(&word, "loud") {
        Some(AudioEffect::Loud)
    } else if chars_equal(&word, "fast") {
        Some(AudioEffect::Fast)
    } else if chars_equal(&word, "slow") {
        Some(AudioEffect::Slow)
    } else if chars_equal(&word, "reverb") {
        Some(AudioEffect::Reverb)
    } else if chars_equal(&word, "echo") {
        Some(AudioEffect::Echo)
    } else if chars_equal(&word, "up") {
        Some(AudioEffect::Up)
    } else if chars_equal(&word, "down") {
        Some(AudioEffect::Down)
    } else if chars_equal(&word, "bass") {
        Some(AudioEffect::Bass)
    } else if chars_equal(&word, "reverse") {
        Some(AudioEffect::Reverse)
    } else if chars_equal(&word, "muffle") {
        Some(AudioEffect::Muffle)
    } else {
        None
    }
}

fn holds(effects: &Vec<AudioEffect>, effect: AudioEffect) -> (found: bool)
    ensures
        found == effects@.contains(effect),
{
    let mut i: usize = 0;
    while i < effects.len()
        invariant
            i <= effects@.len(),
            forall|k: int| 0 <= k < i ==> effects@[k] != effect,
        decreases effects@.len() - i,
    {
        if effects[i] == effect {
            return true;
        }
        i += 1;
    }
    false
}

fn whole_catalogue() -> (all: Vec<AudioEffect>)
    ensures
        all@ == catalogue(),
{
    let mut all: Vec<AudioEffect> = Vec::new();
    all.push(AudioEffect::Loud);
    all.push(AudioEffect::Fast);
    all.push(AudioEffect::Slow);
    all.push(AudioEffect::Reverb);
    all.push(AudioEffect::Echo);
    all.push(AudioEffect::Up);
    all.push(AudioEffect::Down);
    all.push(AudioEffect::Bass);
    all.push(AudioEffect::Reverse);
    all.push(AudioEffect::Muffle);
    proof {
        assert(all@ =~= catalogue());
    }
    all
}

/// The effects that could still be added to `effects`.
pub fn available_effects(effects: &Vec<AudioEffect>) -> (available: Vec<AudioEffect>)
    ensures
        available@ == missing(catalogue(), effects@),
{
    let all = whole_catalogue();
    let mut available: Vec<AudioEffect> = Vec::new();
    let mut i: usize = 0;
    proof {
        assert(all@.take(0) =~= Seq::<AudioEffect>::empty());
    }
    while i < all.len()
        invariant
            i <= all@.len(),
            available@ == missing(all@.take(i as int), effects@),
        decreases all@.len() - i,
    {
        proof {
            assert(all@.take(i + 1).drop_last() =~= all@.take(i as int));
            assert(all@.take(i + 1).last() == all@[i as int]);
        }
        if !holds(effects, all[i]) {
            available.push(all[i]);
        }
        i += 1;
    }
    proof {
        assert(all@.take(all@.len() as int) =~= all@);
    }
    available
}

/// One round of random modifiers: where the round fires and an effect is
/// still missing, `hash` picks one of the missing effects.
pub fn apply_random_modifier(effects: &mut Vec<AudioEffect>, hash: u64, chance: u32)
    ensures
        final(effects)@ == with_modifier(old(effects)@, hash, chance),
{
    let fired = (hash as u128) * 1_000_000 < (chance as u128) * (u64::MAX as u128);
    proof {
        assert(hash as int * 1_000_000 <= 0xffff_ffff_ffff_ffff * 1_000_000) by (nonlinear_arith)
            requires
                0 <= hash as int <= 0xffff_ffff_ffff_ffff,
        ;
        assert(chance as int * 0xffff_ffff_ffff_ffff <= 0xffff_ffff * 0xffff_ffff_ffff_ffff)
            by (nonlinear_arith)
            requires
                0 <= chance as int <= 0xffff_ffff,
        ;
    }
    if fired {
        let available = available_effects(effects);
        if available.len() > 0 {
            let index = (hash % (available.len() as u64)) as usize;
            effects.push(available[index]);
        }
    }
}

fn letter(n: u64) -> (c: char)
    ensures
        c == code_letter(n as int),
{
    (65 + (n % 26) as u8) as char
}

/// The sound code that `hash` gives: four capitals.
pub fn code_from_hash(hash: u64) -> (code: String)
    ensures
        code@ == code_letters(hash),
        is_sound_code(code@),
{
    let mut code = String::new();
    code.push(letter(hash));
    code.push(letter(hash / 0x100));
    code.push(letter(hash / 0x1_0000));
    code.push(letter(hash / 0x100_0000));
    proof {
        assert(code@ =~= code_letters(hash));
    }
    code
}


/// The names of `effects`, one for one.
pub open spec fn effect_names(effects: Seq<AudioEffect>) -> Seq<Seq<char>> {
    Seq::new(effects.len(), |i: int| effects[i].name())
}

/// What is said when a sound starts to play: which sound, whether it was
/// picked at random, and with which effects, where there are any. Effects
/// that nobody asked for are called random.
pub open spec fn playing_message(
    code: Seq<char>,
    random_sound: bool,
    effects: Seq<AudioEffect>,
    asked: bool,
) -> Seq<char> {
    let start = if random_sound {
        "🎲 Playing random sound '"@
    } else {
        "🔊 Playing sound '"@
    };
    if effects.len() == 0 {
        start + code + "'"@
    } else {
        start + code + "' with "@ + (if asked {
            Seq::empty()
        } else {
            "🎲 random "@
        }) + "effects: "@ + join(effect_names(effects), ", "@)
    }
}

/// Says that a sound starts to play. `asked` tells whether the effects
/// were asked for; effects that were not are called random.
pub fn play_message(code: &str, random_sound: bool, effects: &Vec<AudioEffect>, asked: bool) -> (text:
    String)
    ensures
        text@ == playing_message(code@, random_sound, effects@, asked),
{
    let mut text = if random_sound {
        String::from_str("🎲 Playing random sound '")
    } else {
        String::from_str("🔊 Playing sound '")
    };
    text.append(code);
    if effects.len() == 0 {
        text.append("'");
        return text;
    }
    text.append("' with ");
    let ghost head = text@;
    if !asked {
        text.append("🎲 random ");
    }
    proof {
        assert(text@ =~= head + (if asked {
            Seq::<char>::empty()
        } else {
            "🎲 random "@
        }));
    }
    text.append("effects: ");
    let mut names: Vec<String> = Vec::new();
    let mut i: usize = 0;
    while i < effects.len()
        invariant
            i <= effects@.len(),
            names.deep_view() == effect_names(effects@).take(i as int),
        decreases effects@.len() - i,
    {
        let ghost before = names.deep_view();
        names.push(String::from_str(effects[i].as_str()));
        proof {
            assert(names.deep_view() =~= before.push(effects@[i as int].name()));
            assert(names.deep_view() =~= effect_names(effects@).take(i + 1));
        }
        i += 1;
    }
    proof {
        assert(effect_names(effects@).take(effects@.len() as int) =~= effect_names(effects@));
    }
    let listed = join_strings(&names, ", ");
    text.append(listed.as_str());
    text
}


} // verus!
