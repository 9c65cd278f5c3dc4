use threebot::audio::effects::{
    build_filter_chain, ffmpeg_effects, includes_reverb, parse_effects, AudioEffect,
    AudioEffectSettings,
};
use threebot::audio::pipeline::{AudioEffectsProcessor, PipelineBuilder, StageInput, StageTool};
use threebot::error::Error;

fn settings() -> AudioEffectSettings {
    AudioEffectSettings {
        loud_boost_db: "6".to_string(),
        fast_speed_multiplier: "1.5".to_string(),
        slow_speed_multiplier: "0.75".to_string(),
        pitch_up_cents: 200,
        pitch_down_cents: -200,
        pitch_up_ratio: "1.122462".to_string(),
        pitch_down_ratio: "0.890899".to_string(),
        bass_boost_frequency_hz: "50".to_string(),
        bass_boost_gain_db: "25".to_string(),
        reverb_room_size: 50,
        reverb_damping: 50,
        echo_delay_ms: 300,
        echo_feedback: "0.3".to_string(),
        muffle_cutoff_frequency_hz: "1000".to_string(),
    }
}

fn strings(words: &[&str]) -> Vec<String> {
    words.iter().map(|w| w.to_string()).collect()
}

#[test]
fn test_effect_parsing() {
    assert_eq!(AudioEffect::from_str("loud"), Some(AudioEffect::Loud));
    assert_eq!(AudioEffect::from_str("FAST"), Some(AudioEffect::Fast));
    assert_eq!(AudioEffect::from_str("Reverb"), Some(AudioEffect::Reverb));
    assert_eq!(AudioEffect::from_str("bass"), Some(AudioEffect::Bass));
    assert_eq!(AudioEffect::from_str("BASS"), Some(AudioEffect::Bass));
    assert_eq!(AudioEffect::from_str("invalid"), None);
}

#[test]
fn test_parse_effects() {
    let input = vec![
        "loud".to_string(),
        "fast".to_string(),
        "reverb".to_string(),
        "bass".to_string(),
    ];
    let effects = parse_effects(&input).unwrap();
    assert_eq!(
        effects,
        vec![
            AudioEffect::Loud,
            AudioEffect::Fast,
            AudioEffect::Reverb,
            AudioEffect::Bass
        ]
    );

    let invalid = vec!["loud".to_string(), "invalid".to_string()];
    assert!(parse_effects(&invalid).is_err());
}

#[test]
fn test_reverb_requires_sox() {
    assert!(AudioEffect::Reverb.requires_sox());
    assert!(!AudioEffect::Loud.requires_sox());
    assert!(!AudioEffect::Fast.requires_sox());
    assert!(!AudioEffect::Echo.requires_sox());
    assert!(!AudioEffect::Bass.requires_sox());
}

#[test]
fn test_sox_effect_separation() {
    let effects = vec![AudioEffect::Loud, AudioEffect::Reverb, AudioEffect::Fast];
    let has_reverb = includes_reverb(&effects);
    let ffmpeg_effects = ffmpeg_effects(&effects);

    assert!(has_reverb);
    assert_eq!(ffmpeg_effects.len(), 2);
    assert_eq!(ffmpeg_effects[0], AudioEffect::Loud);
    assert_eq!(ffmpeg_effects[1], AudioEffect::Fast);
}

#[test]
fn test_pipeline_selection() {
    let _processor = AudioEffectsProcessor::new(settings()).unwrap();

    let no_effects: Vec<AudioEffect> = vec![];
    assert!(!includes_reverb(&no_effects));

    let ffmpeg_only = vec![
        AudioEffect::Loud,
        AudioEffect::Fast,
        AudioEffect::Echo,
        AudioEffect::Bass,
    ];
    assert!(!includes_reverb(&ffmpeg_only));

    let mixed_effects = vec![AudioEffect::Loud, AudioEffect::Reverb, AudioEffect::Fast];
    assert!(includes_reverb(&mixed_effects));
    assert_eq!(ffmpeg_effects(&mixed_effects).len(), 2);

    let reverb_only = vec![AudioEffect::Reverb];
    assert!(includes_reverb(&reverb_only));
    assert!(ffmpeg_effects(&reverb_only).is_empty());
}

#[test]
fn test_ffmpeg_filter_generation() {
    let config = settings();

    assert_eq!(AudioEffect::Loud.to_ffmpeg_filter(&config), "volume=6dB");
    assert_eq!(AudioEffect::Fast.to_ffmpeg_filter(&config), "atempo=1.5");
    assert_eq!(AudioEffect::Slow.to_ffmpeg_filter(&config), "atempo=0.75");
    assert_eq!(
        AudioEffect::Echo.to_ffmpeg_filter(&config),
        "aecho=0.8:0.9:300:0.3"
    );
    assert_eq!(
        AudioEffect::Up.to_ffmpeg_filter(&config),
        "asetrate=48000*1.122462,aresample=48000"
    );
    assert_eq!(
        AudioEffect::Down.to_ffmpeg_filter(&config),
        "asetrate=48000*0.890899,aresample=48000"
    );
    assert_eq!(
        AudioEffect::Bass.to_ffmpeg_filter(&config),
        "equalizer=f=50:width_type=h:width=50:g=25"
    );

    let effects = vec![AudioEffect::Loud, AudioEffect::Fast];
    let filter_chain = build_filter_chain(&effects, &config);
    assert_eq!(filter_chain, "volume=6dB,atempo=1.5");
}

#[test]
fn every_name_parses_to_its_effect() {
    let all = [
        AudioEffect::Loud,
        AudioEffect::Fast,
        AudioEffect::Slow,
        AudioEffect::Reverb,
        AudioEffect::Echo,
        AudioEffect::Up,
        AudioEffect::Down,
        AudioEffect::Bass,
        AudioEffect::Reverse,
        AudioEffect::Muffle,
    ];
    for effect in all {
        assert_eq!(AudioEffect::from_str(effect.as_str()), Some(effect));
        assert_eq!(
            AudioEffect::from_str(&effect.as_str().to_uppercase()),
            Some(effect)
        );
    }
    assert_eq!(AudioEffect::from_str(""), None);
    assert_eq!(AudioEffect::from_str("loud "), None);
    assert_eq!(AudioEffect::from_str("phone"), None);
}

#[test]
fn more_filters_and_descriptions() {
    let config = settings();
    assert_eq!(AudioEffect::Reverse.to_ffmpeg_filter(&config), "areverse");
    assert_eq!(AudioEffect::Muffle.to_ffmpeg_filter(&config), "lowpass=f=1000");
    assert_eq!(AudioEffect::Loud.description(&config), "Increase volume (+6dB)");
    assert_eq!(AudioEffect::Fast.description(&config), "Increase speed/tempo (1.5x)");
    assert_eq!(AudioEffect::Slow.description(&config), "Decrease speed/tempo (0.75x)");
    assert_eq!(AudioEffect::Reverb.description(&config), "Add reverb effect");
    assert_eq!(
        AudioEffect::Echo.description(&config),
        "Add echo effect (300ms delay, 0.3 feedback)"
    );
    assert_eq!(AudioEffect::Up.description(&config), "Pitch up (+200 cents)");
    assert_eq!(AudioEffect::Down.description(&config), "Pitch down (-200 cents)");
    assert_eq!(AudioEffect::Bass.description(&config), "Bass boost (+25dB at 50Hz)");
}

#[test]
fn unknown_effects_are_reported_with_the_valid_names() {
    let words = strings(&["loud", "wobble", "FAST", "zap"]);
    match parse_effects(&words) {
        Err(Error::InvalidInput(message)) => assert_eq!(
            message,
            "Unknown effects: wobble, zap. Available effects: loud, fast, slow, reverb, echo, up, down, bass, reverse, muffle"
        ),
        other => panic!("unexpected: {:?}", other),
    }
    assert_eq!(parse_effects(&[]).unwrap(), vec![]);
}

#[test]
fn no_effects_plan_one_decode_stage() {
    let processor = AudioEffectsProcessor::new(settings()).unwrap();
    let plan = processor
        .apply_effects_streaming("clip.mp3", &[], "anull")
        .unwrap();
    assert_eq!(plan.len(), 1);
    assert_eq!(plan[0].tool, StageTool::Ffmpeg);
    assert_eq!(plan[0].stdin, StageInput::Null);
    assert_eq!(
        plan[0].args,
        strings(&[
            "-i", "clip.mp3", "-acodec", "pcm_s16le", "-ar", "48000", "-ac", "2", "-f", "s16le",
            "-", "-y"
        ])
    );
}

#[test]
fn filters_alone_plan_one_stage_with_the_chain() {
    let processor = AudioEffectsProcessor::new(settings()).unwrap();
    let plan = processor
        .apply_effects_streaming(
            "clip.mp3",
            &[AudioEffect::Loud, AudioEffect::Echo],
            "anull",
        )
        .unwrap();
    assert_eq!(plan.len(), 1);
    assert_eq!(
        plan[0].args,
        strings(&[
            "-i",
            "clip.mp3",
            "-af",
            "volume=6dB,aecho=0.8:0.9:300:0.3",
            "-acodec",
            "pcm_s16le",
            "-ar",
            "48000",
            "-ac",
            "2",
            "-f",
            "s16le",
            "-",
            "-y"
        ])
    );
}

#[test]
fn reverb_alone_plans_two_stages() {
    let processor = AudioEffectsProcessor::new(settings()).unwrap();
    let plan = processor
        .apply_effects_streaming("clip.mp3", &[AudioEffect::Reverb], "volume=2dB")
        .unwrap();
    assert_eq!(plan.len(), 2);
    assert_eq!(plan[0].tool, StageTool::Ffmpeg);
    assert_eq!(plan[0].stdin, StageInput::Null);
    assert_eq!(
        plan[0].args,
        strings(&[
            "-i",
            "clip.mp3",
            "-af",
            "volume=2dB",
            "-acodec",
            "pcm_s16le",
            "-ar",
            "48000",
            "-ac",
            "2",
            "-f",
            "s16le",
            "-",
            "-y"
        ])
    );
    assert_eq!(plan[1].tool, StageTool::Sox);
    assert_eq!(plan[1].stdin, StageInput::Piped);
    assert_eq!(
        plan[1].args,
        strings(&[
            "-t",
            "raw",
            "-r",
            "48000",
            "-e",
            "signed-integer",
            "-b",
            "16",
            "-c",
            "2",
            "-",
            "-t",
            "raw",
            "-r",
            "48000",
            "-e",
            "signed-integer",
            "-b",
            "16",
            "-c",
            "2",
            "-",
            "gain",
            "-3",
            "pad",
            "0",
            "4",
            "reverb",
            "50",
            "50",
            "50",
            "50",
            "200"
        ])
    );
}

#[test]
fn reverb_and_loud_plan_three_stages() {
    let processor = AudioEffectsProcessor::new(settings()).unwrap();
    let effects = parse_effects(&strings(&["reverb", "loud"])).unwrap();
    let plan = processor
        .apply_effects_streaming("clip.mp3", &effects, "anull")
        .unwrap();
    assert_eq!(plan.len(), 3);
    assert_eq!(plan[0].tool, StageTool::Ffmpeg);
    assert_eq!(plan[0].stdin, StageInput::Null);
    assert_eq!(plan[0].args[2], "-af");
    assert_eq!(plan[0].args[3], "anull");
    assert_eq!(plan[1].tool, StageTool::Sox);
    assert_eq!(plan[1].stdin, StageInput::Piped);
    assert_eq!(plan[2].tool, StageTool::Ffmpeg);
    assert_eq!(plan[2].stdin, StageInput::Piped);
    assert_eq!(
        plan[2].args,
        strings(&[
            "-f",
            "s16le",
            "-ar",
            "48000",
            "-ac",
            "2",
            "-i",
            "pipe:0",
            "-af",
            "volume=6dB",
            "-acodec",
            "pcm_s16le",
            "-ar",
            "48000",
            "-ac",
            "2",
            "-f",
            "s16le",
            "-",
            "-y"
        ])
    );
    for stage in &plan {
        if stage.tool == StageTool::Ffmpeg {
            assert!(stage.args.iter().all(|a| !a.contains("reverb")));
        }
    }
}

#[test]
fn an_empty_pipeline_is_refused() {
    let builder = PipelineBuilder::new(settings());
    match builder.execute_streaming() {
        Err(Error::InvalidInput(message)) => {
            assert_eq!(message, "No pipeline stages configured")
        }
        other => panic!("unexpected: {:?}", other),
    }
}

#[test]
fn a_stage_that_cannot_be_fed_is_refused() {
    let mut builder = PipelineBuilder::new(settings());
    builder.add_ffmpeg_stage("a.mp3", None, "s16le").unwrap();
    builder.add_sox_stage().unwrap();
    builder.add_ffmpeg_stage("b.mp3", None, "wav").unwrap();
    match builder.execute_streaming() {
        Err(Error::InvalidInput(message)) => {
            assert_eq!(message, "Failed to get stdin for stage 2")
        }
        other => panic!("unexpected: {:?}", other),
    }
}

#[test]
fn an_intermediate_format_carries_no_sample_format() {
    let mut builder = PipelineBuilder::new(settings());
    builder
        .add_ffmpeg_stage("a.mp3", Some("atempo=2".to_string()), "wav")
        .unwrap();
    let plan = builder.execute_streaming().unwrap();
    assert_eq!(
        plan[0].args,
        strings(&["-i", "a.mp3", "-af", "atempo=2", "-f", "wav", "-", "-y"])
    );
}
