use threebot::audio::pipeline::{direct_decode_stage, StageInput, StageTool};
use threebot::audio::prenorm::{
    parse_level, parse_measurement, push_level, InputNormalization, Measurement,
    NormalizationMode, Prenorm, PrenormStep,
};
use threebot::error::Error;

fn targets(mode: NormalizationMode) -> InputNormalization {
    InputNormalization {
        mode,
        target_loudness: -1800,
        true_peak: -150,
        loudness_range: 1100,
    }
}

fn level(value: i64) -> String {
    let mut out = String::new();
    push_level(&mut out, value);
    out
}

#[test]
fn levels_are_written_without_trailing_zeros() {
    assert_eq!(level(0), "0");
    assert_eq!(level(-1800), "-18");
    assert_eq!(level(-150), "-1.5");
    assert_eq!(level(1105), "11.05");
    assert_eq!(level(5), "0.05");
    assert_eq!(level(-50), "-0.5");
    assert_eq!(level(123456), "1234.56");
    assert_eq!(level(i64::MIN), "-92233720368547758.08");
}

#[test]
fn the_full_mode_targets_the_loudness() {
    let settings = targets(NormalizationMode::Full);
    match settings.prepare("clip.mp3") {
        PrenormStep::Ready(filter) => {
            assert_eq!(
                filter,
                Prenorm::Loudnorm {
                    loudness: -1800,
                    true_peak: -150,
                    loudness_range: 1100
                }
            );
            assert_eq!(
                filter.to_filter(),
                "loudnorm=I=-18:TP=-1.5:LRA=11:linear=true"
            );
        }
        other => panic!("unexpected: {:?}", other),
    }
}

#[test]
fn the_boost_only_mode_measures_first() {
    let settings = targets(NormalizationMode::BoostOnly);
    match settings.prepare("clip.mp3") {
        PrenormStep::Measure(args) => assert_eq!(
            args,
            vec![
                "-i",
                "clip.mp3",
                "-af",
                "loudnorm=I=-18:TP=-1.5:LRA=11:print_format=json",
                "-f",
                "null",
                "-"
            ]
        ),
        other => panic!("unexpected: {:?}", other),
    }
}

#[test]
fn the_boost_is_capped_by_loudness_and_by_headroom() {
    let settings = targets(NormalizationMode::BoostOnly);
    // quiet input with room: the loudness gap decides
    let quiet = Measurement { loudness: -2761, true_peak: -1447 };
    assert_eq!(settings.boost(&quiet), Prenorm::Boost(961));
    assert_eq!(settings.boost(&quiet).to_filter(), "volume=9.61dB");
    // quiet input with little room: the headroom decides
    let peaky = Measurement { loudness: -2761, true_peak: -450 };
    assert_eq!(settings.boost(&peaky), Prenorm::Boost(300));
    assert_eq!(settings.boost(&peaky).to_filter(), "volume=3dB");
    // loud input: never lowered
    let loud = Measurement { loudness: -900, true_peak: -1000 };
    assert_eq!(settings.boost(&loud), Prenorm::PassThrough);
    // no headroom
    let clipped = Measurement { loudness: -3000, true_peak: 0 };
    assert_eq!(settings.boost(&clipped), Prenorm::PassThrough);
    // below the threshold
    let close = Measurement { loudness: -1809, true_peak: -2000 };
    assert_eq!(settings.boost(&close), Prenorm::PassThrough);
    let just = Measurement { loudness: -1810, true_peak: -2000 };
    assert_eq!(settings.boost(&just), Prenorm::Boost(10));
    assert_eq!(Prenorm::PassThrough.to_filter(), "anull");
}

#[test]
fn the_analysis_is_read() {
    let report = "[Parsed_loudnorm_0 @ 0x55]\n{\n\t\"input_i\" : \"-27.61\",\n\t\"input_tp\" : \"-4.47\",\n\t\"input_lra\" : \"18.06\",\n\t\"output_i\" : \"-16.58\"\n}\n";
    assert_eq!(
        parse_measurement(report).unwrap(),
        Measurement { loudness: -2761, true_peak: -447 }
    );
    let settings = targets(NormalizationMode::BoostOnly);
    assert_eq!(settings.after_analysis(report).unwrap(), Prenorm::Boost(297));
}

#[test]
fn an_analysis_that_cannot_be_read_is_an_error() {
    let settings = targets(NormalizationMode::BoostOnly);
    for report in [
        "",
        "no numbers here",
        "\"input_i\" : \"-27.61\"",
        "\"input_i\" : \"-inf\", \"input_tp\" : \"-4.47\"",
        "\"input_i\" : \"-27.61\", \"input_tp\" : \"",
        "\"input_i\" : \"-27.615\", \"input_tp\" : \"-4.47\"",
    ] {
        match settings.after_analysis(report) {
            Err(Error::InvalidInput(message)) => {
                assert_eq!(message, "Failed to parse loudness analysis")
            }
            other => panic!("unexpected for {:?}: {:?}", report, other),
        }
    }
}

#[test]
fn numerals_are_read_as_hundredths() {
    let read = |text: &str| {
        let chars: Vec<char> = text.chars().collect();
        parse_level(&chars, 0, chars.len())
    };
    assert_eq!(read("0"), Some(0));
    assert_eq!(read("12"), Some(1200));
    assert_eq!(read("-12.3"), Some(-1230));
    assert_eq!(read("12.34"), Some(1234));
    assert_eq!(read("-0.05"), Some(-5));
    assert_eq!(read("999999.99"), Some(99_999_999));
    assert_eq!(read("1000000"), None);
    assert_eq!(read(""), None);
    assert_eq!(read("-"), None);
    assert_eq!(read("."), None);
    assert_eq!(read("1."), None);
    assert_eq!(read(".5"), None);
    assert_eq!(read("1.234"), None);
    assert_eq!(read("1.2.3"), None);
    assert_eq!(read("+1"), None);
    assert_eq!(read("1e3"), None);
    assert_eq!(read("--1"), None);
}

#[test]
fn a_sound_without_effects_is_decoded_directly() {
    let stage = direct_decode_stage("clip.mp3");
    assert_eq!(stage.tool, StageTool::Ffmpeg);
    assert_eq!(stage.stdin, StageInput::Null);
    assert_eq!(
        stage.args,
        vec![
            "-i", "clip.mp3", "-f", "s16le", "-acodec", "pcm_s16le", "-ar", "48000", "-ac", "2",
            "-"
        ]
    );
}
