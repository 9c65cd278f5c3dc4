//! Planning of the process chain that decodes a sound and applies effects.
//!
//! A plan is an ordered list of stages. Each stage names the tool to run,
//! its arguments, and whether its standard input is fed from the stage
//! before it. Running the plan is left to the caller.

use vstd::prelude::*;
use vstd::string::StringExecFns;

use crate::audio::effects::{
    build_filter_chain, ffmpeg_effects, filter_chain, filter_effects, has_reverb, includes_reverb,
    lemma_filter_effects_no_reverb, AudioEffect, AudioEffectSettings,
};
use crate::error::Error;
use crate::text::{chars_equal, chars_of, decimal, push_decimal};

verus! {

/// The external tool that a stage runs.
#[derive(Debug, Clone, Copy, PartialEq, Eq, Structural)]
pub enum StageTool {
    /// The decoder and filter tool.
    Ffmpeg,
    /// The reverb tool.
    Sox,
}

/// Where a stage reads from.
#[derive(Debug, Clone, Copy, PartialEq, Eq, Structural)]
pub enum StageInput {
    /// Nothing: the stage names its input among its arguments.
    Null,
    /// The output of the stage before it.
    Piped,
}

/// One process of a pipeline. Its output is always a pipe: to the next
/// stage, or, for the last stage, to the consumer of the pipeline.
#[derive(Debug)]
pub struct PipelineStage {
    pub tool: StageTool,
    pub args: Vec<String>,
    pub stdin: StageInput,
}

/// What a stage is, with its arguments as plain text.
pub struct StageSpec {
    pub tool: StageTool,
    pub args: Seq<Seq<char>>,
    pub stdin: StageInput,
}

impl DeepView for PipelineStage {
    type V = StageSpec;

    open spec fn deep_view(&self) -> StageSpec {
        StageSpec { tool: self.tool, args: self.args.deep_view(), stdin: self.stdin }
    }
}

/// The text of an optional string.
pub open spec fn text_of(text: Option<String>) -> Option<Seq<char>> {
    match text {
        Some(t) => Some(t@),
        None => None,
    }
}

/// The arguments that select a filter chain, if there is one.
pub open spec fn filter_args(filters: Option<Seq<char>>) -> Seq<Seq<char>> {
    match filters {
        Some(f) => seq!["-af"@, f],
        None => Seq::empty(),
    }
}

/// The arguments that fix the sample format of raw output.
pub open spec fn pcm_args() -> Seq<Seq<char>> {
    seq!["-acodec"@, "pcm_s16le"@, "-ar"@, "48000"@, "-ac"@, "2"@]
}

/// The arguments of a stage that decodes `input_file`, applies `filters`
/// and writes `output_format` to its standard output. Raw output is
/// signed 16-bit little-endian, 48 kHz, stereo.
pub open spec fn decode_args(
    input_file: Seq<char>,
    filters: Option<Seq<char>>,
    output_format: Seq<char>,
) -> Seq<Seq<char>> {
    seq!["-i"@, input_file] + filter_args(filters) + (if output_format == "s16le"@ {
        pcm_args()
    } else {
        Seq::empty()
    }) + seq!["-f"@, output_format, "-"@, "-y"@]
}

/// The arguments of a stage that reads raw samples from its standard
/// input, applies `filters` and writes raw samples.
pub open spec fn piped_filter_args(filters: Option<Seq<char>>) -> Seq<Seq<char>> {
    seq!["-f"@, "s16le"@, "-ar"@, "48000"@, "-ac"@, "2"@, "-i"@, "pipe:0"@] + filter_args(filters)
        + pcm_args() + seq!["-f"@, "s16le"@, "-"@, "-y"@]
}

/// The description of raw samples for the reverb tool.
pub open spec fn raw_format_args() -> Seq<Seq<char>> {
    seq![
        "-t"@,
        "raw"@,
        "-r"@,
        "48000"@,
        "-e"@,
        "signed-integer"@,
        "-b"@,
        "16"@,
        "-c"@,
        "2"@,
        "-"@,
    ]
}

/// The arguments of the reverb stage: raw samples in, raw samples out,
/// reverberance and damping in percent, each given twice.
pub open spec fn reverb_args(room_size: nat, damping: nat) -> Seq<Seq<char>> {
    raw_format_args() + raw_format_args() + seq![
        "gain"@,
        "-3"@,
        "pad"@,
        "0"@,
        "4"@,
        "reverb"@,
        decimal(room_size),
        decimal(room_size),
        decimal(damping),
        decimal(damping),
        "200"@,
    ]
}

/// The stage that decodes a file.
pub open spec fn decode_stage(
    input_file: Seq<char>,
    filters: Option<Seq<char>>,
    output_format: Seq<char>,
) -> StageSpec {
    StageSpec {
        tool: StageTool::Ffmpeg,
        args: decode_args(input_file, filters, output_format),
        stdin: StageInput::Null,
    }
}

/// The stage that filters the samples it is fed.
pub open spec fn piped_filter_stage(filters: Option<Seq<char>>) -> StageSpec {
    StageSpec {
        tool: StageTool::Ffmpeg,
        args: piped_filter_args(filters),
        stdin: StageInput::Piped,
    }
}

/// The stage that adds reverb to the samples it is fed.
pub open spec fn reverb_stage(config: AudioEffectSettings) -> StageSpec {
    StageSpec {
        tool: StageTool::Sox,
        args: reverb_args(config.reverb_room_size as nat, config.reverb_damping as nat),
        stdin: StageInput::Piped,
    }
}

/// How many stages the pipeline for `effects` has: one without reverb, two
/// with reverb alone, three with reverb and other effects.
pub open spec fn stage_count(effects: Seq<AudioEffect>) -> nat {
    if !has_reverb(effects) {
        1
    } else if filter_effects(effects).len() == 0 {
        2
    } else {
        3
    }
}

/// The pipeline for `effects`.
///
/// Without reverb a single stage decodes the file and applies the filter
/// chain, if there is one. With reverb, the first stage decodes and applies
/// `prenorm`, the second adds the reverb, and a third applies the filter
/// chain of the other effects, if there are any.
pub open spec fn pipeline(
    input_file: Seq<char>,
    effects: Seq<AudioEffect>,
    config: AudioEffectSettings,
    prenorm: Seq<char>,
) -> Seq<StageSpec> {
    if !has_reverb(effects) {
        if filter_effects(effects).len() > 0 {
            seq![decode_stage(input_file, Some(filter_chain(effects, config)), "s16le"@)]
        } else {
            seq![decode_stage(input_file, None, "s16le"@)]
        }
    } else if filter_effects(effects).len() > 0 {
        seq![
            decode_stage(input_file, Some(prenorm), "s16le"@),
            reverb_stage(config),
            piped_filter_stage(Some(filter_chain(effects, config))),
        ]
    } else {
        seq![decode_stage(input_file, Some(prenorm), "s16le"@), reverb_stage(config)]
    }
}

/// Whether every stage but the first reads from the stage before it.
pub open spec fn chained(stages: Seq<StageSpec>) -> bool {
    forall|i: int| 0 < i < stages.len() ==> (#[trigger] stages[i]).stdin == StageInput::Piped
}

/// Whether stage `index` is the first after the first stage that does not
/// read from a pipe.
pub open spec fn first_unchained(stages: Seq<StageSpec>, index: int) -> bool {
    &&& 0 < index < stages.len()
    &&& stages[index].stdin != StageInput::Piped
    &&& forall|j: int| 0 < j < index ==> (#[trigger] stages[j]).stdin == StageInput::Piped
}

/// The message for a stage that cannot be fed.
pub open spec fn unchained_message(index: nat) -> Seq<char> {
    "Failed to get stdin for stage "@ + decimal(index)
}

fn arg(text: &str) -> (a: String)
    ensures
        a@ == text@,
{
    String::from_str(text)
}

fn push_filter_args(args: &mut Vec<String>, filter_chain: Option<String>)
    ensures
        final(args).deep_view() == old(args).deep_view() + filter_args(
            text_of(filter_chain),
        ),
{
    match filter_chain {
        Some(filters) => {
            args.push(arg("-af"));
            args.push(filters);
            proof {
                assert(args.deep_view() =~= old(args).deep_view() + seq!["-af"@, filters@]);
            }
        },
        None => {
            proof {
                assert(args.deep_view() =~= old(args).deep_view() + Seq::<Seq<char>>::empty());
            }
        },
    }
}

fn push_pcm_args(args: &mut Vec<String>)
    ensures
        final(args).deep_view() == old(args).deep_view() + pcm_args(),
{
    args.push(arg("-acodec"));
    args.push(arg("pcm_s16le"));
    args.push(arg("-ar"));
    args.push(arg("48000"));
    args.push(arg("-ac"));
    args.push(arg("2"));
    proof {
        assert(args.deep_view() =~= old(args).deep_view() + pcm_args());
    }
}

fn push_raw_format_args(args: &mut Vec<String>)
    ensures
        final(args).deep_view() == old(args).deep_view() + raw_format_args(),
{
    args.push(arg("-t"));
    args.push(arg("raw"));
    args.push(arg("-r"));
    args.push(arg("48000"));
    args.push(arg("-e"));
    args.push(arg("signed-integer"));
    args.push(arg("-b"));
    args.push(arg("16"));
    args.push(arg("-c"));
    args.push(arg("2"));
    args.push(arg("-"));
    proof {
        assert(args.deep_view() =~= old(args).deep_view() + raw_format_args());
    }
}

fn decimal_string(n: u32) -> (s: String)
    ensures
        s@ == decimal(n as nat),
{
    let mut s = String::new();
    push_decimal(&mut s, n as u64);
    proof {
        assert(s@ =~= decimal(n as nat));
    }
    s
}

/// Collects the stages of a pipeline, in the order in which they run.
pub struct PipelineBuilder {
    pub stages: Vec<PipelineStage>,
    pub config: AudioEffectSettings,
}

impl PipelineBuilder {
    /// A builder without stages.
    pub fn new(config: AudioEffectSettings) -> (builder: Self)
        ensures
            builder.stages@.len() == 0,
            builder.config == config,
    {
        Self { stages: Vec::new(), config }
    }

    /// Adds a stage that decodes `input_file`, applies `filter_chain` and
    /// writes `output_format` to its standard output.
    pub fn add_ffmpeg_stage(
        &mut self,
        input_file: &str,
        filter_chain: Option<String>,
        output_format: &str,
    ) -> (added: Result<(), Error>)
        ensures
            added is Ok,
            final(self).config == old(self).config,
            final(self).stages.deep_view() == old(self).stages.deep_view().push(
                decode_stage(
                    input_file@,
                    text_of(filter_chain),
                    output_format@,
                ),
            ),
    {
        let ghost filters = text_of(filter_chain);
        let mut args: Vec<String> = Vec::new();
        args.push(arg("-i"));
        args.push(arg(input_file));
        proof {
            assert(args.deep_view() =~= seq!["-i"@, input_file@]);
        }
        push_filter_args(&mut args, filter_chain);
        let raw = output_format_is_raw(output_format);
        let ghost head = args.deep_view();
        if raw {
            push_pcm_args(&mut args);
        }
        proof {
            assert(args.deep_view() =~= head + (if output_format@ == "s16le"@ {
                pcm_args()
            } else {
                Seq::empty()
            }));
        }
        let ghost body = args.deep_view();
        args.push(arg("-f"));
        args.push(arg(output_format));
        args.push(arg("-"));
        args.push(arg("-y"));
        proof {
            assert(args.deep_view() =~= body + seq!["-f"@, output_format@, "-"@, "-y"@]);
            assert(args.deep_view() == decode_args(input_file@, filters, output_format@));
        }
        self.stages.push(PipelineStage { tool: StageTool::Ffmpeg, args, stdin: StageInput::Null });
        proof {
            assert(self.stages.deep_view() =~= old(self).stages.deep_view().push(
                decode_stage(input_file@, filters, output_format@),
            ));
        }
        Ok(())
    }

    /// Adds a stage that reads raw samples from the stage before it, applies
    /// `filter_chain` and writes raw samples.
    pub fn add_ffmpeg_stage_with_input_pipe(&mut self, filter_chain: Option<String>) -> (added:
        Result<(), Error>)
        ensures
            added is Ok,
            final(self).config == old(self).config,
            final(self).stages.deep_view() == old(self).stages.deep_view().push(
                piped_filter_stage(
                    text_of(filter_chain),
                ),
            ),
    {
        let ghost filters = text_of(filter_chain);
        let mut args: Vec<String> = Vec::new();
        args.push(arg("-f"));
        args.push(arg("s16le"));
        args.push(arg("-ar"));
        args.push(arg("48000"));
        args.push(arg("-ac"));
        args.push(arg("2"));
        args.push(arg("-i"));
        args.push(arg("pipe:0"));
        proof {
            assert(args.deep_view() =~= seq![
                "-f"@,
                "s16le"@,
                "-ar"@,
                "48000"@,
                "-ac"@,
                "2"@,
                "-i"@,
                "pipe:0"@,
            ]);
        }
        push_filter_args(&mut args, filter_chain);
        push_pcm_args(&mut args);
        let ghost body = args.deep_view();
        args.push(arg("-f"));
        args.push(arg("s16le"));
        args.push(arg("-"));
        args.push(arg("-y"));
        proof {
            assert(args.deep_view() =~= body + seq!["-f"@, "s16le"@, "-"@, "-y"@]);
            assert(args.deep_view() == piped_filter_args(filters));
        }
        self.stages.push(PipelineStage { tool: StageTool::Ffmpeg, args, stdin: StageInput::Piped });
        proof {
            assert(self.stages.deep_view() =~= old(self).stages.deep_view().push(
                piped_filter_stage(filters),
            ));
        }
        Ok(())
    }

    /// Adds the stage that reverberates the samples of the stage before it.
    pub fn add_sox_stage(&mut self) -> (added: Result<(), Error>)
        ensures
            added is Ok,
            final(self).config == old(self).config,
            final(self).stages.deep_view() == old(self).stages.deep_view().push(
                reverb_stage(old(self).config),
            ),
    {
        let mut args: Vec<String> = Vec::new();
        proof {
            assert(args.deep_view() =~= Seq::<Seq<char>>::empty());
        }
        push_raw_format_args(&mut args);
        push_raw_format_args(&mut args);
        let ghost head = args.deep_view();
        proof {
            assert(head =~= raw_format_args() + raw_format_args());
        }
        args.push(arg("gain"));
        args.push(arg("-3"));
        args.push(arg("pad"));
        args.push(arg("0"));
        args.push(arg("4"));
        args.push(arg("reverb"));
        args.push(decimal_string(self.config.reverb_room_size));
        args.push(decimal_string(self.config.reverb_room_size));
        args.push(decimal_string(self.config.reverb_damping));
        args.push(decimal_string(self.config.reverb_damping));
        args.push(arg("200"));
        proof {
            assert(args.deep_view() =~= reverb_args(
                self.config.reverb_room_size as nat,
                self.config.reverb_damping as nat,
            ));
        }
        self.stages.push(PipelineStage { tool: StageTool::Sox, args, stdin: StageInput::Piped });
        proof {
            assert(self.stages.deep_view() =~= old(self).stages.deep_view().push(
                reverb_stage(old(self).config),
            ));
        }
        Ok(())
    }
    /// Checks the stages and hands them out in the order in which they are
    /// to be started. A pipeline needs at least one stage, and every stage
    /// after the first must read from the one before it.
    pub fn execute_streaming(self) -> (plan: Result<Vec<PipelineStage>, Error>)
        ensures
            plan is Ok <==> self.stages@.len() > 0 && chained(self.stages.deep_view()),
            plan matches Ok(stages) ==> stages == self.stages,
            plan matches Err(e) ==> {
                &&& e is InvalidInput
                &&& self.stages@.len() == 0 ==> e.message() == "No pipeline stages configured"@
                &&& self.stages@.len() > 0 ==> exists|i: int|
                    first_unchained(self.stages.deep_view(), i) && e.message()
                        == unchained_message(i as nat)
            },
    {
        if self.stages.len() == 0 {
            return Err(Error::InvalidInput(arg("No pipeline stages configured")));
        }
        let mut i: usize = 1;
        while i < self.stages.len()
            invariant
                0 < i <= self.stages@.len(),
                forall|j: int|
                    0 < j < i ==> (#[trigger] self.stages.deep_view()[j]).stdin
                        == StageInput::Piped,
            decreases self.stages@.len() - i,
        {
            match self.stages[i].stdin {
                StageInput::Piped => {},
                StageInput::Null => {
                    let mut message = arg("Failed to get stdin for stage ");
                    push_decimal(&mut message, i as u64);
                    proof {
                        assert(self.stages.deep_view()[i as int].stdin != StageInput::Piped);
                        assert(first_unchained(self.stages.deep_view(), i as int));
                    }
                    return Err(Error::InvalidInput(message));
                },
            }
            i += 1;
        }
        Ok(self.stages)
    }
}

/// Plans the pipelines that apply effects to a sound.
pub struct AudioEffectsProcessor {
    pub config: AudioEffectSettings,
}

impl AudioEffectsProcessor {
    /// A processor that uses the numbers of `config`.
    pub fn new(config: AudioEffectSettings) -> (processor: Result<Self, Error>)
        ensures
            processor matches Ok(p) && p.config == config,
    {
        Ok(AudioEffectsProcessor { config })
    }

    /// Plans the pipeline that decodes `input_file` and applies `effects`,
    /// ending in raw samples. `prenorm` is the filter that evens out the
    /// loudness of the input before reverb is added.
    pub fn apply_effects_streaming(
        &self,
        input_file: &str,
        effects: &[AudioEffect],
        prenorm: &str,
    ) -> (plan: Result<Vec<PipelineStage>, Error>)
        ensures
            plan matches Ok(stages) && stages.deep_view() == pipeline(
                input_file@,
                effects@,
                self.config,
                prenorm@,
            ),
    {
        let mut builder = PipelineBuilder::new(self.config.clone());
        let reverb = includes_reverb(effects);
        let kept = ffmpeg_effects(effects);
        proof {
            assert(builder.stages.deep_view() =~= Seq::<StageSpec>::empty());
        }
        if !reverb && kept.len() > 0 {
            let chain = build_filter_chain(effects, &self.config);
            let _ = builder.add_ffmpeg_stage(input_file, Some(chain), "s16le");
        } else if !reverb {
            let _ = builder.add_ffmpeg_stage(input_file, None, "s16le");
        } else {
            let _ = builder.add_ffmpeg_stage(input_file, Some(arg(prenorm)), "s16le");
        }
        if reverb {
            let _ = builder.add_sox_stage();
        }
        if reverb && kept.len() > 0 {
            let chain = build_filter_chain(effects, &self.config);
            let _ = builder.add_ffmpeg_stage_with_input_pipe(Some(chain));
        }
        proof {
            assert(builder.stages.deep_view() =~= pipeline(
                input_file@,
                effects@,
                self.config,
                prenorm@,
            ));
            lemma_pipeline_chained(input_file@, effects@, self.config, prenorm@);
        }
        builder.execute_streaming()
    }
}

/// Every planned pipeline has a first stage that names its input and later
/// stages that each read from the one before.
pub proof fn lemma_pipeline_chained(
    input_file: Seq<char>,
    effects: Seq<AudioEffect>,
    config: AudioEffectSettings,
    prenorm: Seq<char>,
)
    ensures
        pipeline(input_file, effects, config, prenorm).len() > 0,
        pipeline(input_file, effects, config, prenorm)[0].stdin == StageInput::Null,
        chained(pipeline(input_file, effects, config, prenorm)),
{
}

/// The number of stages depends only on whether reverb is requested and
/// on whether any other effect is: one stage without reverb, two with
/// reverb alone, three with reverb and other effects.
pub proof fn lemma_pipeline_stage_count(
    input_file: Seq<char>,
    effects: Seq<AudioEffect>,
    config: AudioEffectSettings,
    prenorm: Seq<char>,
)
    ensures
        pipeline(input_file, effects, config, prenorm).len() == stage_count(effects),
        effects.len() == 0 ==> stage_count(effects) == 1,
        !has_reverb(effects) ==> stage_count(effects) == 1,
        has_reverb(effects) && filter_effects(effects).len() == 0 ==> stage_count(effects) == 2,
        has_reverb(effects) && filter_effects(effects).len() > 0 ==> stage_count(effects) == 3,
{
}

/// Reverb never reaches the filter tool: a stage of that tool carries the
/// filter chain of the effects other than reverb, or the input
/// normalisation, or no filter at all; reverb has a stage of its own tool.
pub proof fn lemma_reverb_not_filtered(
    input_file: Seq<char>,
    effects: Seq<AudioEffect>,
    config: AudioEffectSettings,
    prenorm: Seq<char>,
    index: int,
)
    requires
        0 <= index < pipeline(input_file, effects, config, prenorm).len(),
    ensures
        ({
            let stage = pipeline(input_file, effects, config, prenorm)[index];
            let chain = Some(filter_chain(effects, config));
            &&& stage.tool == StageTool::Sox <==> has_reverb(effects) && index == 1
            &&& stage.tool == StageTool::Ffmpeg ==> {
                ||| stage.args == decode_args(input_file, None, "s16le"@)
                ||| stage.args == decode_args(input_file, Some(prenorm), "s16le"@)
                ||| stage.args == decode_args(input_file, chain, "s16le"@)
                ||| stage.args == piped_filter_args(chain)
            }
        }),
        forall|i: int|
            0 <= i < filter_effects(effects).len() ==> !(#[trigger] filter_effects(
                effects,
            )[i]).spec_requires_sox(),
{
    lemma_filter_effects_no_reverb(effects);
}

fn output_format_is_raw(output_format: &str) -> (raw: bool)
    ensures
        raw == (output_format@ == "s16le"@),
{
    let chars = chars_of(output_format);
    chars_equal(&chars, "s16le")
}

/// The arguments of the stage that decodes `input_file` to raw samples
/// when no effect is asked for.
pub open spec fn direct_decode_args(input_file: Seq<char>) -> Seq<Seq<char>> {
    seq![
        "-i"@,
        input_file,
        "-f"@,
        "s16le"@,
        "-acodec"@,
        "pcm_s16le"@,
        "-ar"@,
        "48000"@,
        "-ac"@,
        "2"@,
        "-"@,
    ]
}

/// The single stage that plays `input_file` without effects: it decodes the
/// file to raw samples, signed 16-bit little-endian, 48 kHz, stereo.
pub fn direct_decode_stage(input_file: &str) -> (stage: PipelineStage)
    ensures
        stage.deep_view() == (StageSpec {
            tool: StageTool::Ffmpeg,
            args: direct_decode_args(input_file@),
            stdin: StageInput::Null,
        }),
{
    let mut args: Vec<String> = Vec::new();
    args.push(arg("-i"));
    args.push(arg(input_file));
    args.push(arg("-f"));
    args.push(arg("s16le"));
    args.push(arg("-acodec"));
    args.push(arg("pcm_s16le"));
    args.push(arg("-ar"));
    args.push(arg("48000"));
    args.push(arg("-ac"));
    args.push(arg("2"));
    args.push(arg("-"));
    proof {
        assert(args.deep_view() =~= direct_decode_args(input_file@));
    }
    PipelineStage { tool: StageTool::Ffmpeg, args, stdin: StageInput::Null }
}

} // verus!
