//! Normalisation of the loudness of a sound before effects are applied.
//!
//! Levels are held in hundredths of a decibel. In the full mode the filter
//! tool is asked to bring the input to the target loudness. In the
//! boost-only mode the input is measured first, and a quiet input is raised
//! by a fixed gain: as far as the target loudness asks, but never further
//! than the true peak allows; an input that needs less than a tenth of a
//! decibel is passed through untouched.

use vstd::prelude::*;
use vstd::string::StringExecFns;

use crate::error::Error;
use crate::text::{
    chars_of, decimal, digit_char, find, find_from, lemma_find_from, matches_at, numeral,
    push_decimal, push_word, value_of,
};

verus! {

/// The least gain that is worth a filter, in hundredths of a decibel.
pub const MIN_BOOST: i32 = 10;

/// How the loudness of the input is evened out.
#[derive(Debug, Clone, Copy, PartialEq, Eq, Structural)]
pub enum NormalizationMode {
    /// The filter tool brings the input to the target loudness.
    Full,
    /// A quiet input is raised by a fixed gain; nothing is ever lowered.
    BoostOnly,
}

/// The targets of the input normalisation, in hundredths.
#[derive(Debug, Clone, Copy, PartialEq, Eq, Structural)]
pub struct InputNormalization {
    pub mode: NormalizationMode,
    /// Integrated loudness to reach, in LUFS.
    pub target_loudness: i32,
    /// True peak not to exceed, in dBTP.
    pub true_peak: i32,
    /// Loudness range to aim for, in LU.
    pub loudness_range: i32,
}

/// What the analysis found.
#[derive(Debug, Clone, Copy, PartialEq, Eq, Structural)]
pub struct Measurement {
    /// Integrated loudness of the input, in hundredths of a LUFS.
    pub loudness: i32,
    /// True peak of the input, in hundredths of a dBTP.
    pub true_peak: i32,
}

/// The filter that is applied to the input.
#[derive(Debug, Clone, Copy, PartialEq, Eq, Structural)]
pub enum Prenorm {
    /// Loudness normalisation toward the targets, applied linearly.
    Loudnorm { loudness: i32, true_peak: i32, loudness_range: i32 },
    /// A fixed gain, in hundredths of a decibel.
    Boost(i64),
    /// No change.
    PassThrough,
}

/// The lesser of two numbers.
pub open spec fn lesser(a: int, b: int) -> int {
    if a <= b {
        a
    } else {
        b
    }
}

/// The gain that raises `measured` to the target loudness without
/// carrying its true peak past the target true peak.
pub open spec fn boost_gain(targets: InputNormalization, measured: Measurement) -> int {
    lesser(
        targets.target_loudness - measured.loudness,
        targets.true_peak - measured.true_peak,
    )
}

/// The filter of the boost-only mode for an input that was measured.
pub open spec fn boost_for(targets: InputNormalization, measured: Measurement) -> Prenorm {
    let gain = boost_gain(targets, measured);
    if gain < MIN_BOOST {
        Prenorm::PassThrough
    } else {
        Prenorm::Boost(gain as i64)
    }
}

/// The filter of the full mode.
pub open spec fn loudnorm_for(targets: InputNormalization) -> Prenorm {
    Prenorm::Loudnorm {
        loudness: targets.target_loudness,
        true_peak: targets.true_peak,
        loudness_range: targets.loudness_range,
    }
}

/// The magnitude of `value`, written with up to two decimals and without
/// trailing zeros.
pub open spec fn magnitude_text(magnitude: nat) -> Seq<char> {
    let whole = magnitude / 100;
    let tenths = (magnitude % 100) / 10;
    let hundredths = magnitude % 10;
    if magnitude % 100 == 0 {
        decimal(whole)
    } else if hundredths == 0 {
        decimal(whole) + seq!['.', digit_char(tenths)]
    } else {
        decimal(whole) + seq!['.', digit_char(tenths), digit_char(hundredths)]
    }
}

/// A level in hundredths as decimal text.
pub open spec fn level_text(value: int) -> Seq<char> {
    if value < 0 {
        seq!['-'] + magnitude_text((-value) as nat)
    } else {
        magnitude_text(value as nat)
    }
}

/// The loudness normalisation toward the given targets, as a filter
/// expression without its options.
pub open spec fn loudnorm_text(loudness: int, true_peak: int, loudness_range: int) -> Seq<char> {
    "loudnorm=I="@ + level_text(loudness) + ":TP="@ + level_text(true_peak) + ":LRA="@
        + level_text(loudness_range)
}

impl Prenorm {
    /// The filter expression.
    pub open spec fn filter(self) -> Seq<char> {
        match self {
            Prenorm::Loudnorm { loudness, true_peak, loudness_range } => loudnorm_text(
                loudness as int,
                true_peak as int,
                loudness_range as int,
            ) + ":linear=true"@,
            Prenorm::Boost(gain) => "volume="@ + level_text(gain as int) + "dB"@,
            Prenorm::PassThrough => "anull"@,
        }
    }
}

/// The arguments that make the filter tool measure `input_file`: the
/// loudness normalisation is asked to print what it finds, and the output
/// is discarded.
pub open spec fn analysis_args(input_file: Seq<char>, targets: InputNormalization) -> Seq<
    Seq<char>,
> {
    seq![
        "-i"@,
        input_file,
        "-af"@,
        loudnorm_text(
            targets.target_loudness as int,
            targets.true_peak as int,
            targets.loudness_range as int,
        ) + ":print_format=json"@,
        "-f"@,
        "null"@,
        "-"@,
    ]
}

/// The digits before the decimal point of an unsigned numeral.
pub open spec fn whole_part(body: Seq<char>) -> Seq<char> {
    match find_from(body, "."@, 0) {
        Some(dot) => body.take(dot),
        None => body,
    }
}

/// The digits after the decimal point of an unsigned numeral.
pub open spec fn fraction_part(body: Seq<char>) -> Seq<char> {
    match find_from(body, "."@, 0) {
        Some(dot) => body.skip(dot + 1),
        None => Seq::empty(),
    }
}

/// The hundredths that an unsigned numeral denotes: one to six digits,
/// then, if anything, a point and one or two digits.
pub open spec fn unsigned_hundredths(body: Seq<char>) -> Option<nat> {
    let whole = whole_part(body);
    let fraction = fraction_part(body);
    let pointed = find_from(body, "."@, 0) is Some;
    if whole.len() == 0 || whole.len() > 6 || !numeral(whole) || !numeral(fraction)
        || fraction.len() > 2 || (pointed && fraction.len() == 0) {
        None
    } else if fraction.len() == 1 {
        Some(value_of(whole) * 100 + value_of(fraction) * 10)
    } else {
        Some(value_of(whole) * 100 + value_of(fraction))
    }
}

/// The hundredths that a numeral denotes, with its sign.
pub open spec fn hundredths(text: Seq<char>) -> Option<int> {
    if text.len() > 0 && text[0] == '-' {
        match unsigned_hundredths(text.skip(1)) {
            Some(magnitude) => Some(-(magnitude as int)),
            None => None,
        }
    } else {
        match unsigned_hundredths(text) {
            Some(magnitude) => Some(magnitude as int),
            None => None,
        }
    }
}

/// The text between the quotation marks that follow the first occurrence
/// of `key`, itself in quotation marks.
pub open spec fn quoted_after(report: Seq<char>, key: Seq<char>) -> Option<Seq<char>> {
    let name = seq!['"'] + key + seq!['"'];
    match find_from(report, name, 0) {
        None => None,
        Some(at) => match find_from(report, "\""@, at + name.len()) {
            None => None,
            Some(open) => match find_from(report, "\""@, open + 1) {
                None => None,
                Some(close) => Some(report.subrange(open + 1, close)),
            },
        },
    }
}

/// The level that the analysis reports under `key`.
pub open spec fn reported_level(report: Seq<char>, key: Seq<char>) -> Option<int> {
    match quoted_after(report, key) {
        Some(text) => hundredths(text),
        None => None,
    }
}

/// What the analysis reports: the integrated loudness and the true peak of
/// the input.
pub open spec fn reported(report: Seq<char>) -> Option<Measurement> {
    match (reported_level(report, "input_i"@), reported_level(report, "input_tp"@)) {
        (Some(loudness), Some(true_peak)) => Some(
            Measurement { loudness: loudness as i32, true_peak: true_peak as i32 },
        ),
        _ => None,
    }
}

fn push_digit(out: &mut String, d: u32)
    requires
        d < 10,
    ensures
        final(out)@ == old(out)@.push(digit_char(d as nat)),
{
    out.push(((d as u8) + 48) as char);
}

/// Appends a level in hundredths as decimal text: up to two decimals, no
/// trailing zeros.
pub fn push_level(out: &mut String, value: i64)
    ensures
        final(out)@ == old(out)@ + level_text(value as int),
{
    let magnitude: u64 = if value < 0 {
        out.push('-');
        if value == i64::MIN {
            0x8000_0000_0000_0000u64
        } else {
            (-value) as u64
        }
    } else {
        value as u64
    };
    let ghost signed = out@;
    push_decimal(out, magnitude / 100);
    let tenths: u32 = ((magnitude % 100) / 10) as u32;
    let units: u32 = (magnitude % 10) as u32;
    if magnitude % 100 != 0 {
        out.push('.');
        push_digit(out, tenths);
        if units != 0 {
            push_digit(out, units);
        }
    }
    proof {
        assert(out@ =~= signed + magnitude_text(magnitude as nat));
        if value < 0 {
            assert(signed =~= old(out)@ + seq!['-']);
            assert(out@ =~= old(out)@ + (seq!['-'] + magnitude_text(magnitude as nat)));
        }
    }
}

fn push_loudnorm(out: &mut String, loudness: i32, true_peak: i32, loudness_range: i32)
    ensures
        final(out)@ == old(out)@ + loudnorm_text(
            loudness as int,
            true_peak as int,
            loudness_range as int,
        ),
{
    out.append("loudnorm=I=");
    push_level(out, loudness as i64);
    out.append(":TP=");
    push_level(out, true_peak as i64);
    out.append(":LRA=");
    push_level(out, loudness_range as i64);
    proof {
        assert(out@ =~= old(out)@ + loudnorm_text(
            loudness as int,
            true_peak as int,
            loudness_range as int,
        ));
    }
}

impl Prenorm {
    /// The filter expression that is handed to the filter tool.
    pub fn to_filter(&self) -> (text: String)
        ensures
            text@ == self.filter(),
    {
        match self {
            Prenorm::Loudnorm { loudness, true_peak, loudness_range } => {
                let mut text = String::new();
                push_loudnorm(&mut text, *loudness, *true_peak, *loudness_range);
                text.append(":linear=true");
                proof {
                    assert(text@ =~= self.filter());
                }
                text
            },
            Prenorm::Boost(gain) => {
                let mut text = String::from_str("volume=");
                push_level(&mut text, *gain);
                text.append("dB");
                text
            },
            Prenorm::PassThrough => String::from_str("anull"),
        }
    }
}

impl InputNormalization {
    /// The filter of the full mode: loudness normalisation toward the
    /// targets.
    pub fn loudnorm(&self) -> (filter: Prenorm)
        ensures
            filter == loudnorm_for(*self),
    {
        Prenorm::Loudnorm {
            loudness: self.target_loudness,
            true_peak: self.true_peak,
            loudness_range: self.loudness_range,
        }
    }

    /// The filter of the boost-only mode for an input that was measured:
    /// a gain that is positive, no greater than what the target loudness
    /// asks and no greater than what the true peak leaves room for; or no
    /// change, where that gain would be less than a tenth of a decibel.
    pub fn boost(&self, measured: &Measurement) -> (filter: Prenorm)
        ensures
            filter == boost_for(*self, *measured),
            filter matches Prenorm::Boost(gain) ==> {
                &&& gain >= MIN_BOOST
                &&& gain <= self.target_loudness - measured.loudness
                &&& gain <= self.true_peak - measured.true_peak
            },
            !(filter is Loudnorm),
    {
        let wanted: i64 = self.target_loudness as i64 - measured.loudness as i64;
        let headroom: i64 = self.true_peak as i64 - measured.true_peak as i64;
        let gain: i64 = if wanted <= headroom {
            wanted
        } else {
            headroom
        };
        if gain < MIN_BOOST as i64 {
            Prenorm::PassThrough
        } else {
            Prenorm::Boost(gain)
        }
    }

    /// The arguments that make the filter tool measure `input_file`.
    pub fn analysis_arguments(&self, input_file: &str) -> (args: Vec<String>)
        ensures
            args.deep_view() == analysis_args(input_file@, *self),
    {
        let mut filter = String::new();
        push_loudnorm(&mut filter, self.target_loudness, self.true_peak, self.loudness_range);
        filter.append(":print_format=json");
        let mut args: Vec<String> = Vec::new();
        args.push(String::from_str("-i"));
        args.push(String::from_str(input_file));
        args.push(String::from_str("-af"));
        args.push(filter);
        args.push(String::from_str("-f"));
        args.push(String::from_str("null"));
        args.push(String::from_str("-"));
        proof {
            assert(args.deep_view() =~= analysis_args(input_file@, *self));
        }
        args
    }
}

/// The message for an analysis that cannot be read.
pub open spec fn analysis_failure() -> Seq<char> {
    "Failed to parse loudness analysis"@
}

fn digit_of(c: char) -> (d: Option<u32>)
    ensures
        d is Some <==> ('0' <= c && c <= '9'),
        d matches Some(v) ==> v == c as u32 - 48 && v < 10,
{
    if c >= '0' && c <= '9' {
        Some((c as u32) - 48)
    } else {
        None
    }
}

fn parse_digits(text: &Vec<char>, from: usize, to: usize) -> (value: Option<u32>)
    requires
        from <= to <= text@.len(),
        to - from <= 6,
    ensures
        value is Some <==> numeral(text@.subrange(from as int, to as int)),
        value matches Some(v) ==> v == value_of(text@.subrange(from as int, to as int)) && v
            < 1_000_000,
{
    let mut value: u32 = 0;
    let mut i: usize = from;
    let mut bound: u32 = 1;
    proof {
        assert(text@.subrange(from as int, from as int) =~= Seq::<char>::empty());
    }
    while i < to
        invariant
            from <= i <= to,
            to <= text@.len(),
            to - from <= 6,
            numeral(text@.subrange(from as int, i as int)),
            value == value_of(text@.subrange(from as int, i as int)),
            value < bound,
            (i - from == 0 && bound == 1) || (i - from == 1 && bound == 10) || (i - from == 2
                && bound == 100) || (i - from == 3 && bound == 1000) || (i - from == 4 && bound
                == 10_000) || (i - from == 5 && bound == 100_000) || (i - from == 6 && bound
                == 1_000_000),
        decreases to - i,
    {
        let ghost done = text@.subrange(from as int, i as int);
        let ghost next = text@.subrange(from as int, i + 1);
        proof {
            assert(next.drop_last() =~= done);
            assert(next.last() == text@[i as int]);
        }
        match digit_of(text[i]) {
            Some(d) => {
                value = value * 10 + d;
                bound = bound * 10;
                proof {
                    assert forall|k: int| 0 <= k < next.len() implies '0' <= #[trigger] next[k]
                        && next[k] <= '9' by {
                        if k < done.len() {
                            assert(next[k] == done[k]);
                        }
                    }
                }
            },
            None => {
                proof {
                    let whole = text@.subrange(from as int, to as int);
                    assert(whole[i - from] == text@[i as int]);
                }
                return None;
            },
        }
        i += 1;
    }
    Some(value)
}

fn parse_unsigned(text: &Vec<char>, from: usize, to: usize) -> (value: Option<u32>)
    requires
        from <= to <= text@.len(),
    ensures
        match value {
            Some(v) => unsigned_hundredths(text@.subrange(from as int, to as int)) == Some(
                v as nat,
            ) && v < 100_000_000,
            None => unsigned_hundredths(text@.subrange(from as int, to as int)) is None,
        },
{
    let ghost body = text@.subrange(from as int, to as int);
    let mut dot: usize = from;
    proof {
        reveal_strlit(".");
        lemma_find_from(body, "."@, 0);
    }
    while dot < to && text[dot] != '.'
        invariant
            from <= dot <= to,
            to <= text@.len(),
            body == text@.subrange(from as int, to as int),
            forall|k: int| 0 <= k < dot - from ==> !matches_at(body, "."@, k),
        decreases to - dot,
    {
        proof {
            reveal_strlit(".");
            let k = dot - from;
            assert(body[k] == text@[dot as int]);
            if matches_at(body, "."@, k) {
                assert(body.subrange(k, k + 1)[0] == "."@[0]);
            }
        }
        dot += 1;
    }
    let pointed = dot < to;
    proof {
        if pointed {
            let k = dot - from;
            assert(body[k] == '.');
            assert(body.subrange(k, k + 1) =~= "."@);
            assert(matches_at(body, "."@, k));
            assert(find_from(body, "."@, 0) == Some(k));
            assert(whole_part(body) =~= text@.subrange(from as int, dot as int));
            assert(fraction_part(body) =~= text@.subrange(dot + 1, to as int));
        } else {
            assert forall|k: int| 0 <= k implies !matches_at(body, "."@, k) by {
                if k < body.len() {
                    assert(!matches_at(body, "."@, k));
                }
            }
            assert(find_from(body, "."@, 0) is None);
            assert(whole_part(body) =~= text@.subrange(from as int, dot as int));
            assert(fraction_part(body) =~= Seq::<char>::empty());
        }
    }
    if dot == from || dot - from > 6 {
        return None;
    }
    let whole = match parse_digits(text, from, dot) {
        Some(w) => w,
        None => {
            return None;
        },
    };
    if !pointed {
        return Some(whole * 100);
    }
    let start = dot + 1;
    let width = to - start;
    if width == 0 || width > 2 {
        return None;
    }
    let fraction = match parse_digits(text, start, to) {
        Some(f) => f,
        None => {
            return None;
        },
    };
    proof {
        lemma_small_digits(text@.subrange(start as int, to as int));
    }
    if width == 1 {
        Some(whole * 100 + fraction * 10)
    } else {
        Some(whole * 100 + fraction)
    }
}

/// One digit denotes less than ten, two digits less than a hundred.
pub proof fn lemma_small_digits(text: Seq<char>)
    requires
        numeral(text),
        text.len() <= 2,
    ensures
        text.len() == 1 ==> value_of(text) < 10,
        value_of(text) < 100,
{
    if text.len() == 1 {
        assert('0' <= text[0] && text[0] <= '9');
        assert(text.last() == text[0]);
        assert(value_of(text.drop_last()) == 0);
    } else if text.len() == 2 {
        assert('0' <= text[0] && text[0] <= '9');
        assert('0' <= text[1] && text[1] <= '9');
        let first = text.drop_last();
        assert(first[0] == text[0]);
        assert(first.last() == first[0]);
        assert(value_of(first.drop_last()) == 0);
        assert(value_of(first) < 10);
        assert(text.last() == text[1]);
    }
}

/// Reads a level in hundredths from a numeral: an optional minus sign, one
/// to six digits, and, if anything follows, a point and one or two digits.
pub fn parse_level(text: &Vec<char>, from: usize, to: usize) -> (value: Option<i32>)
    requires
        from <= to <= text@.len(),
    ensures
        match value {
            Some(v) => hundredths(text@.subrange(from as int, to as int)) == Some(v as int),
            None => hundredths(text@.subrange(from as int, to as int)) is None,
        },
{
    let ghost body = text@.subrange(from as int, to as int);
    if from < to && text[from] == '-' {
        proof {
            assert(body[0] == '-');
            assert(body.skip(1) =~= text@.subrange(from + 1, to as int));
        }
        match parse_unsigned(text, from + 1, to) {
            Some(magnitude) => Some(-(magnitude as i32)),
            None => None,
        }
    } else {
        proof {
            if from < to {
                assert(body[0] == text@[from as int]);
            }
        }
        match parse_unsigned(text, from, to) {
            Some(magnitude) => Some(magnitude as i32),
            None => None,
        }
    }
}

fn find_level(report: &Vec<char>, key: &str) -> (level: Option<i32>)
    ensures
        match level {
            Some(v) => reported_level(report@, key@) == Some(v as int),
            None => reported_level(report@, key@) is None,
        },
{
    let mut name: Vec<char> = Vec::new();
    name.push('"');
    push_word(&mut name, key);
    name.push('"');
    let quote = chars_of("\"");
    proof {
        reveal_strlit("\"");
        assert(name@ =~= seq!['"'] + key@ + seq!['"']);
        assert(quote@ == "\""@);
        lemma_find_from(report@, name@, 0);
    }
    let n = report.len();
    let at = match find(report, &name, 0) {
        Some(at) => at,
        None => {
            return None;
        },
    };
    proof {
        lemma_find_from(report@, "\""@, at + name@.len());
    }
    let open = match find(report, &quote, at + name.len()) {
        Some(open) => open,
        None => {
            return None;
        },
    };
    proof {
        lemma_find_from(report@, "\""@, open + 1);
    }
    let close = match find(report, &quote, open + 1) {
        Some(close) => close,
        None => {
            return None;
        },
    };
    parse_level(report, open + 1, close)
}

/// Reads what the analysis of the filter tool reports: the integrated
/// loudness under `input_i` and the true peak under `input_tp`, each as a
/// numeral in quotation marks. A report that lacks either is an error.
pub fn parse_measurement(report: &str) -> (measured: Result<Measurement, Error>)
    ensures
        match measured {
            Ok(m) => reported(report@) == Some(m),
            Err(e) => reported(report@) is None && e is InvalidInput && e.message()
                == analysis_failure(),
        },
{
    let chars = chars_of(report);
    let loudness = find_level(&chars, "input_i");
    let true_peak = find_level(&chars, "input_tp");
    match (loudness, true_peak) {
        (Some(loudness), Some(true_peak)) => Ok(Measurement { loudness, true_peak }),
        _ => Err(Error::InvalidInput(String::from_str("Failed to parse loudness analysis"))),
    }
}


/// What is to be done before the filter is known.
#[derive(Debug)]
pub enum PrenormStep {
    /// Nothing: this is the filter.
    Ready(Prenorm),
    /// The filter tool is to be run with these arguments, and what it
    /// reports is to be handed to `after_analysis`.
    Measure(Vec<String>),
}

impl InputNormalization {
    /// The first step toward the filter for `input_file`: in the full mode
    /// the filter is known at once; in the boost-only mode the input has to
    /// be measured.
    pub fn prepare(&self, input_file: &str) -> (step: PrenormStep)
        ensures
            self.mode == NormalizationMode::Full ==> (step matches PrenormStep::Ready(filter)
                && filter == loudnorm_for(*self)),
            self.mode == NormalizationMode::BoostOnly ==> (step matches PrenormStep::Measure(
                args,
            ) && args.deep_view() == analysis_args(input_file@, *self)),
    {
        match self.mode {
            NormalizationMode::Full => PrenormStep::Ready(self.loudnorm()),
            NormalizationMode::BoostOnly => PrenormStep::Measure(
                self.analysis_arguments(input_file),
            ),
        }
    }

    /// The filter of the boost-only mode, from what the analysis reported.
    /// A report that cannot be read is an error, and no filter is chosen.
    pub fn after_analysis(&self, report: &str) -> (filter: Result<Prenorm, Error>)
        ensures
            match filter {
                Ok(f) => reported(report@) matches Some(m) && f == boost_for(*self, m),
                Err(e) => reported(report@) is None && e is InvalidInput && e.message()
                    == analysis_failure(),
            },
    {
        match parse_measurement(report) {
            Ok(measured) => Ok(self.boost(&measured)),
            Err(e) => Err(e),
        }
    }
}

/// The gain of the boost-only mode never lowers the input, never raises it
/// past the target loudness, and never carries its true peak past the
/// target true peak.
pub proof fn lemma_boost_is_capped(targets: InputNormalization, measured: Measurement)
    ensures
        boost_for(targets, measured) matches Prenorm::Boost(gain) ==> {
            &&& gain > 0
            &&& measured.loudness + gain <= targets.target_loudness
            &&& measured.true_peak + gain <= targets.true_peak
        },
        boost_for(targets, measured) is PassThrough <==> boost_gain(targets, measured)
            < MIN_BOOST,
{
}


} // verus!
