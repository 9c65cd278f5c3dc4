//! The compositor: once per tick it takes one frame from every stream,
//! adds the frames with saturation, drops the streams that are spent, and
//! prepares the frame for the encoder.

use vstd::prelude::*;

use crate::audio::normalizer::{stepped, with_gain, VolumeNormalizer, FLOOR_GAIN};
use crate::audio::sample::{
    add_saturating, saturating_add, scale_rounded, scaled_rounded,
};

verus! {

/// Samples per second and channel.
pub const SAMPLE_RATE: usize = 48000;

/// Channels of the interleaved signal.
pub const CHANNELS: usize = 2;

/// Samples of one frame, both channels together.
pub const FRAME_SAMPLES: usize = 960 * CHANNELS;

/// Length of one frame in milliseconds.
pub const FRAME_SIZE_MS: u64 = 20;

/// The sequence counter advances by this much with every frame.
pub const SEQUENCE_STEP: u32 = 2;

/// One sound that is being played: the samples not yet mixed, and whether
/// its source has ended.
#[derive(Debug)]
pub struct AudioStream {
    pub id: u64,
    pub buffer: Vec<i16>,
    pub finished: bool,
}

/// What a stream holds.
pub struct StreamState {
    pub id: u64,
    pub samples: Seq<i16>,
    pub finished: bool,
}

impl View for AudioStream {
    type V = StreamState;

    open spec fn view(&self) -> StreamState {
        StreamState { id: self.id, samples: self.buffer@, finished: self.finished }
    }
}

/// The sample that two bytes encode, least significant byte first.
pub open spec fn le_sample(lo: u8, hi: u8) -> i16 {
    let value = lo as int + 256 * (hi as int);
    if value >= 32768 {
        (value - 65536) as i16
    } else {
        value as i16
    }
}

/// The samples that `bytes` encode: one for every complete pair of bytes.
/// A last byte without a partner is left out.
pub open spec fn pcm_samples(bytes: Seq<u8>) -> Seq<i16> {
    Seq::new(bytes.len() / 2, |i: int| le_sample(bytes[2 * i], bytes[2 * i + 1]))
}

/// A frame of silence.
pub open spec fn silence() -> Seq<i16> {
    Seq::new(FRAME_SAMPLES as nat, |i: int| 0i16)
}

/// The first frame of `samples`, filled up with zeros where they end early.
pub open spec fn padded(samples: Seq<i16>) -> Seq<i16> {
    Seq::new(
        FRAME_SAMPLES as nat,
        |i: int|
            if i < samples.len() {
                samples[i]
            } else {
                0i16
            },
    )
}

/// `frame` added to `mixed`, sample by sample, with saturation.
pub open spec fn mix_in(mixed: Seq<i16>, frame: Seq<i16>) -> Seq<i16> {
    Seq::new(FRAME_SAMPLES as nat, |i: int| add_saturating(mixed[i], frame[i]))
}

/// The frames added one after another to a frame of silence.
pub open spec fn mixdown(frames: Seq<Seq<i16>>) -> Seq<i16>
    decreases frames.len(),
{
    if frames.len() == 0 {
        silence()
    } else {
        mix_in(mixdown(frames.drop_last()), frames.last())
    }
}

/// `samples` with the volume applied: each multiplied by the ratio,
/// rounded to the nearest sample and saturated.
pub open spec fn with_volume(samples: Seq<i16>, volume: u32) -> Seq<i16> {
    Seq::new(samples.len(), |i: int| scale_rounded(samples[i], volume))
}

impl StreamState {
    /// Whether the stream adds a frame to this tick: it holds a full frame,
    /// or it has ended and holds a rest.
    pub open spec fn contributes(self) -> bool {
        self.samples.len() >= FRAME_SAMPLES || (self.finished && self.samples.len() > 0)
    }

    /// The frame that the stream adds: its first samples, filled up with
    /// zeros when it has ended with less than a frame.
    pub open spec fn next_frame(self) -> Seq<i16> {
        padded(self.samples)
    }

    /// Whether the stream stays registered: it held a full frame, or its
    /// source has not ended.
    pub open spec fn survives(self) -> bool {
        self.samples.len() >= FRAME_SAMPLES || !self.finished
    }

    /// The stream after the tick: a full frame is taken from the front; the
    /// rest of an ended stream is taken whole; a stream that waits for more
    /// keeps what it has.
    pub open spec fn after_tick(self) -> StreamState {
        StreamState {
            id: self.id,
            samples: if self.samples.len() >= FRAME_SAMPLES {
                self.samples.skip(FRAME_SAMPLES as int)
            } else if self.finished {
                Seq::empty()
            } else {
                self.samples
            },
            finished: self.finished,
        }
    }
}

/// Whether the stream at `index` is held by its producer and left alone for
/// this tick.
pub open spec fn skipped(busy: Seq<bool>, index: int) -> bool {
    0 <= index < busy.len() && busy[index]
}

/// The frames that the streams add in one tick, in the order of the
/// registry.
pub open spec fn frames(streams: Seq<StreamState>, busy: Seq<bool>) -> Seq<Seq<i16>>
    decreases streams.len(),
{
    if streams.len() == 0 {
        Seq::empty()
    } else {
        let last = streams.len() - 1;
        let before = frames(streams.drop_last(), busy);
        if !skipped(busy, last) && streams[last].contributes() {
            before.push(streams[last].next_frame())
        } else {
            before
        }
    }
}

/// The registry after one tick: a stream that was skipped is unchanged, a
/// stream that survives has given its frame, the others are gone.
pub open spec fn survivors(streams: Seq<StreamState>, busy: Seq<bool>) -> Seq<StreamState>
    decreases streams.len(),
{
    if streams.len() == 0 {
        Seq::empty()
    } else {
        let last = streams.len() - 1;
        let before = survivors(streams.drop_last(), busy);
        if skipped(busy, last) {
            before.push(streams[last])
        } else if streams[last].survives() {
            before.push(streams[last].after_tick())
        } else {
            before
        }
    }
}

/// The counter after a frame: two more, starting over past the largest
/// value.
pub open spec fn next_sequence(seq: u32) -> u32 {
    ((seq + SEQUENCE_STEP) % 0x1_0000_0000) as u32
}

/// The states of the streams of a registry.
pub open spec fn states(streams: Seq<AudioStream>) -> Seq<StreamState> {
    Seq::new(streams.len(), |i: int| streams[i]@)
}

/// Whether the identifiers grow along the registry and stay below `limit`.
pub open spec fn ids_ascend(streams: Seq<StreamState>, limit: u64) -> bool {
    &&& forall|i: int, j: int|
        0 <= i < j < streams.len() ==> (#[trigger] streams[i]).id < (#[trigger] streams[j]).id
    &&& forall|i: int| 0 <= i < streams.len() ==> (#[trigger] streams[i]).id < limit
}

/// The position of the stream `id`, if it is registered.
pub open spec fn position(streams: Seq<StreamState>, id: u64) -> Option<int> {
    if exists|i: int| 0 <= i < streams.len() && (#[trigger] streams[i]).id == id {
        Some(choose|i: int| 0 <= i < streams.len() && (#[trigger] streams[i]).id == id)
    } else {
        None
    }
}

/// Decodes raw samples: signed 16-bit, least significant byte first.
pub fn samples_from_bytes(chunk: &[u8]) -> (samples: Vec<i16>)
    ensures
        samples@ == pcm_samples(chunk@),
{
    let length: usize = chunk.len();
    let count: usize = length / 2;
    let mut samples: Vec<i16> = Vec::new();
    let mut i: usize = 0;
    while i < count
        invariant
            i <= count,
            length == chunk@.len(),
            count == length / 2,
            samples@.len() == i,
            forall|k: int| 0 <= k < i ==> samples@[k] == le_sample(chunk@[2 * k], chunk@[2 * k + 1]),
        decreases count - i,
    {
        let lo: u16 = chunk[2 * i] as u16;
        let hi: u16 = chunk[2 * i + 1] as u16;
        let value: u16 = lo + 256 * hi;
        let sample: i16 = if value >= 32768 {
            ((value as i32) - 65536) as i16
        } else {
            value as i16
        };
        samples.push(sample);
        i += 1;
    }
    proof {
        assert(samples@ =~= pcm_samples(chunk@));
    }
    samples
}

impl AudioStream {
    /// A stream without samples whose source has not ended.
    pub fn new(id: u64) -> (stream: Self)
        ensures
            stream@ == (StreamState { id, samples: Seq::empty(), finished: false }),
    {
        AudioStream { id, buffer: Vec::new(), finished: false }
    }

    /// Takes in a chunk of raw samples as it arrives from the source.
    pub fn append(&mut self, chunk: &[u8])
        ensures
            final(self)@ == (StreamState {
                id: old(self).id,
                samples: old(self).buffer@ + pcm_samples(chunk@),
                finished: old(self).finished,
            }),
    {
        let mut samples = samples_from_bytes(chunk);
        self.buffer.append(&mut samples);
    }

    /// Records that the source has ended.
    pub fn finish(&mut self)
        ensures
            final(self)@ == (StreamState {
                id: old(self).id,
                samples: old(self).buffer@,
                finished: true,
            }),
    {
        self.finished = true;
    }
}

/// What a stream did in a tick.
#[derive(Debug, Clone, Copy, PartialEq, Eq, Structural)]
pub struct StreamTick {
    /// It added a frame to the mix.
    pub active: bool,
    /// It stays registered.
    pub keep: bool,
}

/// Lets one stream take part in a tick: adds its next frame to `mixed`, if
/// it has one to give, and takes the samples of that frame from the stream.
pub fn mix_stream(mixed: &mut Vec<i16>, stream: &mut AudioStream) -> (done: StreamTick)
    requires
        old(mixed)@.len() == FRAME_SAMPLES,
    ensures
        done.active == old(stream)@.contributes(),
        done.keep == old(stream)@.survives(),
        final(stream)@ == old(stream)@.after_tick(),
        final(mixed)@ == if done.active {
            mix_in(old(mixed)@, old(stream)@.next_frame())
        } else {
            old(mixed)@
        },
{
    let held = stream.buffer.len();
    let full = held >= FRAME_SAMPLES;
    let active = full || (stream.finished && held > 0);
    if active {
        let mut i: usize = 0;
        while i < FRAME_SAMPLES
            invariant
                i <= FRAME_SAMPLES,
                mixed@.len() == FRAME_SAMPLES,
                stream.buffer@ == old(stream).buffer@,
                held == stream.buffer@.len(),
                forall|k: int|
                    0 <= k < i ==> mixed@[k] == add_saturating(
                        old(mixed)@[k],
                        padded(stream.buffer@)[k],
                    ),
                forall|k: int| i <= k < FRAME_SAMPLES ==> mixed@[k] == old(mixed)@[k],
            decreases FRAME_SAMPLES - i,
        {
            let sample: i16 = if i < held {
                stream.buffer[i]
            } else {
                0
            };
            let sum = saturating_add(mixed[i], sample);
            mixed[i] = sum;
            i += 1;
        }
        proof {
            assert(mixed@ =~= mix_in(old(mixed)@, old(stream)@.next_frame()));
        }
    }
    if full {
        let rest = stream.buffer.split_off(FRAME_SAMPLES);
        stream.buffer = rest;
        proof {
            assert(stream.buffer@ =~= old(stream).buffer@.skip(FRAME_SAMPLES as int));
        }
    } else if stream.finished {
        stream.buffer.clear();
    }
    StreamTick { active, keep: full || !stream.finished }
}

/// Applies the volume to every sample of a frame: multiplies by the ratio,
/// rounds to the nearest sample and saturates.
pub fn apply_volume(samples: &mut Vec<i16>, volume: u32)
    ensures
        final(samples)@ == with_volume(old(samples)@, volume),
{
    let mut i: usize = 0;
    while i < samples.len()
        invariant
            i <= samples@.len(),
            samples@.len() == old(samples)@.len(),
            forall|k: int| 0 <= k < i ==> samples@[k] == scale_rounded(old(samples)@[k], volume),
            forall|k: int| i <= k < samples@.len() ==> samples@[k] == old(samples)@[k],
        decreases samples@.len() - i,
    {
        let scaled = scaled_rounded(samples[i], volume);
        samples[i] = scaled;
        i += 1;
    }
    proof {
        assert(samples@ =~= with_volume(old(samples)@, volume));
    }
}

/// The frame that a tick hands to the encoder: the mix with the gain of
/// the normaliser, where there is one, and then the volume applied.
pub open spec fn finished_frame(
    mix: Seq<i16>,
    normalizer: Option<VolumeNormalizer>,
    volume: u32,
) -> Seq<i16> {
    match normalizer {
        Some(n) => with_volume(with_gain(mix, n.gain()), volume),
        None => with_volume(mix, volume),
    }
}

/// The registry of streams together with the state of the compositor.
pub struct AudioMixer {
    streams: Vec<AudioStream>,
    next_id: u64,
    seq: u32,
    mixed: Vec<i16>,
    volume: u32,
    normalizer: Option<VolumeNormalizer>,
}

impl AudioMixer {
    /// The registered streams, in the order of their registration.
    pub closed spec fn streams(&self) -> Seq<StreamState> {
        states(self.streams@)
    }

    /// The identifier that the next stream will get.
    pub closed spec fn next_id(&self) -> u64 {
        self.next_id
    }

    /// The sequence number of the last frame.
    pub closed spec fn sequence(&self) -> u32 {
        self.seq
    }

    /// The frame buffer.
    pub closed spec fn frame(&self) -> Seq<i16> {
        self.mixed@
    }

    /// The volume ratio, in 65536ths.
    pub closed spec fn volume(&self) -> u32 {
        self.volume
    }

    /// The normaliser, if normalisation is enabled.
    pub closed spec fn normalizer(&self) -> Option<VolumeNormalizer> {
        self.normalizer
    }

    /// What holds of every mixer: the frame buffer has the length of a
    /// frame, the identifiers grow along the registry and none is as large
    /// as the next one to be given, and the normaliser is sound.
    pub closed spec fn wf(&self) -> bool {
        &&& self.mixed@.len() == FRAME_SAMPLES
        &&& ids_ascend(states(self.streams@), self.next_id)
        &&& self.normalizer matches Some(n) ==> n.wf()
    }

    /// A mixer without streams. `volume` is the ratio, in 65536ths, by
    /// which every frame is scaled; normalisation is enabled by giving a
    /// normaliser.
    pub fn new(volume: u32, normalizer: Option<VolumeNormalizer>) -> (mixer: Self)
        requires
            normalizer matches Some(n) ==> n.wf(),
        ensures
            mixer.wf(),
            mixer.streams() == Seq::<StreamState>::empty(),
            mixer.next_id() == 0,
            mixer.sequence() == 0,
            mixer.frame() == silence(),
            mixer.volume() == volume,
            mixer.normalizer() == normalizer,
    {
        let mut mixed: Vec<i16> = Vec::new();
        let mut i: usize = 0;
        while i < FRAME_SAMPLES
            invariant
                i <= FRAME_SAMPLES,
                mixed@.len() == i,
                forall|k: int| 0 <= k < i ==> mixed@[k] == 0i16,
            decreases FRAME_SAMPLES - i,
        {
            mixed.push(0);
            i += 1;
        }
        let mixer = AudioMixer {
            streams: Vec::new(),
            next_id: 0,
            seq: 0,
            mixed,
            volume,
            normalizer,
        };
        proof {
            assert(mixer.mixed@ =~= silence());
            assert(states(mixer.streams@) =~= Seq::<StreamState>::empty());
        }
        mixer
    }

    /// How many streams are registered.
    pub fn stream_count(&self) -> (count: usize)
        ensures
            count == self.streams().len(),
    {
        self.streams.len()
    }

    /// The sequence number of the last frame.
    pub fn last_sequence(&self) -> (seq: u32)
        ensures
            seq == self.sequence(),
    {
        self.seq
    }

    /// The frame buffer: after a tick that emits, the frame to encode.
    pub fn mixed(&self) -> (frame: &Vec<i16>)
        ensures
            frame@ == self.frame(),
    {
        &self.mixed
    }

    /// The state of the stream at `index`: its identifier, the number of
    /// samples it holds, and whether its source has ended.
    pub fn stream_at(&self, index: usize) -> (state: Option<(u64, usize, bool)>)
        ensures
            index >= self.streams().len() ==> state is None,
            index < self.streams().len() ==> state == Some(
                (
                    self.streams()[index as int].id,
                    self.streams()[index as int].samples.len() as usize,
                    self.streams()[index as int].finished,
                ),
            ),
    {
        if index < self.streams.len() {
            let stream = &self.streams[index];
            Some((stream.id, stream.buffer.len(), stream.finished))
        } else {
            None
        }
    }

    /// Registers a new stream, empty and not ended, behind the others and
    /// returns its identifier, which no stream had before. Nothing is
    /// registered once every identifier has been given out.
    pub fn play(&mut self) -> (id: Option<u64>)
        requires
            old(self).wf(),
        ensures
            final(self).wf(),
            final(self).sequence() == old(self).sequence(),
            final(self).frame() == old(self).frame(),
            final(self).volume() == old(self).volume(),
            final(self).normalizer() == old(self).normalizer(),
            id is Some <==> old(self).next_id() < u64::MAX,
            id matches Some(given) ==> {
                &&& given == old(self).next_id()
                &&& final(self).next_id() == given + 1
                &&& final(self).streams() == old(self).streams().push(
                    StreamState { id: given, samples: Seq::empty(), finished: false },
                )
            },
            id is None ==> final(self).streams() == old(self).streams() && final(self).next_id()
                == old(self).next_id(),
    {
        if self.next_id == u64::MAX {
            return None;
        }
        let id = self.next_id;
        self.streams.push(AudioStream::new(id));
        self.next_id = id + 1;
        proof {
            assert(states(self.streams@) =~= states(old(self).streams@).push(
                StreamState { id, samples: Seq::empty(), finished: false },
            ));
        }
        Some(id)
    }

    fn find(&self, id: u64) -> (found: Option<usize>)
        ensures
            found matches Some(i) ==> i < self.streams@.len() && self.streams@[i as int].id == id,
            found is None ==> forall|i: int|
                0 <= i < self.streams@.len() ==> (#[trigger] self.streams@[i]).id != id,
    {
        let mut i: usize = 0;
        while i < self.streams.len()
            invariant
                i <= self.streams@.len(),
                forall|k: int| 0 <= k < i ==> (#[trigger] self.streams@[k]).id != id,
            decreases self.streams@.len() - i,
        {
            if self.streams[i].id == id {
                return Some(i);
            }
            i += 1;
        }
        None
    }

    /// Hands a chunk of raw samples to the stream `id`. The samples that the
    /// chunk encodes are put behind those the stream holds. Returns whether
    /// the stream is registered; if it is not, nothing changes.
    pub fn ingest(&mut self, id: u64, chunk: &[u8]) -> (known: bool)
        requires
            old(self).wf(),
        ensures
            final(self).wf(),
            final(self).next_id() == old(self).next_id(),
            final(self).sequence() == old(self).sequence(),
            final(self).frame() == old(self).frame(),
            final(self).volume() == old(self).volume(),
            final(self).normalizer() == old(self).normalizer(),
            known == (position(old(self).streams(), id) is Some),
            !known ==> final(self).streams() == old(self).streams(),
            known ==> ({
                let at = position(old(self).streams(), id)->Some_0;
                let before = old(self).streams()[at];
                final(self).streams() == old(self).streams().update(
                    at,
                    StreamState {
                        id,
                        samples: before.samples + pcm_samples(chunk@),
                        finished: before.finished,
                    },
                )
            }),
    {
        let ghost before = states(self.streams@);
        match self.find(id) {
            Some(i) => {
                proof {
                    assert(before[i as int].id == id);
                    lemma_position_unique(before, self.next_id, i as int);
                }
                let mut samples = samples_from_bytes(chunk);
                self.streams[i].buffer.append(&mut samples);
                proof {
                    assert(states(self.streams@) =~= before.update(
                        i as int,
                        StreamState {
                            id,
                            samples: before[i as int].samples + pcm_samples(chunk@),
                            finished: before[i as int].finished,
                        },
                    ));
                    lemma_update_keeps_ids(before, self.next_id, i as int, states(self.streams@));
                }
                true
            },
            None => {
                proof {
                    assert forall|i: int| 0 <= i < before.len() implies (#[trigger] before[i]).id
                        != id by {
                        assert(self.streams@[i].id != id);
                    }
                }
                false
            },
        }
    }

    /// Records that the source of the stream `id` has ended. Returns whether
    /// the stream is registered; if it is not, nothing changes.
    pub fn finish(&mut self, id: u64) -> (known: bool)
        requires
            old(self).wf(),
        ensures
            final(self).wf(),
            final(self).next_id() == old(self).next_id(),
            final(self).sequence() == old(self).sequence(),
            final(self).frame() == old(self).frame(),
            final(self).volume() == old(self).volume(),
            final(self).normalizer() == old(self).normalizer(),
            known == (position(old(self).streams(), id) is Some),
            !known ==> final(self).streams() == old(self).streams(),
            known ==> ({
                let at = position(old(self).streams(), id)->Some_0;
                let before = old(self).streams()[at];
                final(self).streams() == old(self).streams().update(
                    at,
                    StreamState { id, samples: before.samples, finished: true },
                )
            }),
    {
        let ghost before = states(self.streams@);
        match self.find(id) {
            Some(i) => {
                proof {
                    assert(before[i as int].id == id);
                    lemma_position_unique(before, self.next_id, i as int);
                }
                self.streams[i].finished = true;
                proof {
                    assert(states(self.streams@) =~= before.update(
                        i as int,
                        StreamState { id, samples: before[i as int].samples, finished: true },
                    ));
                    lemma_update_keeps_ids(before, self.next_id, i as int, states(self.streams@));
                }
                true
            },
            None => {
                proof {
                    assert forall|i: int| 0 <= i < before.len() implies (#[trigger] before[i]).id
                        != id by {
                        assert(self.streams@[i].id != id);
                    }
                }
                false
            },
        }
    }

    /// One tick of the compositor.
    ///
    /// The frame buffer is cleared. Every stream that is not `busy` gives its
    /// next frame, which is added to the buffer with saturation; the streams
    /// that are spent leave the registry. If no stream gave a frame, the
    /// tick is silent: nothing is emitted and the sequence counter stands.
    /// Otherwise the normaliser, if there is one, takes its step over the
    /// mix, the volume is applied, the counter advances by two, and the new
    /// sequence number is returned: the frame buffer then holds the frame to
    /// encode. `desired_gain` tells the normaliser which gain suits a mean
    /// power.
    pub fn tick<F: Fn(u64) -> u32>(&mut self, busy: &[bool], desired_gain: F) -> (emitted: Option<
        u32,
    >)
        requires
            old(self).wf(),
            forall|power: u64| desired_gain.requires((power,)),
        ensures
            final(self).wf(),
            final(self).next_id() == old(self).next_id(),
            final(self).volume() == old(self).volume(),
            final(self).streams() == survivors(old(self).streams(), busy@),
            emitted is Some <==> frames(old(self).streams(), busy@).len() > 0,
            old(self).normalizer() matches Some(before) ==> (FLOOR_GAIN <= before.gain()
                <= before.ceiling() ==> (final(self).normalizer() matches Some(after)
                && FLOOR_GAIN <= after.gain() <= after.ceiling())),
            emitted is None ==> {
                &&& final(self).sequence() == old(self).sequence()
                &&& final(self).normalizer() == old(self).normalizer()
                &&& final(self).frame() == silence()
            },
            emitted matches Some(sequence) ==> {
                &&& sequence == next_sequence(old(self).sequence())
                &&& final(self).sequence() == sequence
                &&& final(self).normalizer() is Some <==> old(self).normalizer() is Some
                &&& old(self).normalizer() matches Some(before) ==> stepped(
                    before,
                    final(self).normalizer()->Some_0,
                    mixdown(frames(old(self).streams(), busy@)),
                    desired_gain,
                )
                &&& final(self).frame() == finished_frame(
                    mixdown(frames(old(self).streams(), busy@)),
                    final(self).normalizer(),
                    old(self).volume(),
                )
            },
    {
        let mut i: usize = 0;
        while i < FRAME_SAMPLES
            invariant
                i <= FRAME_SAMPLES,
                self.mixed@.len() == FRAME_SAMPLES,
                self.streams == old(self).streams,
                self.next_id == old(self).next_id,
                self.seq == old(self).seq,
                self.volume == old(self).volume,
                self.normalizer == old(self).normalizer,
                forall|k: int| 0 <= k < i ==> self.mixed@[k] == 0i16,
            decreases FRAME_SAMPLES - i,
        {
            self.mixed[i] = 0;
            i += 1;
        }
        proof {
            assert(self.mixed@ =~= silence());
        }
        let mut registered: Vec<AudioStream> = Vec::new();
        std::mem::swap(&mut registered, &mut self.streams);
        let ghost all = states(registered@);
        let ghost limit = self.next_id;
        let count = registered.len();
        let mut active: usize = 0;
        let mut index: usize = 0;
        proof {
            assert(states(self.streams@) =~= Seq::<StreamState>::empty());
            assert(all.take(0) =~= Seq::<StreamState>::empty());
        }
        for stream in it: registered
            invariant
                it.seq().len() == all.len(),
                forall|k: int| 0 <= k < all.len() ==> (#[trigger] it.seq()[k])@ == all[k],
                index == it.index(),
                all.len() == count,
                ids_ascend(all, limit),
                self.mixed@.len() == FRAME_SAMPLES,
                self.next_id == old(self).next_id,
                self.seq == old(self).seq,
                self.volume == old(self).volume,
                self.normalizer == old(self).normalizer,
                states(self.streams@) == survivors(all.take(index as int), busy@),
                self.mixed@ == mixdown(frames(all.take(index as int), busy@)),
                active == frames(all.take(index as int), busy@).len(),
                active <= index,
                ids_ascend(states(self.streams@), limit),
                forall|k: int, j: int|
                    0 <= k < self.streams@.len() && index <= j < all.len() ==> (
                    #[trigger] self.streams@[k]).id < (#[trigger] all[j]).id,
        {
            let mut stream = stream;
            let ghost state = stream@;
            let ghost kept_before = states(self.streams@);
            proof {
                assert(state == all[index as int]);
                assert(all.take(index + 1).drop_last() =~= all.take(index as int));
                assert(all.take(index + 1).last() == state);
                assert forall|k: int, j: int|
                    0 <= k < kept_before.len() && index <= j < all.len() implies (
                #[trigger] kept_before[k]).id < (#[trigger] all[j]).id by {
                    assert(self.streams@[k].id < all[j].id);
                }
            }
            let held = index < busy.len() && busy[index];
            if held {
                self.streams.push(stream);
                proof {
                    assert(states(self.streams@) =~= kept_before.push(state));
                }
            } else {
                let ghost given = frames(all.take(index as int), busy@);
                let done = mix_stream(&mut self.mixed, &mut stream);
                if done.active {
                    active += 1;
                    proof {
                        assert(given.push(state.next_frame()).drop_last() =~= given);
                    }
                }
                if done.keep {
                    self.streams.push(stream);
                    proof {
                        assert(states(self.streams@) =~= kept_before.push(state.after_tick()));
                    }
                }
            }
            proof {
                let kept = states(self.streams@);
                assert forall|k: int, j: int|
                    0 <= k < self.streams@.len() && index + 1 <= j < all.len() implies (
                #[trigger] self.streams@[k]).id < (#[trigger] all[j]).id by {
                    if k < kept_before.len() {
                        assert(kept[k] == kept_before[k]);
                        assert(self.streams@[k].id == kept[k].id);
                        assert(kept_before[k].id < all[j].id);
                    } else {
                        assert(self.streams@[k].id == kept[k].id);
                        assert(kept[k].id == state.id);
                        assert(all[index as int].id < all[j].id);
                    }
                }
                assert(ids_ascend(kept, limit)) by {
                    assert forall|a: int, b: int| 0 <= a < b < kept.len() implies (
                    #[trigger] kept[a]).id < (#[trigger] kept[b]).id by {
                        if b < kept_before.len() {
                            assert(kept[a] == kept_before[a]);
                            assert(kept[b] == kept_before[b]);
                        } else {
                            assert(kept[a] == kept_before[a]);
                            assert(kept[b].id == state.id);
                            assert(kept_before[a].id < all[index as int].id);
                        }
                    }
                    assert forall|a: int| 0 <= a < kept.len() implies (#[trigger] kept[a]).id
                        < limit by {
                        if a < kept_before.len() {
                            assert(kept[a] == kept_before[a]);
                        } else {
                            assert(kept[a].id == state.id);
                            assert(all[index as int].id < limit);
                        }
                    }
                }
            }
            index += 1;
        }
        proof {
            assert(all.take(all.len() as int) =~= all);
        }
        if active == 0 {
            return None;
        }
        match &mut self.normalizer {
            Some(normalizer) => {
                normalizer.process(&mut self.mixed, desired_gain);
            },
            None => {},
        }
        apply_volume(&mut self.mixed, self.volume);
        self.seq = if self.seq > u32::MAX - SEQUENCE_STEP {
            self.seq - (u32::MAX - SEQUENCE_STEP) - 1
        } else {
            self.seq + SEQUENCE_STEP
        };
        Some(self.seq)
    }

    /// Takes every stream out of the registry. What they still hold is not
    /// played.
    pub fn stop_all_streams(&mut self)
        requires
            old(self).wf(),
        ensures
            final(self).wf(),
            final(self).streams() == Seq::<StreamState>::empty(),
            final(self).next_id() == old(self).next_id(),
            final(self).sequence() == old(self).sequence(),
            final(self).frame() == old(self).frame(),
            final(self).volume() == old(self).volume(),
            final(self).normalizer() == old(self).normalizer(),
    {
        self.streams.clear();
        proof {
            assert(states(self.streams@) =~= Seq::<StreamState>::empty());
        }
    }
}

/// With identifiers that grow along the registry, a stream is found at one
/// position only.
pub proof fn lemma_position_unique(streams: Seq<StreamState>, limit: u64, at: int)
    requires
        ids_ascend(streams, limit),
        0 <= at < streams.len(),
    ensures
        position(streams, streams[at].id) == Some(at),
{
    let id = streams[at].id;
    let found = choose|i: int| 0 <= i < streams.len() && (#[trigger] streams[i]).id == id;
    if found < at {
        assert(streams[found].id < streams[at].id);
    } else if at < found {
        assert(streams[at].id < streams[found].id);
    }
}

/// Replacing what a stream holds leaves the order of identifiers alone.
pub proof fn lemma_update_keeps_ids(
    streams: Seq<StreamState>,
    limit: u64,
    at: int,
    updated: Seq<StreamState>,
)
    requires
        ids_ascend(streams, limit),
        0 <= at < streams.len(),
        updated.len() == streams.len(),
        forall|i: int| 0 <= i < streams.len() ==> (#[trigger] updated[i]).id == streams[i].id,
    ensures
        ids_ascend(updated, limit),
{
    assert forall|i: int, j: int| 0 <= i < j < updated.len() implies (#[trigger] updated[i]).id < (
    #[trigger] updated[j]).id by {
        assert(streams[i].id < streams[j].id);
    }
    assert forall|i: int| 0 <= i < updated.len() implies (#[trigger] updated[i]).id < limit by {
        assert(streams[i].id < limit);
    }
}


} // verus!
