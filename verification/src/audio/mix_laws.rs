//! What holds of the mix of a tick, whatever the streams.

use vstd::multiset::Multiset;
use vstd::prelude::*;

use crate::audio::mixer::{
    frames, ids_ascend, mixdown, next_sequence, position, silence, skipped, survivors,
    with_volume, StreamState, FRAME_SAMPLES, SEQUENCE_STEP,
};
use crate::audio::sample::{add_saturating, lemma_unity_is_identity, saturate, scale_rounded, UNITY};

verus! {

/// Whether every frame has the length of a frame.
pub open spec fn full_frames(frames: Seq<Seq<i16>>) -> bool {
    forall|i: int| 0 <= i < frames.len() ==> (#[trigger] frames[i]).len() == FRAME_SAMPLES
}

/// The absolute value of `x`.
pub open spec fn magnitude(x: int) -> int {
    if x < 0 {
        -x
    } else {
        x
    }
}

/// The sum of the samples at position `k` of all frames.
pub open spec fn column_sum(frames: Seq<Seq<i16>>, k: int) -> int
    decreases frames.len(),
{
    if frames.len() == 0 {
        0
    } else {
        column_sum(frames.drop_last(), k) + frames.last()[k]
    }
}

/// The sum of the absolute values of the samples at position `k`.
pub open spec fn column_magnitude(frames: Seq<Seq<i16>>, k: int) -> int
    decreases frames.len(),
{
    if frames.len() == 0 {
        0
    } else {
        column_magnitude(frames.drop_last(), k) + magnitude(frames.last()[k] as int)
    }
}

/// Whether the samples at position `k` are all of one sign.
pub open spec fn one_sided(frames: Seq<Seq<i16>>, k: int) -> bool {
    ||| forall|i: int| 0 <= i < frames.len() ==> (#[trigger] frames[i])[k] >= 0
    ||| forall|i: int| 0 <= i < frames.len() ==> (#[trigger] frames[i])[k] <= 0
}

/// Whether no order of adding the samples at position `k` can leave the
/// range of a sample on the way and come back into it: they are of one
/// sign, or even their absolute values together stay in the range.
pub open spec fn order_free(frames: Seq<Seq<i16>>, k: int) -> bool {
    one_sided(frames, k) || column_magnitude(frames, k) <= 32767
}

/// The mix has the length of a frame.
pub proof fn lemma_mixdown_len(frames: Seq<Seq<i16>>)
    ensures
        mixdown(frames).len() == FRAME_SAMPLES,
    decreases frames.len(),
{
    if frames.len() > 0 {
        lemma_mixdown_len(frames.drop_last());
    }
}

proof fn lemma_magnitude_bounds_sum(frames: Seq<Seq<i16>>, k: int)
    ensures
        -column_magnitude(frames, k) <= column_sum(frames, k) <= column_magnitude(frames, k),
        0 <= column_magnitude(frames, k),
    decreases frames.len(),
{
    if frames.len() > 0 {
        lemma_magnitude_bounds_sum(frames.drop_last(), k);
    }
}

proof fn lemma_sided_sum(frames: Seq<Seq<i16>>, k: int)
    ensures
        (forall|i: int| 0 <= i < frames.len() ==> (#[trigger] frames[i])[k] >= 0) ==> column_sum(
            frames,
            k,
        ) >= 0,
        (forall|i: int| 0 <= i < frames.len() ==> (#[trigger] frames[i])[k] <= 0) ==> column_sum(
            frames,
            k,
        ) <= 0,
    decreases frames.len(),
{
    if frames.len() > 0 {
        let rest = frames.drop_last();
        lemma_sided_sum(rest, k);
        if forall|i: int| 0 <= i < frames.len() ==> (#[trigger] frames[i])[k] >= 0 {
            assert forall|i: int| 0 <= i < rest.len() implies (#[trigger] rest[i])[k] >= 0 by {
                assert(rest[i] == frames[i]);
            }
            assert(frames[frames.len() - 1][k] >= 0);
        }
        if forall|i: int| 0 <= i < frames.len() ==> (#[trigger] frames[i])[k] <= 0 {
            assert forall|i: int| 0 <= i < rest.len() implies (#[trigger] rest[i])[k] <= 0 by {
                assert(rest[i] == frames[i]);
            }
            assert(frames[frames.len() - 1][k] <= 0);
        }
    }
}

proof fn lemma_order_free_prefix(frames: Seq<Seq<i16>>, k: int)
    requires
        frames.len() > 0,
        order_free(frames, k),
    ensures
        order_free(frames.drop_last(), k),
{
    let rest = frames.drop_last();
    lemma_magnitude_bounds_sum(rest, k);
    if forall|i: int| 0 <= i < frames.len() ==> (#[trigger] frames[i])[k] >= 0 {
        assert forall|i: int| 0 <= i < rest.len() implies (#[trigger] rest[i])[k] >= 0 by {
            assert(rest[i] == frames[i]);
        }
    } else if forall|i: int| 0 <= i < frames.len() ==> (#[trigger] frames[i])[k] <= 0 {
        assert forall|i: int| 0 <= i < rest.len() implies (#[trigger] rest[i])[k] <= 0 by {
            assert(rest[i] == frames[i]);
        }
    }
}

/// Where the order of adding cannot matter, each sample of the mix is the
/// sum of the samples that the frames hold at its position, saturated once.
pub proof fn lemma_mixdown_is_saturated_sum(frames: Seq<Seq<i16>>, k: int)
    requires
        0 <= k < FRAME_SAMPLES,
        full_frames(frames),
        order_free(frames, k),
    ensures
        mixdown(frames)[k] == saturate(column_sum(frames, k)),
    decreases frames.len(),
{
    if frames.len() > 0 {
        let rest = frames.drop_last();
        let last = frames.last();
        assert(full_frames(rest)) by {
            assert forall|i: int| 0 <= i < rest.len() implies (#[trigger] rest[i]).len()
                == FRAME_SAMPLES by {
                assert(rest[i] == frames[i]);
            }
        }
        lemma_order_free_prefix(frames, k);
        lemma_mixdown_is_saturated_sum(rest, k);
        lemma_mixdown_len(rest);
        lemma_magnitude_bounds_sum(rest, k);
        lemma_magnitude_bounds_sum(frames, k);
        lemma_sided_sum(rest, k);
        assert(mixdown(frames)[k] == add_saturating(mixdown(rest)[k], last[k]));
        if forall|i: int| 0 <= i < frames.len() ==> (#[trigger] frames[i])[k] >= 0 {
            assert forall|i: int| 0 <= i < rest.len() implies (#[trigger] rest[i])[k] >= 0 by {
                assert(rest[i] == frames[i]);
            }
            assert(frames[frames.len() - 1][k] >= 0);
        } else if forall|i: int| 0 <= i < frames.len() ==> (#[trigger] frames[i])[k] <= 0 {
            assert forall|i: int| 0 <= i < rest.len() implies (#[trigger] rest[i])[k] <= 0 by {
                assert(rest[i] == frames[i]);
            }
            assert(frames[frames.len() - 1][k] <= 0);
        }
    }
}

proof fn lemma_column_remove(frames: Seq<Seq<i16>>, at: int, k: int)
    requires
        0 <= at < frames.len(),
    ensures
        column_sum(frames, k) == column_sum(frames.remove(at), k) + frames[at][k],
        column_magnitude(frames, k) == column_magnitude(frames.remove(at), k) + magnitude(
            frames[at][k] as int,
        ),
    decreases frames.len(),
{
    if at == frames.len() - 1 {
        assert(frames.remove(at) =~= frames.drop_last());
    } else {
        lemma_column_remove(frames.drop_last(), at, k);
        assert(frames.remove(at).drop_last() =~= frames.drop_last().remove(at));
        assert(frames.remove(at).last() == frames.last());
    }
}

/// The sums of a column do not depend on the order of the frames.
pub proof fn lemma_column_reordered(a: Seq<Seq<i16>>, b: Seq<Seq<i16>>, k: int)
    requires
        a.to_multiset() == b.to_multiset(),
    ensures
        column_sum(a, k) == column_sum(b, k),
        column_magnitude(a, k) == column_magnitude(b, k),
    decreases a.len(),
{
    a.to_multiset_ensures();
    b.to_multiset_ensures();
    if a.len() == 0 {
        assert(b.len() == 0);
    } else {
        let x = a.last();
        let rest = a.drop_last();
        rest.to_multiset_ensures();
        assert(a =~= rest.push(x));
        assert(a.to_multiset() =~= rest.to_multiset().insert(x));
        assert(b.to_multiset().count(x) > 0);
        assert(b.contains(x));
        let at = choose|i: int| 0 <= i < b.len() && b[i] == x;
        let others = b.remove(at);
        assert(others.to_multiset() =~= b.to_multiset().remove(x));
        assert(others.to_multiset() =~= rest.to_multiset());
        lemma_column_reordered(rest, others, k);
        lemma_column_remove(b, at, k);
    }
}

proof fn lemma_conditions_reordered(a: Seq<Seq<i16>>, b: Seq<Seq<i16>>, k: int)
    requires
        a.to_multiset() == b.to_multiset(),
        order_free(a, k),
    ensures
        order_free(b, k),
{
    a.to_multiset_ensures();
    b.to_multiset_ensures();
    lemma_column_reordered(a, b, k);
    if forall|i: int| 0 <= i < a.len() ==> (#[trigger] a[i])[k] >= 0 {
        assert forall|j: int| 0 <= j < b.len() implies (#[trigger] b[j])[k] >= 0 by {
            assert(b.contains(b[j]));
            assert(b.to_multiset().count(b[j]) > 0);
            assert(a.to_multiset().count(b[j]) > 0);
            assert(a.contains(b[j]));
            let i = choose|i: int| 0 <= i < a.len() && a[i] == b[j];
            assert(a[i][k] >= 0);
        }
    } else if forall|i: int| 0 <= i < a.len() ==> (#[trigger] a[i])[k] <= 0 {
        assert forall|j: int| 0 <= j < b.len() implies (#[trigger] b[j])[k] <= 0 by {
            assert(b.contains(b[j]));
            assert(b.to_multiset().count(b[j]) > 0);
            assert(a.to_multiset().count(b[j]) > 0);
            assert(a.contains(b[j]));
            let i = choose|i: int| 0 <= i < a.len() && a[i] == b[j];
            assert(a[i][k] <= 0);
        }
    }
}

/// The mix does not depend on the order in which the frames are added,
/// wherever no order can saturate on the way: at every position the
/// samples are of one sign, or their absolute values add up to no more than
/// the largest sample.
pub proof fn lemma_mix_order_independent(a: Seq<Seq<i16>>, b: Seq<Seq<i16>>)
    requires
        a.to_multiset() == b.to_multiset(),
        full_frames(a),
        forall|k: int| 0 <= k < FRAME_SAMPLES ==> order_free(a, k),
    ensures
        mixdown(a) == mixdown(b),
{
    a.to_multiset_ensures();
    b.to_multiset_ensures();
    assert(full_frames(b)) by {
        assert forall|j: int| 0 <= j < b.len() implies (#[trigger] b[j]).len()
            == FRAME_SAMPLES by {
            assert(b.contains(b[j]));
            assert(b.to_multiset().count(b[j]) > 0);
            assert(a.to_multiset().count(b[j]) > 0);
            assert(a.contains(b[j]));
            let i = choose|i: int| 0 <= i < a.len() && a[i] == b[j];
            assert(a[i].len() == FRAME_SAMPLES);
        }
    }
    lemma_mixdown_len(a);
    lemma_mixdown_len(b);
    assert forall|k: int| 0 <= k < FRAME_SAMPLES implies mixdown(a)[k] == mixdown(b)[k] by {
        lemma_conditions_reordered(a, b, k);
        lemma_column_reordered(a, b, k);
        lemma_mixdown_is_saturated_sum(a, k);
        lemma_mixdown_is_saturated_sum(b, k);
    }
    assert(mixdown(a) =~= mixdown(b));
}

/// The frames that a tick takes are full frames.
pub proof fn lemma_frames_are_full(streams: Seq<StreamState>, busy: Seq<bool>)
    ensures
        full_frames(frames(streams, busy)),
    decreases streams.len(),
{
    if streams.len() > 0 {
        lemma_frames_are_full(streams.drop_last(), busy);
        let before = frames(streams.drop_last(), busy);
        assert forall|i: int| 0 <= i < frames(streams, busy).len() implies (#[trigger] frames(
            streams,
            busy,
        )[i]).len() == FRAME_SAMPLES by {
            if i < before.len() {
                assert(frames(streams, busy)[i] == before[i]);
            }
        }
    }
}

/// A volume of one changes no sample of a frame.
pub proof fn lemma_unity_volume(samples: Seq<i16>)
    ensures
        with_volume(samples, UNITY) == samples,
{
    assert forall|i: int| 0 <= i < samples.len() implies scale_rounded(samples[i], UNITY)
        == samples[i] by {
        lemma_unity_is_identity(samples[i]);
    }
    assert(with_volume(samples, UNITY) =~= samples);
}

/// A stream leaves the registry only when it is spent: its source has
/// ended, it held less than a frame, and whatever it held went into the mix
/// of this tick as its last frame, filled up with zeros.
pub proof fn lemma_removed_stream_is_spent(stream: StreamState)
    requires
        !stream.survives(),
    ensures
        stream.finished,
        stream.samples.len() < FRAME_SAMPLES,
        stream.after_tick().samples.len() == 0,
        stream.samples.len() > 0 ==> stream.contributes(),
        stream.next_frame().take(stream.samples.len() as int) == stream.samples,
        forall|k: int| stream.samples.len() <= k < FRAME_SAMPLES ==> stream.next_frame()[k] == 0,
{
    assert(stream.next_frame().take(stream.samples.len() as int) =~= stream.samples);
}

/// Every stream that is registered after a tick was registered before it,
/// and was skipped or survives.
pub proof fn lemma_survivors_were_registered(
    streams: Seq<StreamState>,
    busy: Seq<bool>,
    at: int,
)
    requires
        0 <= at < survivors(streams, busy).len(),
    ensures
        exists|from: int|
            0 <= from < streams.len() && (#[trigger] streams[from]).id == survivors(
                streams,
                busy,
            )[at].id && (skipped(busy, from) || streams[from].survives()),
    decreases streams.len(),
{
    let last = streams.len() - 1;
    let rest = streams.drop_last();
    let before = survivors(rest, busy);
    if at < before.len() {
        lemma_survivors_were_registered(rest, busy, at);
        let from = choose|from: int|
            0 <= from < rest.len() && (#[trigger] rest[from]).id == before[at].id && (skipped(
                busy,
                from,
            ) || rest[from].survives());
        assert(streams[from] == rest[from]);
        assert(survivors(streams, busy)[at] == before[at]);
    } else {
        assert(streams[last].id == survivors(streams, busy)[at].id);
    }
}

/// A stream that has left the registry does not come back: neither a tick
/// nor the registration of a new stream brings its identifier back.
pub proof fn lemma_removed_stays_removed(
    streams: Seq<StreamState>,
    limit: u64,
    busy: Seq<bool>,
    id: u64,
)
    requires
        ids_ascend(streams, limit),
        id < limit,
        position(streams, id) is None,
    ensures
        position(survivors(streams, busy), id) is None,
        position(
            streams.push(StreamState { id: limit, samples: Seq::empty(), finished: false }),
            id,
        ) is None,
{
    let after = survivors(streams, busy);
    assert forall|at: int| 0 <= at < after.len() implies (#[trigger] after[at]).id != id by {
        lemma_survivors_were_registered(streams, busy, at);
    }
    let more = streams.push(StreamState { id: limit, samples: Seq::empty(), finished: false });
    assert forall|at: int| 0 <= at < more.len() implies (#[trigger] more[at]).id != id by {
        if at < streams.len() {
            assert(more[at] == streams[at]);
        }
    }
}

/// A frame advances the sequence counter by exactly two, as long as the
/// counter has room for it.
pub proof fn lemma_sequence_advances(seq: u32)
    requires
        seq + SEQUENCE_STEP <= u32::MAX,
    ensures
        next_sequence(seq) == seq + 2,
        next_sequence(seq) > seq,
{
}

/// Without frames the mix is silence.
pub proof fn lemma_silent_mix()
    ensures
        mixdown(Seq::<Seq<i16>>::empty()) == silence(),
{
}

/// The frames that the streams give when none is busy.
pub open spec fn frames_of(streams: Seq<StreamState>) -> Seq<Seq<i16>> {
    frames(streams, Seq::<bool>::empty())
}

/// What one stream adds to the frames of a tick.
pub open spec fn gift(stream: StreamState) -> Multiset<Seq<i16>> {
    if stream.contributes() {
        Multiset::singleton(stream.next_frame())
    } else {
        Multiset::empty()
    }
}

proof fn lemma_frames_without(streams: Seq<StreamState>, at: int)
    requires
        0 <= at < streams.len(),
    ensures
        frames_of(streams).to_multiset() == frames_of(streams.remove(at)).to_multiset().add(
            gift(streams[at]),
        ),
    decreases streams.len(),
{
    broadcast use vstd::multiset::group_multiset_axioms;

    let busy = Seq::<bool>::empty();
    let rest = streams.drop_last();
    let last = streams.last();
    frames_of(rest).to_multiset_ensures();
    if at == streams.len() - 1 {
        assert(streams.remove(at) =~= rest);
        if last.contributes() {
            assert(frames_of(streams) == frames_of(rest).push(last.next_frame()));
            assert(frames_of(streams).to_multiset() =~= frames_of(rest).to_multiset().insert(
                last.next_frame(),
            ));
        }
        assert(frames_of(streams).to_multiset() =~= frames_of(rest).to_multiset().add(
            gift(streams[at]),
        ));
    } else {
        lemma_frames_without(rest, at);
        let shorter = streams.remove(at);
        assert(shorter.drop_last() =~= rest.remove(at));
        assert(shorter.last() == last);
        frames_of(rest.remove(at)).to_multiset_ensures();
        if last.contributes() {
            assert(frames_of(streams) == frames_of(rest).push(last.next_frame()));
            assert(frames_of(shorter) == frames_of(rest.remove(at)).push(last.next_frame()));
        } else {
            assert(frames_of(streams) == frames_of(rest));
            assert(frames_of(shorter) == frames_of(rest.remove(at)));
        }
        assert(frames_of(streams).to_multiset() =~= frames_of(shorter).to_multiset().add(
            gift(streams[at]),
        ));
    }
}

/// The frames of a tick are the same, up to their order, in whichever
/// order the streams are registered.
pub proof fn lemma_frames_reordered(a: Seq<StreamState>, b: Seq<StreamState>)
    requires
        a.to_multiset() == b.to_multiset(),
    ensures
        frames_of(a).to_multiset() == frames_of(b).to_multiset(),
    decreases a.len(),
{
    broadcast use vstd::multiset::group_multiset_axioms;

    a.to_multiset_ensures();
    b.to_multiset_ensures();
    if a.len() == 0 {
        assert(b.len() == 0);
    } else {
        let x = a.last();
        let rest = a.drop_last();
        rest.to_multiset_ensures();
        assert(a =~= rest.push(x));
        assert(a.to_multiset() =~= rest.to_multiset().insert(x));
        assert(b.to_multiset().count(x) > 0);
        assert(b.contains(x));
        let at = choose|i: int| 0 <= i < b.len() && b[i] == x;
        let others = b.remove(at);
        assert(others.to_multiset() =~= b.to_multiset().remove(x));
        assert(others.to_multiset() =~= rest.to_multiset());
        lemma_frames_reordered(rest, others);
        lemma_frames_without(b, at);
        lemma_frames_without(a, a.len() - 1);
        assert(a.remove(a.len() - 1) =~= rest);
    }
}

/// The mix of a tick does not depend on the order in which the streams were
/// registered, wherever no order of adding can saturate on the way: at
/// every position the samples of the frames are of one sign, or their
/// absolute values add up to no more than the largest sample.
pub proof fn lemma_tick_order_independent(a: Seq<StreamState>, b: Seq<StreamState>)
    requires
        a.to_multiset() == b.to_multiset(),
        forall|k: int| 0 <= k < FRAME_SAMPLES ==> order_free(frames_of(a), k),
    ensures
        mixdown(frames_of(a)) == mixdown(frames_of(b)),
{
    lemma_frames_reordered(a, b);
    lemma_frames_are_full(a, Seq::<bool>::empty());
    lemma_mix_order_independent(frames_of(a), frames_of(b));
}

/// Wherever no order of adding can saturate on the way, the mix of a tick
/// holds at each position the sum of what the streams give there,
/// saturated: the streams that are not busy give their next frame, filled
/// up with zeros where a stream ends with less.
pub proof fn lemma_tick_is_saturated_sum(streams: Seq<StreamState>, busy: Seq<bool>, k: int)
    requires
        0 <= k < FRAME_SAMPLES,
        order_free(frames(streams, busy), k),
    ensures
        mixdown(frames(streams, busy))[k] == saturate(column_sum(frames(streams, busy), k)),
{
    lemma_frames_are_full(streams, busy);
    lemma_mixdown_is_saturated_sum(frames(streams, busy), k);
}


} // verus!
