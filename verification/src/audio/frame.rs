//! The audio frame as it is handed to the transport.
//!
//! | field    | bytes | content                                            |
//! |----------|-------|----------------------------------------------------|
//! | header   | 1     | marks a codec-encoded payload                      |
//! | sequence | 9     | a marker, then the sequence number, big-endian     |
//! | length   | 9     | a marker with the termination bit, then the length |
//! | payload  | any   | the encoded frame                                  |

use vstd::prelude::*;

use crate::session::OutgoingMessage;
use crate::util::{be_bytes, encode_varint_long, varint_long_spec, LONG_VARINT_MARKER};

verus! {

/// The header byte of a codec-encoded frame: the high bit is set.
pub const AUDIO_HEADER: u8 = 0x80;

/// The most bytes that an encoded frame may take.
pub const MAX_PACKET_BYTES: usize = 1000;

/// The bit that marks the last field before the payload.
pub const TERMINATION_BIT: u8 = 0x20;

/// The length field: the marker with the termination bit set, then the
/// length as eight big-endian bytes.
pub open spec fn length_field(length: u64) -> Seq<u8> {
    seq![LONG_VARINT_MARKER | TERMINATION_BIT] + be_bytes(length)
}

/// The frame that carries `payload` under the sequence number `sequence`.
pub open spec fn audio_frame_spec(sequence: u32, payload: Seq<u8>) -> Seq<u8> {
    seq![AUDIO_HEADER] + varint_long_spec(sequence as u64) + length_field(payload.len() as u64)
        + payload
}

/// Assembles the frame that carries the encoded `payload` under the
/// sequence number `sequence`.
pub fn audio_frame(sequence: u32, payload: &[u8]) -> (frame: Vec<u8>)
    ensures
        frame@ == audio_frame_spec(sequence, payload@),
        frame@.len() == 19 + payload@.len(),
{
    let mut frame: Vec<u8> = Vec::new();
    frame.push(AUDIO_HEADER);
    let mut seq = encode_varint_long(sequence as u64);
    frame.append(&mut seq);
    let mut length = encode_varint_long(payload.len() as u64);
    let marker: u8 = length[0] | TERMINATION_BIT;
    length[0] = marker;
    proof {
        assert(length@ =~= length_field(payload@.len() as u64));
    }
    frame.append(&mut length);
    let ghost head = frame@;
    let mut i: usize = 0;
    while i < payload.len()
        invariant
            i <= payload@.len(),
            frame@ == head + payload@.take(i as int),
        decreases payload@.len() - i,
    {
        frame.push(payload[i]);
        proof {
            assert(payload@.take(i + 1) =~= payload@.take(i as int).push(payload@[i as int]));
            assert(frame@ =~= head + payload@.take(i + 1));
        }
        i += 1;
    }
    proof {
        assert(payload@.take(payload@.len() as int) =~= payload@);
        assert(frame@ =~= audio_frame_spec(sequence, payload@));
    }
    frame
}

/// What a tick sends after the encoder has had the frame: the audio frame
/// under the sequence number of the tick, or nothing, where the encoder
/// refused the frame. A frame that is refused is dropped; the next tick
/// goes on as usual.
pub fn emission(sequence: u32, encoded: Option<Vec<u8>>) -> (message: Option<OutgoingMessage>)
    ensures
        message is Some <==> encoded is Some,
        message matches Some(m) ==> m matches OutgoingMessage::AudioData(frame) && frame@
            == audio_frame_spec(sequence, encoded->Some_0@),
{
    match encoded {
        Some(payload) => Some(OutgoingMessage::AudioData(audio_frame(sequence, payload.as_slice()))),
        None => None,
    }
}


} // verus!
