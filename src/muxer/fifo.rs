//! The records that cross a channel: each value as a fixed number of bytes.
use vstd::prelude::*;

use crate::event::{
    event_of_raw, lemma_codec_round_trip, lemma_raw_bytes_round_trip, raw_bytes, raw_of_bytes,
    raw_of_event, tag_of, InputEvent, RawInputEvent, RAW_EVENT_SIZE,
};

verus! {

/// Largest write that a pipe delivers whole, never interleaved with another writer's.
pub const PIPE_ATOMIC_LIMIT: usize = 4096;

/// Size of an event on a channel: its tag, then its kernel record.
pub const TAGGED_EVENT_SIZE: usize = 25;

/// A type that crosses a channel as records of one fixed size, small enough for a pipe to
/// write each one whole.
pub trait TrustMeBroThisIsSafe: Sized {
    /// The size of every record.
    spec fn record_len() -> nat;

    /// The record of a value.
    spec fn record_of(&self) -> Seq<u8>;

    /// The value that a record of `record_len` bytes holds.
    spec fn value_of_record(b: Seq<u8>) -> Self;

    fn record_size() -> (n: usize)
        ensures
            n == Self::record_len(),
            0 < n <= PIPE_ATOMIC_LIMIT;

    fn to_record(&self) -> (b: Vec<u8>)
        ensures
            b@ == self.record_of(),
            b@.len() == Self::record_len();

    /// The value of a record; bytes of any other length are none.
    fn from_record(b: &[u8]) -> (r: Option<Self>)
        ensures
            r is Some <==> b@.len() == Self::record_len(),
            r matches Some(v) ==> v == Self::value_of_record(b@) && v.record_of() == b@;
}

/// A tag travels as its one byte.
impl TrustMeBroThisIsSafe for u8 {
    open spec fn record_len() -> nat {
        1
    }

    open spec fn record_of(&self) -> Seq<u8> {
        seq![*self]
    }

    open spec fn value_of_record(b: Seq<u8>) -> u8 {
        b[0]
    }

    fn record_size() -> (n: usize) {
        1
    }

    fn to_record(&self) -> (b: Vec<u8>) {
        let b = vec![*self];
        assert(b@ =~= seq![*self]);
        b
    }

    fn from_record(b: &[u8]) -> (r: Option<u8>) {
        if b.len() == 1 {
            assert(b@ =~= seq![b@[0]]);
            Some(b[0])
        } else {
            None
        }
    }
}

/// The record of an event: its tag, then the bytes of its kernel record.
pub open spec fn tagged_bytes(e: InputEvent) -> Seq<u8> {
    seq![tag_of(e)] + raw_bytes(raw_of_event(e))
}

impl TrustMeBroThisIsSafe for InputEvent {
    open spec fn record_len() -> nat {
        TAGGED_EVENT_SIZE as nat
    }

    open spec fn record_of(&self) -> Seq<u8> {
        tagged_bytes(*self)
    }

    open spec fn value_of_record(b: Seq<u8>) -> InputEvent {
        event_of_raw(raw_of_bytes(b.subrange(1, 25)), b[0])
    }

    fn record_size() -> (n: usize) {
        TAGGED_EVENT_SIZE
    }

    fn to_record(&self) -> (b: Vec<u8>) {
        let mut b: Vec<u8> = vec![self.tag()];
        let raw = self.to_raw().to_bytes();
        let mut i: usize = 0;
        while i < raw.len()
            invariant
                i <= raw@.len(),
                raw@.len() == RAW_EVENT_SIZE,
                b@ == seq![tag_of(*self)] + raw@.subrange(0, i as int),
            decreases raw@.len() - i,
        {
            b.push(raw[i]);
            assert(b@ =~= seq![tag_of(*self)] + raw@.subrange(0, i + 1));
            i += 1;
        }
        assert(raw@.subrange(0, raw@.len() as int) =~= raw@);
        b
    }

    fn from_record(b: &[u8]) -> (r: Option<InputEvent>) {
        if b.len() != TAGGED_EVENT_SIZE {
            return None;
        }
        let raw = RawInputEvent::read_at(b, 1);
        let e = InputEvent::from_raw(raw, b[0]);
        proof {
            let body = b@.subrange(1, 25);
            lemma_raw_bytes_round_trip(body);
            lemma_codec_round_trip(raw, b@[0]);
            assert(b@ =~= seq![b@[0]] + body);
        }
        Some(e)
    }
}

/// Every record of an event's size holds an event that writes back the same bytes.
pub proof fn lemma_tagged_round_trip(b: Seq<u8>)
    requires
        b.len() == TAGGED_EVENT_SIZE,
    ensures
        tagged_bytes(<InputEvent as TrustMeBroThisIsSafe>::value_of_record(b)) == b,
{
    let body = b.subrange(1, 25);
    lemma_raw_bytes_round_trip(body);
    lemma_codec_round_trip(raw_of_bytes(body), b[0]);
    assert(b =~= seq![b[0]] + body);
}

} // verus!
