//! Input events: the kernel's fixed-size record and its tagged, decoded form.
use vstd::prelude::*;

use crate::bytes::{
    lemma_u16_le_round_trip, lemma_u32_le_round_trip, lemma_u64_le_round_trip, push_u16,
    push_u32, push_u64, read_u16, read_u32, read_u64, u16_from_le, u16_le, u32_from_le, u32_le,
    u64_from_le, u64_le,
};

verus! {

/// Event class: separator between groups of events.
pub const EV_SYN: u16 = 0x00;

/// Event class: keys and buttons.
pub const EV_KEY: u16 = 0x01;

/// Event class: absolute axes.
pub const EV_ABS: u16 = 0x03;

/// Event class: miscellaneous.
pub const EV_MSC: u16 = 0x04;

/// Size in bytes of one kernel input-event record on a 64-bit host.
pub const RAW_EVENT_SIZE: usize = 24;

/// The time of an event as the kernel records it: seconds and microseconds.
#[derive(Clone, Copy, Debug, PartialEq, Eq, Structural)]
pub struct Timestamp {
    pub sec: i64,
    pub usec: i64,
}

/// One record of the kernel's input-event stream, field for field.
#[derive(Clone, Copy, Debug, PartialEq, Eq, Structural)]
pub struct RawInputEvent {
    pub time: Timestamp,
    pub type_: u16,
    pub code: u16,
    pub value: i32,
}

/// The bytes of a record: seconds, microseconds, class, code and value, each little-endian.
pub open spec fn raw_bytes(r: RawInputEvent) -> Seq<u8> {
    u64_le(r.time.sec as u64) + u64_le(r.time.usec as u64) + u16_le(r.type_) + u16_le(r.code)
        + u32_le(r.value as u32)
}

/// The record held by `RAW_EVENT_SIZE` bytes.
pub open spec fn raw_of_bytes(b: Seq<u8>) -> RawInputEvent {
    RawInputEvent {
        time: Timestamp {
            sec: u64_from_le(b.subrange(0, 8)) as i64,
            usec: u64_from_le(b.subrange(8, 16)) as i64,
        },
        type_: u16_from_le(b.subrange(16, 18)),
        code: u16_from_le(b.subrange(18, 20)),
        value: u32_from_le(b.subrange(20, 24)) as i32,
    }
}

/// Reading the bits of a `u64` as an `i64` and back loses nothing.
proof fn lemma_i64_bits(u: u64)
    ensures
        (u as i64) as u64 == u,
{
    assert((u as i64) as u64 == u) by (bit_vector);
}

/// Reading the bits of a `u32` as an `i32` and back loses nothing.
proof fn lemma_i32_bits(u: u32)
    ensures
        (u as i32) as u32 == u,
{
    assert((u as i32) as u32 == u) by (bit_vector);
}

/// Every record of `RAW_EVENT_SIZE` bytes reads back to the same bytes.
pub proof fn lemma_raw_bytes_round_trip(b: Seq<u8>)
    requires
        b.len() == RAW_EVENT_SIZE,
    ensures
        raw_bytes(raw_of_bytes(b)) == b,
{
    let r = raw_of_bytes(b);
    lemma_u64_le_round_trip(0, b.subrange(0, 8));
    lemma_u64_le_round_trip(0, b.subrange(8, 16));
    lemma_u16_le_round_trip(0, b.subrange(16, 18));
    lemma_u16_le_round_trip(0, b.subrange(18, 20));
    lemma_u32_le_round_trip(0, b.subrange(20, 24));
    lemma_i64_bits(u64_from_le(b.subrange(0, 8)));
    lemma_i64_bits(u64_from_le(b.subrange(8, 16)));
    lemma_i32_bits(u32_from_le(b.subrange(20, 24)));
    assert(raw_bytes(r) =~= b);
}

impl RawInputEvent {
    /// The timestamp of the record.
    pub fn timestamp(&self) -> (t: Timestamp)
        ensures
            t == self.time,
    {
        self.time
    }

    /// Serializes the record into its `RAW_EVENT_SIZE` bytes.
    pub fn to_bytes(&self) -> (b: Vec<u8>)
        ensures
            b@ == raw_bytes(*self),
            b@.len() == RAW_EVENT_SIZE,
    {
        let mut b: Vec<u8> = Vec::new();
        push_u64(&mut b, self.time.sec as u64);
        push_u64(&mut b, self.time.usec as u64);
        push_u16(&mut b, self.type_);
        push_u16(&mut b, self.code);
        push_u32(&mut b, self.value as u32);
        b
    }

    /// Reads a record from exactly `RAW_EVENT_SIZE` bytes; any other length is no record.
    pub fn from_bytes(b: &[u8]) -> (r: Option<RawInputEvent>)
        ensures
            r is Some <==> b@.len() == RAW_EVENT_SIZE,
            r matches Some(e) ==> e == raw_of_bytes(b@) && raw_bytes(e) == b@,
    {
        if b.len() != RAW_EVENT_SIZE {
            return None;
        }
        let r = RawInputEvent::read_at(b, 0);
        proof {
            assert(b@.subrange(0, 24) =~= b@);
            lemma_raw_bytes_round_trip(b@);
        }
        Some(r)
    }

    /// Reads the record whose `RAW_EVENT_SIZE` bytes start at `at`.
    pub fn read_at(b: &[u8], at: usize) -> (r: RawInputEvent)
        requires
            at + RAW_EVENT_SIZE <= b@.len(),
        ensures
            r == raw_of_bytes(b@.subrange(at as int, at + RAW_EVENT_SIZE)),
    {
        let ghost s = b@.subrange(at as int, at + RAW_EVENT_SIZE);
        let n = b.len();
        assert(at + 24 <= n);
        let sec = read_u64(b, at) as i64;
        let usec = read_u64(b, at + 8) as i64;
        let type_ = read_u16(b, at + 16);
        let code = read_u16(b, at + 18);
        let value = read_u32(b, at + 20) as i32;
        proof {
            assert(s.subrange(0, 8) =~= b@.subrange(at as int, at + 8));
            assert(s.subrange(8, 16) =~= b@.subrange(at + 8, at + 16));
            assert(s.subrange(16, 18) =~= b@.subrange(at + 16, at + 18));
            assert(s.subrange(18, 20) =~= b@.subrange(at + 18, at + 20));
            assert(s.subrange(20, 24) =~= b@.subrange(at + 20, at + 24));
        }
        RawInputEvent { time: Timestamp { sec, usec }, type_, code, value }
    }
}

/// Sub-type of a miscellaneous event.
#[derive(Clone, Copy, Debug, PartialEq, Eq, Structural)]
pub enum MscType {
    /// The scan code of a key, reported beside its key event.
    Scan,
    Other(u16),
}

pub open spec fn msc_of_code(c: u16) -> MscType {
    if c == 0x04 {
        MscType::Scan
    } else {
        MscType::Other(c)
    }
}

pub open spec fn msc_code(t: MscType) -> u16 {
    match t {
        MscType::Scan => 0x04,
        MscType::Other(c) => c,
    }
}

impl From<u16> for MscType {
    fn from(value: u16) -> (r: MscType) {
        if value == 0x04 {
            MscType::Scan
        } else {
            MscType::Other(value)
        }
    }
}

impl vstd::std_specs::convert::FromSpecImpl<u16> for MscType {
    open spec fn obeys_from_spec() -> bool {
        true
    }

    open spec fn from_spec(v: u16) -> MscType {
        msc_of_code(v)
    }
}

impl From<MscType> for u16 {
    fn from(value: MscType) -> (r: u16) {
        match value {
            MscType::Scan => 0x04,
            MscType::Other(c) => c,
        }
    }
}

impl vstd::std_specs::convert::FromSpecImpl<MscType> for u16 {
    open spec fn obeys_from_spec() -> bool {
        true
    }

    open spec fn from_spec(v: MscType) -> u16 {
        msc_code(v)
    }
}

/// Axis of an absolute event.
#[derive(Clone, Copy, Debug, PartialEq, Eq, Structural)]
pub enum AbsType {
    AbsX,
    AbsY,
    /// Selects the multitouch slot that the following events describe.
    MultitouchSlot,
    MultitouchPosX,
    MultitouchPosY,
    /// Starts a contact in the current slot, or ends it with -1.
    MultitouchTrackingId,
    Other(u16),
}

pub open spec fn abs_of_code(c: u16) -> AbsType {
    if c == 0x00 {
        AbsType::AbsX
    } else if c == 0x01 {
        AbsType::AbsY
    } else if c == 0x2f {
        AbsType::MultitouchSlot
    } else if c == 0x35 {
        AbsType::MultitouchPosX
    } else if c == 0x36 {
        AbsType::MultitouchPosY
    } else if c == 0x39 {
        AbsType::MultitouchTrackingId
    } else {
        AbsType::Other(c)
    }
}

pub open spec fn abs_code(t: AbsType) -> u16 {
    match t {
        AbsType::AbsX => 0x00,
        AbsType::AbsY => 0x01,
        AbsType::MultitouchSlot => 0x2f,
        AbsType::MultitouchPosX => 0x35,
        AbsType::MultitouchPosY => 0x36,
        AbsType::MultitouchTrackingId => 0x39,
        AbsType::Other(c) => c,
    }
}

impl From<u16> for AbsType {
    fn from(value: u16) -> (r: AbsType) {
        match value {
            0x00 => AbsType::AbsX,
            0x01 => AbsType::AbsY,
            0x2f => AbsType::MultitouchSlot,
            0x35 => AbsType::MultitouchPosX,
            0x36 => AbsType::MultitouchPosY,
            0x39 => AbsType::MultitouchTrackingId,
            other => AbsType::Other(other),
        }
    }
}

impl vstd::std_specs::convert::FromSpecImpl<u16> for AbsType {
    open spec fn obeys_from_spec() -> bool {
        true
    }

    open spec fn from_spec(v: u16) -> AbsType {
        abs_of_code(v)
    }
}

impl From<AbsType> for u16 {
    fn from(value: AbsType) -> (r: u16) {
        match value {
            AbsType::AbsX => 0x00,
            AbsType::AbsY => 0x01,
            AbsType::MultitouchSlot => 0x2f,
            AbsType::MultitouchPosX => 0x35,
            AbsType::MultitouchPosY => 0x36,
            AbsType::MultitouchTrackingId => 0x39,
            AbsType::Other(c) => c,
        }
    }
}

impl vstd::std_specs::convert::FromSpecImpl<AbsType> for u16 {
    open spec fn obeys_from_spec() -> bool {
        true
    }

    open spec fn from_spec(v: AbsType) -> u16 {
        abs_code(v)
    }
}

/// Sub-type of a synchronization event.
#[derive(Clone, Copy, Debug, PartialEq, Eq, Structural)]
pub enum SynType {
    Sync,
    Config,
    /// Only type A multitouch drivers, which are deprecated, send it.
    MultitouchReportOnlyTypeA,
    Dropped,
    Other(u16),
}

pub open spec fn syn_of_code(c: u16) -> SynType {
    if c == 0x00 {
        SynType::Sync
    } else if c == 0x01 {
        SynType::Config
    } else if c == 0x02 {
        SynType::MultitouchReportOnlyTypeA
    } else if c == 0x03 {
        SynType::Dropped
    } else {
        SynType::Other(c)
    }
}

pub open spec fn syn_code(t: SynType) -> u16 {
    match t {
        SynType::Sync => 0x00,
        SynType::Config => 0x01,
        SynType::MultitouchReportOnlyTypeA => 0x02,
        SynType::Dropped => 0x03,
        SynType::Other(c) => c,
    }
}

impl From<u16> for SynType {
    fn from(value: u16) -> (r: SynType) {
        match value {
            0x00 => SynType::Sync,
            0x01 => SynType::Config,
            0x02 => SynType::MultitouchReportOnlyTypeA,
            0x03 => SynType::Dropped,
            other => SynType::Other(other),
        }
    }
}

impl vstd::std_specs::convert::FromSpecImpl<u16> for SynType {
    open spec fn obeys_from_spec() -> bool {
        true
    }

    open spec fn from_spec(v: u16) -> SynType {
        syn_of_code(v)
    }
}

impl From<SynType> for u16 {
    fn from(value: SynType) -> (r: u16) {
        match value {
            SynType::Sync => 0x00,
            SynType::Config => 0x01,
            SynType::MultitouchReportOnlyTypeA => 0x02,
            SynType::Dropped => 0x03,
            SynType::Other(c) => c,
        }
    }
}

impl vstd::std_specs::convert::FromSpecImpl<SynType> for u16 {
    open spec fn obeys_from_spec() -> bool {
        true
    }

    open spec fn from_spec(v: SynType) -> u16 {
        syn_code(v)
    }
}

/// What happened to a key: the value of a key event.
#[derive(Clone, Copy, Debug, PartialEq, Eq, Structural)]
pub enum KeyAction {
    Release,
    Press,
    Autorepeat,
    /// Any other value, kept as it came.
    Unknown(i32),
}

pub open spec fn action_of_value(v: i32) -> KeyAction {
    if v == 0 {
        KeyAction::Release
    } else if v == 1 {
        KeyAction::Press
    } else if v == 2 {
        KeyAction::Autorepeat
    } else {
        KeyAction::Unknown(v)
    }
}

pub open spec fn action_value(a: KeyAction) -> i32 {
    match a {
        KeyAction::Release => 0,
        KeyAction::Press => 1,
        KeyAction::Autorepeat => 2,
        KeyAction::Unknown(v) => v,
    }
}

impl From<i32> for KeyAction {
    fn from(value: i32) -> (r: KeyAction) {
        match value {
            0 => KeyAction::Release,
            1 => KeyAction::Press,
            2 => KeyAction::Autorepeat,
            other => KeyAction::Unknown(other),
        }
    }
}

impl vstd::std_specs::convert::FromSpecImpl<i32> for KeyAction {
    open spec fn obeys_from_spec() -> bool {
        true
    }

    open spec fn from_spec(v: i32) -> KeyAction {
        action_of_value(v)
    }
}

impl From<KeyAction> for i32 {
    fn from(value: KeyAction) -> (r: i32) {
        match value {
            KeyAction::Release => 0,
            KeyAction::Press => 1,
            KeyAction::Autorepeat => 2,
            KeyAction::Unknown(v) => v,
        }
    }
}

impl vstd::std_specs::convert::FromSpecImpl<KeyAction> for i32 {
    open spec fn obeys_from_spec() -> bool {
        true
    }

    open spec fn from_spec(v: KeyAction) -> i32 {
        action_value(v)
    }
}

/// A decoded record, with the tag of the device class it came from.
#[derive(Clone, Copy, Debug, PartialEq, Eq, Structural)]
pub enum InputEvent {
    Syn { tag: u8, timestamp: Timestamp, ty: SynType, value: i32 },
    Key { tag: u8, timestamp: Timestamp, key_code: u16, action: KeyAction },
    Msc { tag: u8, timestamp: Timestamp, ty: MscType, value: i32 },
    Abs { tag: u8, timestamp: Timestamp, ty: AbsType, value: i32 },
    /// A record of any other class, kept unchanged.
    Unknown { tag: u8, event: RawInputEvent },
}

/// The event that `r` decodes to, tagged with `tag`.
pub open spec fn event_of_raw(r: RawInputEvent, tag: u8) -> InputEvent {
    if r.type_ == EV_SYN {
        InputEvent::Syn { tag, timestamp: r.time, ty: syn_of_code(r.code), value: r.value }
    } else if r.type_ == EV_KEY {
        InputEvent::Key {
            tag,
            timestamp: r.time,
            key_code: r.code,
            action: action_of_value(r.value),
        }
    } else if r.type_ == EV_MSC {
        InputEvent::Msc { tag, timestamp: r.time, ty: msc_of_code(r.code), value: r.value }
    } else if r.type_ == EV_ABS {
        InputEvent::Abs { tag, timestamp: r.time, ty: abs_of_code(r.code), value: r.value }
    } else {
        InputEvent::Unknown { tag, event: r }
    }
}

/// The record that `e` encodes to; its tag is not part of it.
pub open spec fn raw_of_event(e: InputEvent) -> RawInputEvent {
    match e {
        InputEvent::Syn { timestamp, ty, value, .. } => RawInputEvent {
            time: timestamp,
            type_: EV_SYN,
            code: syn_code(ty),
            value,
        },
        InputEvent::Key { timestamp, key_code, action, .. } => RawInputEvent {
            time: timestamp,
            type_: EV_KEY,
            code: key_code,
            value: action_value(action),
        },
        InputEvent::Msc { timestamp, ty, value, .. } => RawInputEvent {
            time: timestamp,
            type_: EV_MSC,
            code: msc_code(ty),
            value,
        },
        InputEvent::Abs { timestamp, ty, value, .. } => RawInputEvent {
            time: timestamp,
            type_: EV_ABS,
            code: abs_code(ty),
            value,
        },
        InputEvent::Unknown { event, .. } => event,
    }
}

pub open spec fn tag_of(e: InputEvent) -> u8 {
    match e {
        InputEvent::Syn { tag, .. } => tag,
        InputEvent::Key { tag, .. } => tag,
        InputEvent::Msc { tag, .. } => tag,
        InputEvent::Abs { tag, .. } => tag,
        InputEvent::Unknown { tag, .. } => tag,
    }
}

pub open spec fn timestamp_of(e: InputEvent) -> Timestamp {
    match e {
        InputEvent::Syn { timestamp, .. } => timestamp,
        InputEvent::Key { timestamp, .. } => timestamp,
        InputEvent::Msc { timestamp, .. } => timestamp,
        InputEvent::Abs { timestamp, .. } => timestamp,
        InputEvent::Unknown { event, .. } => event.time,
    }
}

/// Decoding never loses anything: every record, of any class and code, encodes back to
/// itself, and keeps the tag it was given.
pub proof fn lemma_codec_round_trip(r: RawInputEvent, tag: u8)
    ensures
        raw_of_event(event_of_raw(r, tag)) == r,
        tag_of(event_of_raw(r, tag)) == tag,
{
}

/// Every bit pattern of `RAW_EVENT_SIZE` bytes decodes to an event whose encoding is the
/// same bytes.
pub proof fn lemma_bytes_round_trip(b: Seq<u8>, tag: u8)
    requires
        b.len() == RAW_EVENT_SIZE,
    ensures
        raw_bytes(raw_of_event(event_of_raw(raw_of_bytes(b), tag))) == b,
{
    lemma_raw_bytes_round_trip(b);
    lemma_codec_round_trip(raw_of_bytes(b), tag);
}

impl InputEvent {
    /// The timestamp of the event.
    pub fn timestamp(&self) -> (t: Timestamp)
        ensures
            t == timestamp_of(*self),
    {
        match self {
            InputEvent::Syn { timestamp, .. } => *timestamp,
            InputEvent::Key { timestamp, .. } => *timestamp,
            InputEvent::Msc { timestamp, .. } => *timestamp,
            InputEvent::Abs { timestamp, .. } => *timestamp,
            InputEvent::Unknown { event, .. } => event.timestamp(),
        }
    }

    /// The tag of the device class that the event belongs to.
    pub fn tag(&self) -> (t: u8)
        ensures
            t == tag_of(*self),
    {
        match self {
            InputEvent::Syn { tag, .. } => *tag,
            InputEvent::Key { tag, .. } => *tag,
            InputEvent::Msc { tag, .. } => *tag,
            InputEvent::Abs { tag, .. } => *tag,
            InputEvent::Unknown { tag, .. } => *tag,
        }
    }

    /// Decodes a record by its class; a record of an unknown class is kept whole.
    pub fn from_raw(event: RawInputEvent, tag: u8) -> (e: InputEvent)
        ensures
            e == event_of_raw(event, tag),
    {
        let timestamp = event.timestamp();
        if event.type_ == EV_SYN {
            InputEvent::Syn { tag, timestamp, ty: SynType::from(event.code), value: event.value }
        } else if event.type_ == EV_KEY {
            InputEvent::Key {
                tag,
                timestamp,
                key_code: event.code,
                action: KeyAction::from(event.value),
            }
        } else if event.type_ == EV_MSC {
            InputEvent::Msc { tag, timestamp, ty: MscType::from(event.code), value: event.value }
        } else if event.type_ == EV_ABS {
            InputEvent::Abs { tag, timestamp, ty: AbsType::from(event.code), value: event.value }
        } else {
            InputEvent::Unknown { tag, event }
        }
    }

    /// Encodes the event as a record; the tag is left out.
    pub fn to_raw(&self) -> (r: RawInputEvent)
        ensures
            r == raw_of_event(*self),
    {
        match *self {
            InputEvent::Syn { timestamp, ty, value, .. } => RawInputEvent {
                time: timestamp,
                type_: EV_SYN,
                code: u16::from(ty),
                value,
            },
            InputEvent::Key { timestamp, key_code, action, .. } => RawInputEvent {
                time: timestamp,
                type_: EV_KEY,
                code: key_code,
                value: i32::from(action),
            },
            InputEvent::Msc { timestamp, ty, value, .. } => RawInputEvent {
                time: timestamp,
                type_: EV_MSC,
                code: u16::from(ty),
                value,
            },
            InputEvent::Abs { timestamp, ty, value, .. } => RawInputEvent {
                time: timestamp,
                type_: EV_ABS,
                code: u16::from(ty),
                value,
            },
            InputEvent::Unknown { event, .. } => event,
        }
    }
}

impl From<InputEvent> for RawInputEvent {
    fn from(event: InputEvent) -> (r: RawInputEvent) {
        event.to_raw()
    }
}

impl vstd::std_specs::convert::FromSpecImpl<InputEvent> for RawInputEvent {
    open spec fn obeys_from_spec() -> bool {
        true
    }

    open spec fn from_spec(v: InputEvent) -> RawInputEvent {
        raw_of_event(v)
    }
}

} // verus!
