use fix_niri_altdrag::event::{
    AbsType, InputEvent, KeyAction, MscType, RawInputEvent, SynType, Timestamp, RAW_EVENT_SIZE,
};
use fix_niri_altdrag::muxer::fifo::TrustMeBroThisIsSafe;

fn raw(sec: i64, usec: i64, type_: u16, code: u16, value: i32) -> RawInputEvent {
    RawInputEvent { time: Timestamp { sec, usec }, type_, code, value }
}

#[test]
fn raw_record_has_the_kernel_layout() {
    let r = raw(1, 2, 1, 30, 1);
    let b = r.to_bytes();
    assert_eq!(b.len(), RAW_EVENT_SIZE);
    assert_eq!(
        b,
        vec![1, 0, 0, 0, 0, 0, 0, 0, 2, 0, 0, 0, 0, 0, 0, 0, 1, 0, 30, 0, 1, 0, 0, 0]
    );
}

#[test]
fn negative_fields_are_twos_complement() {
    let b = raw(-1, 0, 0xffff, 0x0102, -2).to_bytes();
    assert_eq!(&b[0..8], &[0xff; 8]);
    assert_eq!(&b[16..18], &[0xff, 0xff]);
    assert_eq!(&b[18..20], &[0x02, 0x01]);
    assert_eq!(&b[20..24], &[0xfe, 0xff, 0xff, 0xff]);
}

#[test]
fn from_bytes_needs_the_exact_size() {
    assert_eq!(RawInputEvent::from_bytes(&[0u8; 23]), None);
    assert_eq!(RawInputEvent::from_bytes(&[0u8; 25]), None);
    assert_eq!(RawInputEvent::from_bytes(&[]), None);
    assert_eq!(RawInputEvent::from_bytes(&[0u8; 24]), Some(raw(0, 0, 0, 0, 0)));
}

#[test]
fn any_bit_pattern_round_trips() {
    let patterns: Vec<Vec<u8>> = vec![
        vec![0xff; 24],
        (0..24).map(|i| i as u8).collect(),
        (0..24).map(|i| (i * 37 + 11) as u8).collect(),
        (0..24).map(|i| if i % 2 == 0 { 0x80 } else { 0x7f }).collect(),
    ];
    for (n, p) in patterns.iter().enumerate() {
        let r = RawInputEvent::from_bytes(p).unwrap();
        let e = InputEvent::from_raw(r, n as u8);
        assert_eq!(e.tag(), n as u8);
        assert_eq!(e.to_raw(), r);
        assert_eq!(e.to_raw().to_bytes(), *p);
    }
}

#[test]
fn decode_by_class() {
    let t = Timestamp { sec: 5, usec: 6 };
    assert_eq!(
        InputEvent::from_raw(raw(5, 6, 0, 0, 0), 0),
        InputEvent::Syn { tag: 0, timestamp: t, ty: SynType::Sync, value: 0 }
    );
    assert_eq!(
        InputEvent::from_raw(raw(5, 6, 1, 56, 1), 0),
        InputEvent::Key { tag: 0, timestamp: t, key_code: 56, action: KeyAction::Press }
    );
    assert_eq!(
        InputEvent::from_raw(raw(5, 6, 4, 4, 458756), 0),
        InputEvent::Msc { tag: 0, timestamp: t, ty: MscType::Scan, value: 458756 }
    );
    assert_eq!(
        InputEvent::from_raw(raw(5, 6, 3, 0x39, -1), 1),
        InputEvent::Abs { tag: 1, timestamp: t, ty: AbsType::MultitouchTrackingId, value: -1 }
    );
    assert_eq!(
        InputEvent::from_raw(raw(5, 6, 2, 0, 3), 1),
        InputEvent::Unknown { tag: 1, event: raw(5, 6, 2, 0, 3) }
    );
}

#[test]
fn unrecognized_values_are_kept() {
    let e = InputEvent::from_raw(raw(0, 0, 1, 30, 7), 0);
    assert_eq!(
        e,
        InputEvent::Key {
            tag: 0,
            timestamp: Timestamp { sec: 0, usec: 0 },
            key_code: 30,
            action: KeyAction::Unknown(7)
        }
    );
    assert_eq!(e.to_raw().value, 7);
    let s = InputEvent::from_raw(raw(0, 0, 0, 9, 42), 0);
    assert_eq!(s.to_raw(), raw(0, 0, 0, 9, 42));
    let m = InputEvent::from_raw(raw(0, 0, 4, 5, 1), 0);
    assert!(matches!(m, InputEvent::Msc { ty: MscType::Other(5), .. }));
}

#[test]
fn code_conversions() {
    assert_eq!(MscType::from(4), MscType::Scan);
    assert_eq!(MscType::from(3), MscType::Other(3));
    assert_eq!(u16::from(MscType::Scan), 4);
    assert_eq!(AbsType::from(0x2f), AbsType::MultitouchSlot);
    assert_eq!(AbsType::from(0x35), AbsType::MultitouchPosX);
    assert_eq!(AbsType::from(0x36), AbsType::MultitouchPosY);
    assert_eq!(AbsType::from(0x01), AbsType::AbsY);
    assert_eq!(u16::from(AbsType::MultitouchTrackingId), 0x39);
    assert_eq!(u16::from(AbsType::Other(0x99)), 0x99);
    assert_eq!(SynType::from(3), SynType::Dropped);
    assert_eq!(SynType::from(2), SynType::MultitouchReportOnlyTypeA);
    assert_eq!(u16::from(SynType::Config), 1);
    assert_eq!(KeyAction::from(0), KeyAction::Release);
    assert_eq!(KeyAction::from(2), KeyAction::Autorepeat);
    assert_eq!(KeyAction::from(-3), KeyAction::Unknown(-3));
    assert_eq!(i32::from(KeyAction::Press), 1);
}

#[test]
fn timestamps() {
    let r = raw(10, 20, 9, 9, 9);
    assert_eq!(r.timestamp(), Timestamp { sec: 10, usec: 20 });
    assert_eq!(InputEvent::from_raw(r, 0).timestamp(), Timestamp { sec: 10, usec: 20 });
    assert_eq!(InputEvent::from_raw(raw(1, 2, 1, 3, 0), 0).timestamp(), Timestamp { sec: 1, usec: 2 });
}

#[test]
fn event_converts_into_its_record() {
    let r = raw(1, 1, 1, 42, 0);
    let e = InputEvent::from_raw(r, 1);
    let back: RawInputEvent = e.into();
    assert_eq!(back, r);
}

#[test]
fn channel_records() {
    assert_eq!(<u8 as TrustMeBroThisIsSafe>::record_size(), 1);
    assert_eq!(7u8.to_record(), vec![7]);
    assert_eq!(<u8 as TrustMeBroThisIsSafe>::from_record(&[9]), Some(9));
    assert_eq!(<u8 as TrustMeBroThisIsSafe>::from_record(&[9, 9]), None);

    let e = InputEvent::from_raw(raw(3, 4, 1, 0x110, 1), 1);
    let b = e.to_record();
    assert_eq!(b.len(), <InputEvent as TrustMeBroThisIsSafe>::record_size());
    assert_eq!(b[0], 1);
    assert_eq!(&b[1..], &raw(3, 4, 1, 0x110, 1).to_bytes()[..]);
    assert_eq!(InputEvent::from_record(&b), Some(e));
    assert_eq!(InputEvent::from_record(&b[1..]), None);
}
