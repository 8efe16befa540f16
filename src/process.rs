//! The remapping engine: three key sets and the chord override.
//!
//! The engine tracks the keys that are physically held (`actual`), the keys that the output
//! should present as held (`desired`), and the keys that it has presented as held so far
//! (`simulated`). Each event updates `actual`, recomputes `desired`, decides whether the event
//! itself is forwarded, and then synthesizes the presses and releases that bring `simulated`
//! back to `desired`.
use vstd::prelude::*;

use crate::event::{timestamp_of, AbsType, InputEvent, KeyAction, MscType, Timestamp};
use crate::muxer::{KEYBOARD_TAG, MOUSE_TAG};

verus! {

/// One key or button of one device class.
#[derive(Clone, Copy, Debug, PartialEq, Eq, Structural, Hash)]
pub struct Key {
    pub tag: u8,
    pub code: u16,
}

/// Key code of the left Alt key.
pub const KEY_LEFTALT: u16 = 56;

/// Key code of the left Super (Meta) key.
pub const KEY_LEFTMETA: u16 = 125;

/// Button code of the primary mouse button.
pub const BTN_LEFT: u16 = 0x110;

/// Button code of the secondary mouse button.
pub const BTN_RIGHT: u16 = 0x111;

/// Multitouch slot that the emulated finger uses.
pub const EMULATED_SLOT: i32 = 255;

/// Tracking id that starts the emulated finger's contact.
pub const EMULATED_TRACKING_ID: i32 = 0;

/// Tracking id that ends a contact.
pub const NO_CONTACT: i32 = -1;

/// Horizontal position at which the emulated finger touches down.
pub const RIGHT_CLICK_X: i32 = 1320;

/// Vertical position at which the emulated finger touches down.
pub const RIGHT_CLICK_Y: i32 = 860;

pub open spec fn left_alt() -> Key {
    Key { tag: KEYBOARD_TAG, code: KEY_LEFTALT }
}

pub open spec fn left_meta() -> Key {
    Key { tag: KEYBOARD_TAG, code: KEY_LEFTMETA }
}

pub open spec fn primary_button() -> Key {
    Key { tag: MOUSE_TAG, code: BTN_LEFT }
}

pub open spec fn secondary_button() -> Key {
    Key { tag: MOUSE_TAG, code: BTN_RIGHT }
}

/// The keys of `a`, in order, whose membership in `b` is `in_b`.
pub open spec fn sift(a: Seq<Key>, b: Seq<Key>, in_b: bool) -> Seq<Key>
    decreases a.len(),
{
    if a.len() == 0 {
        Seq::empty()
    } else {
        let r = sift(a.drop_last(), b, in_b);
        if b.contains(a.last()) == in_b {
            r.push(a.last())
        } else {
            r
        }
    }
}

/// `s` with `k` added at the end unless it is already there.
pub open spec fn with_key(s: Seq<Key>, k: Key) -> Seq<Key> {
    if s.contains(k) {
        s
    } else {
        s.push(k)
    }
}

/// `s` without `k`.
pub open spec fn without_key(s: Seq<Key>, k: Key) -> Seq<Key> {
    sift(s, seq![k], false)
}

/// The key sets after `e`: a press adds its key, a release removes it.
pub open spec fn update_keys(s: Seq<Key>, e: InputEvent) -> Seq<Key> {
    match e {
        InputEvent::Key { tag, key_code, action, .. } => {
            if action == KeyAction::Press {
                with_key(s, Key { tag, code: key_code })
            } else if action == KeyAction::Release {
                without_key(s, Key { tag, code: key_code })
            } else {
                s
            }
        },
        _ => s,
    }
}

/// A scan-code event, which the engine drops.
pub open spec fn is_scan(e: InputEvent) -> bool {
    e matches InputEvent::Msc { ty: MscType::Scan, .. }
}

/// Left Alt, left Super and the primary button are all held.
pub open spec fn chord_held(actual: Seq<Key>) -> bool {
    actual.contains(left_alt()) && actual.contains(left_meta()) && actual.contains(primary_button())
}

/// What the output should hold, given what is held: `actual` itself, unless the chord is
/// held; then left Alt gives way to the secondary button, and so does the primary button
/// unless a touchpad is emulated.
pub open spec fn desired_of(actual: Seq<Key>, emulate_touchpad: bool) -> Seq<Key> {
    if chord_held(actual) {
        let kept = if emulate_touchpad {
            actual
        } else {
            without_key(actual, primary_button())
        };
        without_key(with_key(kept, secondary_button()), left_alt())
    } else {
        actual
    }
}

/// Whether the event that was read is forwarded as it is: not a press of a key that should
/// not be held, nor a release of a key that should stay held. The rule is asymmetric on
/// purpose: the release of a key whose press was absorbed is still forwarded.
pub open spec fn forwards(e: InputEvent, desired: Seq<Key>) -> bool {
    match e {
        InputEvent::Key { tag, key_code, action, .. } => {
            if action == KeyAction::Press {
                desired.contains(Key { tag, code: key_code })
            } else if action == KeyAction::Release {
                !desired.contains(Key { tag, code: key_code })
            } else {
                true
            }
        },
        _ => true,
    }
}

/// The events that present `k` as pressed: a key press, or for the secondary button under
/// touchpad emulation a finger that touches down at the right-click position.
pub open spec fn press_events(k: Key, emulate_touchpad: bool, t: Timestamp) -> Seq<InputEvent> {
    if emulate_touchpad && k == secondary_button() {
        seq![
            InputEvent::Abs { tag: k.tag, timestamp: t, ty: AbsType::MultitouchSlot, value: EMULATED_SLOT },
            InputEvent::Abs { tag: k.tag, timestamp: t, ty: AbsType::MultitouchTrackingId, value: EMULATED_TRACKING_ID },
            InputEvent::Abs { tag: k.tag, timestamp: t, ty: AbsType::MultitouchPosX, value: RIGHT_CLICK_X },
            InputEvent::Abs { tag: k.tag, timestamp: t, ty: AbsType::MultitouchPosY, value: RIGHT_CLICK_Y },
        ]
    } else {
        seq![InputEvent::Key { tag: k.tag, timestamp: t, key_code: k.code, action: KeyAction::Press }]
    }
}

/// The events that present `k` as released: a key release, or for the secondary button under
/// touchpad emulation the emulated finger's lift.
pub open spec fn release_events(k: Key, emulate_touchpad: bool, t: Timestamp) -> Seq<InputEvent> {
    if emulate_touchpad && k == secondary_button() {
        seq![
            InputEvent::Abs { tag: k.tag, timestamp: t, ty: AbsType::MultitouchSlot, value: EMULATED_SLOT },
            InputEvent::Abs { tag: k.tag, timestamp: t, ty: AbsType::MultitouchTrackingId, value: NO_CONTACT },
        ]
    } else {
        seq![InputEvent::Key { tag: k.tag, timestamp: t, key_code: k.code, action: KeyAction::Release }]
    }
}

/// The press events of each key of `keys`, in order.
pub open spec fn presses(keys: Seq<Key>, emulate_touchpad: bool, t: Timestamp) -> Seq<InputEvent>
    decreases keys.len(),
{
    if keys.len() == 0 {
        Seq::empty()
    } else {
        presses(keys.drop_last(), emulate_touchpad, t) + press_events(keys.last(), emulate_touchpad, t)
    }
}

/// The release events of each key of `keys`, in order.
pub open spec fn releases(keys: Seq<Key>, emulate_touchpad: bool, t: Timestamp) -> Seq<InputEvent>
    decreases keys.len(),
{
    if keys.len() == 0 {
        Seq::empty()
    } else {
        releases(keys.drop_last(), emulate_touchpad, t) + release_events(keys.last(), emulate_touchpad, t)
    }
}

/// The engine's state, each key set as a sequence.
pub struct RemapperState {
    pub emulate_touchpad: bool,
    pub actual: Seq<Key>,
    pub desired: Seq<Key>,
    pub simulated: Seq<Key>,
}

impl RemapperState {
    pub open spec fn next_actual(self, e: InputEvent) -> Seq<Key> {
        update_keys(self.actual, e)
    }

    pub open spec fn next_desired(self, e: InputEvent) -> Seq<Key> {
        desired_of(self.next_actual(e), self.emulate_touchpad)
    }

    /// Whether `e` itself is forwarded.
    pub open spec fn forwards(self, e: InputEvent) -> bool {
        forwards(e, self.next_desired(e))
    }

    /// `simulated` once the forwarded event, if any, is accounted for.
    pub open spec fn forwarded_simulated(self, e: InputEvent) -> Seq<Key> {
        if self.forwards(e) {
            update_keys(self.simulated, e)
        } else {
            self.simulated
        }
    }

    /// Keys desired but not yet presented as held: they get a synthetic press.
    pub open spec fn to_press(self, e: InputEvent) -> Seq<Key> {
        sift(self.next_desired(e), self.forwarded_simulated(e), false)
    }

    /// Keys presented as held but no longer desired: they get a synthetic release.
    pub open spec fn to_release(self, e: InputEvent) -> Seq<Key> {
        sift(self.forwarded_simulated(e), self.next_desired(e), false)
    }

    /// The state after `e`; a scan-code event leaves it as it is.
    pub open spec fn next(self, e: InputEvent) -> RemapperState {
        if is_scan(e) {
            self
        } else {
            RemapperState {
                emulate_touchpad: self.emulate_touchpad,
                actual: self.next_actual(e),
                desired: self.next_desired(e),
                simulated: sift(self.forwarded_simulated(e), self.next_desired(e), true)
                    + self.to_press(e),
            }
        }
    }

    /// The events written for `e`: `e` itself if it is forwarded, then the synthetic presses,
    /// then the synthetic releases, all with the timestamp of `e`.
    pub open spec fn output(self, e: InputEvent) -> Seq<InputEvent> {
        if is_scan(e) {
            Seq::empty()
        } else {
            (if self.forwards(e) {
                seq![e]
            } else {
                Seq::empty()
            }) + presses(self.to_press(e), self.emulate_touchpad, timestamp_of(e)) + releases(
                self.to_release(e),
                self.emulate_touchpad,
                timestamp_of(e),
            )
        }
    }

    /// No set holds a key twice, `desired` follows from `actual`, and what is presented as
    /// held is what should be.
    pub open spec fn wf(self) -> bool {
        &&& self.actual.no_duplicates()
        &&& self.desired.no_duplicates()
        &&& self.simulated.no_duplicates()
        &&& self.desired == desired_of(self.actual, self.emulate_touchpad)
        &&& forall|k: Key| #[trigger]
            self.simulated.contains(k) <==> self.desired.contains(k)
    }
}

/// One thing that the engine writes: an event forwarded as it came, or a synthetic press
/// or release of a key.
pub enum Decision {
    Forward(InputEvent),
    Press(Key),
    Release(Key),
}

/// The keys presented as held after `d`, when `h` were before.
pub open spec fn apply_decision(h: Set<Key>, d: Decision) -> Set<Key> {
    match d {
        Decision::Forward(e) => match e {
            InputEvent::Key { tag, key_code, action, .. } => {
                if action == KeyAction::Press {
                    h.insert(Key { tag, code: key_code })
                } else if action == KeyAction::Release {
                    h.remove(Key { tag, code: key_code })
                } else {
                    h
                }
            },
            _ => h,
        },
        Decision::Press(k) => h.insert(k),
        Decision::Release(k) => h.remove(k),
    }
}

/// The keys presented as held after the decisions `ds`, in order, when `h` were before.
pub open spec fn held_after(h: Set<Key>, ds: Seq<Decision>) -> Set<Key>
    decreases ds.len(),
{
    if ds.len() == 0 {
        h
    } else {
        apply_decision(held_after(h, ds.drop_last()), ds.last())
    }
}

/// The events that carry out the decisions `ds`.
pub open spec fn render(ds: Seq<Decision>, emulate_touchpad: bool, t: Timestamp) -> Seq<
    InputEvent,
>
    decreases ds.len(),
{
    if ds.len() == 0 {
        Seq::empty()
    } else {
        render(ds.drop_last(), emulate_touchpad, t) + match ds.last() {
            Decision::Forward(e) => seq![e],
            Decision::Press(k) => press_events(k, emulate_touchpad, t),
            Decision::Release(k) => release_events(k, emulate_touchpad, t),
        }
    }
}

pub open spec fn press_all(keys: Seq<Key>) -> Seq<Decision> {
    keys.map_values(|k: Key| Decision::Press(k))
}

pub open spec fn release_all(keys: Seq<Key>) -> Seq<Decision> {
    keys.map_values(|k: Key| Decision::Release(k))
}

impl RemapperState {
    /// What the engine decides on `e`: forward it or not, then press and release keys.
    pub open spec fn decisions(self, e: InputEvent) -> Seq<Decision> {
        if is_scan(e) {
            Seq::empty()
        } else {
            (if self.forwards(e) {
                seq![Decision::Forward(e)]
            } else {
                Seq::empty()
            }) + press_all(self.to_press(e)) + release_all(self.to_release(e))
        }
    }

    /// The state after each of `events` in turn.
    pub open spec fn run(self, events: Seq<InputEvent>) -> RemapperState
        decreases events.len(),
    {
        if events.len() == 0 {
            self
        } else {
            self.run(events.drop_last()).next(events.last())
        }
    }

    /// Every decision made on `events`, in order.
    pub open spec fn run_decisions(self, events: Seq<InputEvent>) -> Seq<Decision>
        decreases events.len(),
    {
        if events.len() == 0 {
            Seq::empty()
        } else {
            self.run_decisions(events.drop_last()) + self.run(events.drop_last()).decisions(
                events.last(),
            )
        }
    }
}

pub proof fn lemma_held_after_concat(h: Set<Key>, a: Seq<Decision>, b: Seq<Decision>)
    ensures
        held_after(h, a + b) == held_after(held_after(h, a), b),
    decreases b.len(),
{
    if b.len() == 0 {
        assert(a + b =~= a);
    } else {
        lemma_held_after_concat(h, a, b.drop_last());
        assert((a + b).drop_last() =~= a + b.drop_last());
        assert((a + b).last() == b.last());
    }
}

pub proof fn lemma_render_concat(a: Seq<Decision>, b: Seq<Decision>, tp: bool, t: Timestamp)
    ensures
        render(a + b, tp, t) == render(a, tp, t) + render(b, tp, t),
    decreases b.len(),
{
    if b.len() == 0 {
        assert(a + b =~= a);
        assert(render(a, tp, t) + render(b, tp, t) =~= render(a, tp, t));
    } else {
        lemma_render_concat(a, b.drop_last(), tp, t);
        assert((a + b).drop_last() =~= a + b.drop_last());
        assert((a + b).last() == b.last());
        let last = match b.last() {
            Decision::Forward(e) => seq![e],
            Decision::Press(k) => press_events(k, tp, t),
            Decision::Release(k) => release_events(k, tp, t),
        };
        assert(render(a, tp, t) + render(b.drop_last(), tp, t) + last =~= render(a, tp, t) + (
        render(b.drop_last(), tp, t) + last));
    }
}

pub proof fn lemma_press_all(h: Set<Key>, keys: Seq<Key>, tp: bool, t: Timestamp)
    ensures
        held_after(h, press_all(keys)) == h + keys.to_set(),
        render(press_all(keys), tp, t) == presses(keys, tp, t),
        held_after(h, release_all(keys)) == h - keys.to_set(),
        render(release_all(keys), tp, t) == releases(keys, tp, t),
    decreases keys.len(),
{
    if keys.len() == 0 {
        assert(keys.to_set() =~= Set::<Key>::empty());
        assert(h + keys.to_set() =~= h);
        assert(h - keys.to_set() =~= h);
    } else {
        let d = keys.drop_last();
        lemma_press_all(h, d, tp, t);
        assert(press_all(keys).drop_last() =~= press_all(d));
        assert(release_all(keys).drop_last() =~= release_all(d));
        assert(keys =~= d.push(keys.last()));
        assert(keys.to_set() =~= d.to_set().insert(keys.last())) by {
            assert forall|x: Key| keys.contains(x) <==> (d.contains(x) || x == keys.last()) by {
                if keys.contains(x) {
                    let i = choose|i: int| 0 <= i < keys.len() && keys[i] == x;
                    if i < d.len() {
                        assert(d[i] == x);
                    }
                }
                if d.contains(x) {
                    let i = choose|i: int| 0 <= i < d.len() && d[i] == x;
                    assert(keys[i] == x);
                }
                if x == keys.last() {
                    assert(keys[keys.len() - 1] == x);
                }
            }
        }
        assert(held_after(h, press_all(keys)) =~= h + keys.to_set());
        assert(held_after(h, release_all(keys)) =~= h - keys.to_set());
    }
}

/// What the engine writes on one event is exactly what it decides.
pub proof fn lemma_output_is_decisions(s: RemapperState, e: InputEvent)
    ensures
        s.output(e) == render(s.decisions(e), s.emulate_touchpad, timestamp_of(e)),
{
    let (tp, t) = (s.emulate_touchpad, timestamp_of(e));
    if !is_scan(e) {
        let f = if s.forwards(e) {
            seq![Decision::Forward(e)]
        } else {
            Seq::empty()
        };
        let p = press_all(s.to_press(e));
        let r = release_all(s.to_release(e));
        lemma_render_concat(f + p, r, tp, t);
        lemma_render_concat(f, p, tp, t);
        lemma_press_all(Set::empty(), s.to_press(e), tp, t);
        lemma_press_all(Set::empty(), s.to_release(e), tp, t);
        if s.forwards(e) {
            assert(f.drop_last() =~= Seq::<Decision>::empty());
            assert(render(f.drop_last(), tp, t) =~= Seq::<InputEvent>::empty());
            assert(render(f, tp, t) =~= seq![e]);
        } else {
            assert(render(f, tp, t) =~= Seq::<InputEvent>::empty());
        }
    } else {
        assert(render(Seq::<Decision>::empty(), tp, t) =~= Seq::<InputEvent>::empty());
    }
}

/// On one event, the keys presented as held afterwards are those that were, updated by
/// each decision in turn.
pub proof fn lemma_step_balance(s: RemapperState, e: InputEvent)
    ensures
        s.next(e).simulated.to_set() == held_after(s.simulated.to_set(), s.decisions(e)),
{
    let h = s.simulated.to_set();
    if is_scan(e) {
        return;
    }
    let f = if s.forwards(e) {
        seq![Decision::Forward(e)]
    } else {
        Seq::empty()
    };
    let p = press_all(s.to_press(e));
    let r = release_all(s.to_release(e));
    let t = timestamp_of(e);
    lemma_held_after_concat(h, f + p, r);
    lemma_held_after_concat(h, f, p);
    let sim1 = s.forwarded_simulated(e);
    let desired = s.next_desired(e);
    lemma_update_keys(s.simulated, e);
    if s.forwards(e) {
        assert(f.drop_last() =~= Seq::<Decision>::empty());
        assert(held_after(h, f.drop_last()) == h);
        assert(held_after(h, f) == apply_decision(h, Decision::Forward(e)));
        assert(held_after(h, f) =~= sim1.to_set());
    } else {
        assert(held_after(h, f) =~= sim1.to_set());
    }
    lemma_press_all(sim1.to_set(), s.to_press(e), s.emulate_touchpad, t);
    lemma_press_all(sim1.to_set() + s.to_press(e).to_set(), s.to_release(e), s.emulate_touchpad, t);
    lemma_sift(desired, sim1, false);
    lemma_sift(sim1, desired, false);
    lemma_sift(sim1, desired, true);
    lemma_concat_keys(sift(sim1, desired, true), s.to_press(e));
    assert(s.next(e).simulated.to_set() =~= desired.to_set());
    assert(held_after(h, s.decisions(e)) =~= desired.to_set());
}

/// Press/release balance: after any sequence of events, the keys that the engine presents
/// as held are exactly those whose last decision was a press, or a forwarded press, not yet
/// followed by a release.
pub proof fn lemma_press_release_balance(s: RemapperState, events: Seq<InputEvent>)
    ensures
        s.run(events).simulated.to_set() == held_after(
            s.simulated.to_set(),
            s.run_decisions(events),
        ),
    decreases events.len(),
{
    if events.len() > 0 {
        let d = events.drop_last();
        lemma_press_release_balance(s, d);
        lemma_step_balance(s.run(d), events.last());
        lemma_held_after_concat(
            s.simulated.to_set(),
            s.run_decisions(d),
            s.run(d).decisions(events.last()),
        );
    }
}

/// What `sift` keeps, and that it keeps no repeats.
pub proof fn lemma_sift(a: Seq<Key>, b: Seq<Key>, in_b: bool)
    ensures
        forall|x: Key| #[trigger]
            sift(a, b, in_b).contains(x) <==> (a.contains(x) && b.contains(x) == in_b),
        a.no_duplicates() ==> sift(a, b, in_b).no_duplicates(),
    decreases a.len(),
{
    if a.len() > 0 {
        let d = a.drop_last();
        lemma_sift(d, b, in_b);
        assert(a =~= d.push(a.last()));
        assert forall|x: Key| a.contains(x) <==> (d.contains(x) || x == a.last()) by {
            if a.contains(x) {
                let i = choose|i: int| 0 <= i < a.len() && a[i] == x;
                if i < a.len() - 1 {
                    assert(d[i] == x);
                }
            }
            if d.contains(x) {
                let i = choose|i: int| 0 <= i < d.len() && d[i] == x;
                assert(a[i] == x);
            }
            if x == a.last() {
                assert(a[a.len() - 1] == x);
            }
        }
        let r = sift(d, b, in_b);
        assert(d.drop_last() == a.drop_last().drop_last());
        if b.contains(a.last()) == in_b {
            assert(sift(a, b, in_b) == r.push(a.last()));
            assert forall|x: Key| r.push(a.last()).contains(x) <==> (r.contains(x) || x == a.last()) by {
                if r.push(a.last()).contains(x) {
                    let i = choose|i: int| 0 <= i < r.len() + 1 && r.push(a.last())[i] == x;
                    if i < r.len() {
                        assert(r[i] == x);
                    }
                }
                if r.contains(x) {
                    let i = choose|i: int| 0 <= i < r.len() && r[i] == x;
                    assert(r.push(a.last())[i] == x);
                }
                if x == a.last() {
                    assert(r.push(a.last())[r.len() as int] == x);
                }
            }
            if a.no_duplicates() {
                assert(!d.contains(a.last())) by {
                    if d.contains(a.last()) {
                        let i = choose|i: int| 0 <= i < d.len() && d[i] == a.last();
                        assert(a[i] == a[a.len() - 1]);
                    }
                }
                assert(d.no_duplicates()) by {
                    assert forall|i: int, j: int| 0 <= i < d.len() && 0 <= j < d.len() && i != j
                        implies d[i] != d[j] by {
                        assert(d[i] == a[i] && d[j] == a[j]);
                    }
                }
                assert(!r.contains(a.last()));
                assert(r.push(a.last()).no_duplicates()) by {
                    let s = r.push(a.last());
                    assert forall|i: int, j: int| 0 <= i < s.len() && 0 <= j < s.len() && i != j
                        implies s[i] != s[j] by {
                        if i < r.len() && j < r.len() {
                            assert(s[i] == r[i] && s[j] == r[j]);
                        } else if i < r.len() {
                            assert(s[i] == r[i]);
                            assert(r.contains(r[i]));
                        } else if j < r.len() {
                            assert(s[j] == r[j]);
                            assert(r.contains(r[j]));
                        }
                    }
                }
            }
        } else {
            assert(sift(a, b, in_b) == r);
            if a.no_duplicates() {
                assert(d.no_duplicates()) by {
                    assert forall|i: int, j: int| 0 <= i < d.len() && 0 <= j < d.len() && i != j
                        implies d[i] != d[j] by {
                        assert(d[i] == a[i] && d[j] == a[j]);
                    }
                }
            }
        }
        assert forall|x: Key| #[trigger]
            sift(a, b, in_b).contains(x) <==> (a.contains(x) && b.contains(x) == in_b) by {
            assert(a.contains(x) <==> (d.contains(x) || x == a.last()));
            assert(r.contains(x) <==> (d.contains(x) && b.contains(x) == in_b));
            if b.contains(a.last()) == in_b {
                assert(sift(a, b, in_b) == r.push(a.last()));
                assert(r.push(a.last()).contains(x) <==> (r.contains(x) || x == a.last()));
            } else {
                assert(sift(a, b, in_b) == r);
            }
        }
    } else {
        assert forall|x: Key| !a.contains(x) && !sift(a, b, in_b).contains(x) by {
            assert(sift(a, b, in_b) =~= Seq::<Key>::empty());
        }
    }
}

/// `with_key` adds exactly `k`, and keeps `s` free of repeats.
pub proof fn lemma_with_key(s: Seq<Key>, k: Key)
    ensures
        forall|x: Key| #[trigger] with_key(s, k).contains(x) <==> (s.contains(x) || x == k),
        s.no_duplicates() ==> with_key(s, k).no_duplicates(),
{
    if !s.contains(k) {
        let t = s.push(k);
        assert forall|x: Key| #[trigger] t.contains(x) <==> (s.contains(x) || x == k) by {
            if t.contains(x) {
                let i = choose|i: int| 0 <= i < t.len() && t[i] == x;
                if i < s.len() {
                    assert(s[i] == x);
                }
            }
            if s.contains(x) {
                let i = choose|i: int| 0 <= i < s.len() && s[i] == x;
                assert(t[i] == x);
            }
            if x == k {
                assert(t[s.len() as int] == x);
            }
        }
        if s.no_duplicates() {
            assert forall|i: int, j: int| 0 <= i < t.len() && 0 <= j < t.len() && i != j
                implies t[i] != t[j] by {
                if i < s.len() && j < s.len() {
                    assert(t[i] == s[i] && t[j] == s[j]);
                } else if i < s.len() {
                    assert(t[i] == s[i]);
                    assert(s.contains(s[i]));
                } else if j < s.len() {
                    assert(t[j] == s[j]);
                    assert(s.contains(s[j]));
                }
            }
        }
    }
}

/// The key sets after an event hold exactly what they held, plus a pressed key, minus a
/// released one.
pub proof fn lemma_update_keys(s: Seq<Key>, e: InputEvent)
    ensures
        s.no_duplicates() ==> update_keys(s, e).no_duplicates(),
        forall|x: Key| #[trigger]
            update_keys(s, e).contains(x) <==> match e {
                InputEvent::Key { tag, key_code, action, .. } => if action == KeyAction::Press {
                    s.contains(x) || x == (Key { tag, code: key_code })
                } else if action == KeyAction::Release {
                    s.contains(x) && x != (Key { tag, code: key_code })
                } else {
                    s.contains(x)
                },
                _ => s.contains(x),
            },
{
    if let InputEvent::Key { tag, key_code, .. } = e {
        let k = Key { tag, code: key_code };
        lemma_with_key(s, k);
        lemma_sift(s, seq![k], false);
        assert forall|x: Key| seq![k].contains(x) <==> x == k by {
            if x == k {
                assert(seq![k][0] == x);
            }
        }
    }
}

/// What `desired_of` holds, and that it holds no repeats.
pub proof fn lemma_desired_of(actual: Seq<Key>, emulate_touchpad: bool)
    ensures
        actual.no_duplicates() ==> desired_of(actual, emulate_touchpad).no_duplicates(),
        forall|x: Key| #[trigger]
            desired_of(actual, emulate_touchpad).contains(x) <==> if chord_held(actual) {
                x != left_alt() && (x == secondary_button() || (actual.contains(x) && (
                emulate_touchpad || x != primary_button())))
            } else {
                actual.contains(x)
            },
{
    if chord_held(actual) {
        let kept = if emulate_touchpad {
            actual
        } else {
            without_key(actual, primary_button())
        };
        lemma_sift(actual, seq![primary_button()], false);
        lemma_with_key(kept, secondary_button());
        lemma_sift(with_key(kept, secondary_button()), seq![left_alt()], false);
        assert forall|x: Key| seq![primary_button()].contains(x) <==> x == primary_button() by {
            if x == primary_button() {
                assert(seq![primary_button()][0] == x);
            }
        }
        assert forall|x: Key| seq![left_alt()].contains(x) <==> x == left_alt() by {
            if x == left_alt() {
                assert(seq![left_alt()][0] == x);
            }
        }
    }
}

/// The keys of `a + b` are those of `a` and those of `b`; with no key in both, and no
/// repeats in either, there are none in `a + b`.
pub proof fn lemma_concat_keys(a: Seq<Key>, b: Seq<Key>)
    ensures
        forall|x: Key| #[trigger] (a + b).contains(x) <==> (a.contains(x) || b.contains(x)),
        a.no_duplicates() && b.no_duplicates() && (forall|x: Key|
            a.contains(x) ==> !b.contains(x)) ==> (a + b).no_duplicates(),
{
    let c = a + b;
    assert forall|x: Key| #[trigger] c.contains(x) <==> (a.contains(x) || b.contains(x)) by {
        if c.contains(x) {
            let i = choose|i: int| 0 <= i < c.len() && c[i] == x;
            if i < a.len() {
                assert(a[i] == x);
            } else {
                assert(b[i - a.len()] == x);
            }
        }
        if a.contains(x) {
            let i = choose|i: int| 0 <= i < a.len() && a[i] == x;
            assert(c[i] == x);
        }
        if b.contains(x) {
            let i = choose|i: int| 0 <= i < b.len() && b[i] == x;
            assert(c[i + a.len()] == x);
        }
    }
    if a.no_duplicates() && b.no_duplicates() && (forall|x: Key|
        a.contains(x) ==> !b.contains(x)) {
        assert forall|i: int, j: int| 0 <= i < c.len() && 0 <= j < c.len() && i != j
            implies c[i] != c[j] by {
            if i < a.len() && j >= a.len() {
                assert(a.contains(a[i]));
                assert(b[j - a.len()] == c[j]);
            } else if j < a.len() && i >= a.len() {
                assert(a.contains(a[j]));
                assert(b[i - a.len()] == c[i]);
            }
        }
    }
}

/// No synthetic event is a scan-code event.
pub proof fn lemma_synthetic_not_scan(keys: Seq<Key>, emulate_touchpad: bool, t: Timestamp)
    ensures
        forall|i: int| 0 <= i < presses(keys, emulate_touchpad, t).len() ==> !is_scan(
            #[trigger] presses(keys, emulate_touchpad, t)[i]),
        forall|i: int| 0 <= i < releases(keys, emulate_touchpad, t).len() ==> !is_scan(
            #[trigger] releases(keys, emulate_touchpad, t)[i]),
    decreases keys.len(),
{
    if keys.len() > 0 {
        lemma_synthetic_not_scan(keys.drop_last(), emulate_touchpad, t);
        let p = presses(keys.drop_last(), emulate_touchpad, t);
        let q = press_events(keys.last(), emulate_touchpad, t);
        assert forall|i: int| 0 <= i < (p + q).len() implies !is_scan(#[trigger] (p + q)[i]) by {
            if i >= p.len() {
                assert((p + q)[i] == q[i - p.len()]);
            }
        }
        let r = releases(keys.drop_last(), emulate_touchpad, t);
        let u = release_events(keys.last(), emulate_touchpad, t);
        assert forall|i: int| 0 <= i < (r + u).len() implies !is_scan(#[trigger] (r + u)[i]) by {
            if i >= r.len() {
                assert((r + u)[i] == u[i - r.len()]);
            }
        }
    }
}

/// Scan-code suppression: whatever the state, no event that the engine writes is a
/// scan-code event.
pub proof fn lemma_scan_never_written(s: RemapperState, e: InputEvent)
    ensures
        forall|i: int| 0 <= i < s.output(e).len() ==> !is_scan(#[trigger] s.output(e)[i]),
{
    if !is_scan(e) {
        let (tp, t) = (s.emulate_touchpad, timestamp_of(e));
        let f = if s.forwards(e) {
            seq![e]
        } else {
            Seq::empty()
        };
        let pr = presses(s.to_press(e), tp, t);
        let rl = releases(s.to_release(e), tp, t);
        let out = s.output(e);
        assert(out == f + pr + rl);
        lemma_synthetic_not_scan(s.to_press(e), tp, t);
        lemma_synthetic_not_scan(s.to_release(e), tp, t);
        assert forall|i: int| 0 <= i < out.len() implies !is_scan(#[trigger] out[i]) by {
            if i < f.len() {
                assert(out[i] == e);
            } else if i < f.len() + pr.len() {
                assert(out[i] == pr[i - f.len()]);
            } else {
                assert(out[i] == rl[i - f.len() - pr.len()]);
            }
        }
    }
}

/// Whether `s` holds `k`.
fn contains_key(s: &Vec<Key>, k: Key) -> (r: bool)
    ensures
        r == s@.contains(k),
{
    let mut i: usize = 0;
    while i < s.len()
        invariant
            i <= s@.len(),
            forall|j: int| 0 <= j < i ==> s@[j] != k,
        decreases s@.len() - i,
    {
        if s[i] == k {
            assert(s@[i as int] == k);
            return true;
        }
        i += 1;
    }
    false
}

/// The keys of `a`, in order, whose membership in `b` is `in_b`.
fn sift_keys(a: &Vec<Key>, b: &Vec<Key>, in_b: bool) -> (r: Vec<Key>)
    ensures
        r@ == sift(a@, b@, in_b),
{
    let mut r: Vec<Key> = Vec::new();
    let mut i: usize = 0;
    while i < a.len()
        invariant
            i <= a@.len(),
            r@ == sift(a@.subrange(0, i as int), b@, in_b),
        decreases a@.len() - i,
    {
        let k = a[i];
        let inside = contains_key(b, k);
        proof {
            let p = a@.subrange(0, i + 1);
            assert(p.drop_last() =~= a@.subrange(0, i as int));
            assert(p.last() == k);
        }
        if inside == in_b {
            r.push(k);
        }
        i += 1;
    }
    proof {
        assert(a@.subrange(0, a@.len() as int) =~= a@);
    }
    r
}

/// Applies a key event to a key set: a press adds its key, a release removes it.
fn update_key_set(s: &mut Vec<Key>, event: &InputEvent)
    ensures
        final(s)@ == update_keys(old(s)@, *event),
{
    if let InputEvent::Key { tag, key_code, action, .. } = event {
        let k = Key { tag: *tag, code: *key_code };
        match action {
            KeyAction::Press => {
                if !contains_key(s, k) {
                    s.push(k);
                }
            },
            KeyAction::Release => {
                let one = vec![k];
                proof {
                    assert(one@ =~= seq![k]);
                }
                *s = sift_keys(s, &one, false);
            },
            _ => {},
        }
    }
}

/// What the output should hold, given the keys held.
fn desired_keys(actual: &Vec<Key>, emulate_touchpad: bool) -> (d: Vec<Key>)
    ensures
        d@ == desired_of(actual@, emulate_touchpad),
{
    let alt = Key { tag: KEYBOARD_TAG, code: KEY_LEFTALT };
    let meta = Key { tag: KEYBOARD_TAG, code: KEY_LEFTMETA };
    let primary = Key { tag: MOUSE_TAG, code: BTN_LEFT };
    let secondary = Key { tag: MOUSE_TAG, code: BTN_RIGHT };
    if contains_key(actual, alt) && contains_key(actual, meta) && contains_key(actual, primary) {
        let mut kept = if emulate_touchpad {
            let c = actual.clone();
            assert(c@ =~= actual@);
            c
        } else {
            let one = vec![primary];
            assert(one@ =~= seq![primary]);
            sift_keys(actual, &one, false)
        };
        if !contains_key(&kept, secondary) {
            kept.push(secondary);
        }
        let one = vec![alt];
        assert(one@ =~= seq![alt]);
        sift_keys(&kept, &one, false)
    } else {
        let c = actual.clone();
        assert(c@ =~= actual@);
        c
    }
}

/// Whether `event` is forwarded as it is, given the keys that should be held.
fn forwards_event(event: &InputEvent, desired: &Vec<Key>) -> (r: bool)
    ensures
        r == forwards(*event, desired@),
{
    match event {
        InputEvent::Key { tag, key_code, action, .. } => {
            let k = Key { tag: *tag, code: *key_code };
            match action {
                KeyAction::Press => contains_key(desired, k),
                KeyAction::Release => !contains_key(desired, k),
                _ => true,
            }
        },
        _ => true,
    }
}

/// Appends the events that present `k` as pressed.
fn push_press(out: &mut Vec<InputEvent>, k: Key, emulate_touchpad: bool, t: Timestamp)
    ensures
        final(out)@ == old(out)@ + press_events(k, emulate_touchpad, t),
{
    if emulate_touchpad && k.tag == MOUSE_TAG && k.code == BTN_RIGHT {
        out.push(
            InputEvent::Abs { tag: k.tag, timestamp: t, ty: AbsType::MultitouchSlot, value: EMULATED_SLOT },
        );
        out.push(
            InputEvent::Abs {
                tag: k.tag,
                timestamp: t,
                ty: AbsType::MultitouchTrackingId,
                value: EMULATED_TRACKING_ID,
            },
        );
        out.push(
            InputEvent::Abs { tag: k.tag, timestamp: t, ty: AbsType::MultitouchPosX, value: RIGHT_CLICK_X },
        );
        out.push(
            InputEvent::Abs { tag: k.tag, timestamp: t, ty: AbsType::MultitouchPosY, value: RIGHT_CLICK_Y },
        );
    } else {
        out.push(
            InputEvent::Key { tag: k.tag, timestamp: t, key_code: k.code, action: KeyAction::Press },
        );
    }
    assert(final(out)@ =~= old(out)@ + press_events(k, emulate_touchpad, t));
}

/// Appends the events that present `k` as released.
fn push_release(out: &mut Vec<InputEvent>, k: Key, emulate_touchpad: bool, t: Timestamp)
    ensures
        final(out)@ == old(out)@ + release_events(k, emulate_touchpad, t),
{
    if emulate_touchpad && k.tag == MOUSE_TAG && k.code == BTN_RIGHT {
        out.push(
            InputEvent::Abs { tag: k.tag, timestamp: t, ty: AbsType::MultitouchSlot, value: EMULATED_SLOT },
        );
        out.push(
            InputEvent::Abs { tag: k.tag, timestamp: t, ty: AbsType::MultitouchTrackingId, value: NO_CONTACT },
        );
    } else {
        out.push(
            InputEvent::Key { tag: k.tag, timestamp: t, key_code: k.code, action: KeyAction::Release },
        );
    }
    assert(final(out)@ =~= old(out)@ + release_events(k, emulate_touchpad, t));
}

/// The remapping engine: what is held, what should be presented as held, and what has been.
pub struct Remapper {
    emulate_touchpad: bool,
    actual: Vec<Key>,
    desired: Vec<Key>,
    simulated: Vec<Key>,
}

impl View for Remapper {
    type V = RemapperState;

    closed spec fn view(&self) -> RemapperState {
        RemapperState {
            emulate_touchpad: self.emulate_touchpad,
            actual: self.actual@,
            desired: self.desired@,
            simulated: self.simulated@,
        }
    }
}

impl Remapper {
    /// An engine with nothing held; `emulate_touchpad` presents the secondary button as a
    /// touchpad finger.
    pub fn new(emulate_touchpad: bool) -> (r: Remapper)
        ensures
            r@ == (RemapperState {
                emulate_touchpad,
                actual: Seq::empty(),
                desired: Seq::empty(),
                simulated: Seq::empty(),
            }),
            r@.wf(),
    {
        let r = Remapper {
            emulate_touchpad,
            actual: Vec::new(),
            desired: Vec::new(),
            simulated: Vec::new(),
        };
        assert(r@.actual =~= Seq::<Key>::empty());
        assert(r@.desired =~= Seq::<Key>::empty());
        assert(r@.simulated =~= Seq::<Key>::empty());
        r
    }

    pub fn emulates_touchpad(&self) -> (r: bool)
        ensures
            r == self@.emulate_touchpad,
    {
        self.emulate_touchpad
    }

    /// The keys physically held.
    pub fn actual(&self) -> (r: &[Key])
        ensures
            r@ == self@.actual,
    {
        self.actual.as_slice()
    }

    /// The keys that the output should present as held.
    pub fn desired(&self) -> (r: &[Key])
        ensures
            r@ == self@.desired,
    {
        self.desired.as_slice()
    }

    /// The keys that the output presents as held.
    pub fn simulated(&self) -> (r: &[Key])
        ensures
            r@ == self@.simulated,
    {
        self.simulated.as_slice()
    }
}

/// Runs the engine on one event and returns the events to write, in order.
///
/// A scan-code event is dropped and changes nothing. Any other event updates the held keys
/// and recomputes the desired ones; the event itself is written unless it would press a key
/// that should not be held or release one that should stay held; then every desired key not
/// yet presented as held is pressed, and every key presented as held but no longer desired is
/// released, so that afterwards the two sets agree.
pub fn process(remapper: &mut Remapper, event: &InputEvent) -> (out: Vec<InputEvent>)
    requires
        old(remapper)@.wf(),
    ensures
        final(remapper)@ == old(remapper)@.next(*event),
        out@ == old(remapper)@.output(*event),
        final(remapper)@.wf(),
        forall|k: Key| #[trigger]
            final(remapper)@.simulated.contains(k) <==> final(remapper)@.desired.contains(k),
        forall|i: int| 0 <= i < out@.len() ==> !is_scan(#[trigger] out@[i]),
{
    let ghost s0 = remapper@;
    if let InputEvent::Msc { ty: MscType::Scan, .. } = event {
        return Vec::new();
    }
    let tp = remapper.emulate_touchpad;
    let t = event.timestamp();
    let mut actual = remapper.actual.clone();
    assert(actual@ =~= s0.actual);
    update_key_set(&mut actual, event);
    let desired = desired_keys(&actual, tp);
    let fwd = forwards_event(event, &desired);
    let mut simulated = remapper.simulated.clone();
    assert(simulated@ =~= s0.simulated);
    let mut out: Vec<InputEvent> = Vec::new();
    if fwd {
        update_key_set(&mut simulated, event);
        out.push(*event);
    }
    let ghost head = out@;
    assert(simulated@ == s0.forwarded_simulated(*event));
    let to_press = sift_keys(&desired, &simulated, false);
    let to_release = sift_keys(&simulated, &desired, false);
    let mut i: usize = 0;
    while i < to_press.len()
        invariant
            i <= to_press@.len(),
            out@ == head + presses(to_press@.subrange(0, i as int), tp, t),
        decreases to_press@.len() - i,
    {
        proof {
            let p = to_press@.subrange(0, i + 1);
            assert(p.drop_last() =~= to_press@.subrange(0, i as int));
        }
        push_press(&mut out, to_press[i], tp, t);
        proof {
            assert(out@ =~= head + presses(to_press@.subrange(0, i + 1), tp, t));
        }
        i += 1;
    }
    assert(to_press@.subrange(0, to_press@.len() as int) =~= to_press@);
    let ghost middle = out@;
    let mut j: usize = 0;
    while j < to_release.len()
        invariant
            j <= to_release@.len(),
            out@ == middle + releases(to_release@.subrange(0, j as int), tp, t),
        decreases to_release@.len() - j,
    {
        proof {
            let p = to_release@.subrange(0, j + 1);
            assert(p.drop_last() =~= to_release@.subrange(0, j as int));
        }
        push_release(&mut out, to_release[j], tp, t);
        proof {
            assert(out@ =~= middle + releases(to_release@.subrange(0, j + 1), tp, t));
        }
        j += 1;
    }
    assert(to_release@.subrange(0, to_release@.len() as int) =~= to_release@);
    let mut next_simulated = sift_keys(&simulated, &desired, true);
    let ghost kept = next_simulated@;
    let mut n: usize = 0;
    while n < to_press.len()
        invariant
            n <= to_press@.len(),
            next_simulated@ == kept + to_press@.subrange(0, n as int),
        decreases to_press@.len() - n,
    {
        next_simulated.push(to_press[n]);
        assert(next_simulated@ =~= kept + to_press@.subrange(0, n + 1));
        n += 1;
    }
    assert(to_press@.subrange(0, to_press@.len() as int) =~= to_press@);
    remapper.actual = actual;
    remapper.desired = desired;
    remapper.simulated = next_simulated;
    proof {
        let e = *event;
        lemma_update_keys(s0.actual, e);
        lemma_update_keys(s0.simulated, e);
        lemma_desired_of(s0.next_actual(e), tp);
        lemma_sift(s0.forwarded_simulated(e), s0.next_desired(e), true);
        lemma_sift(s0.next_desired(e), s0.forwarded_simulated(e), false);
        lemma_concat_keys(kept, to_press@);
        assert(remapper@ == s0.next(e));
        assert(out@ =~= s0.output(e));
        lemma_scan_never_written(s0, e);
    }
    out
}

} // verus!
