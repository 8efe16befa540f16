//! Routing between the producers, the engine and the per-tag consumers.
use vstd::prelude::*;
use vstd::string::StringSliceAdditionalSpecFns;

use crate::bytes::bytes_equal;

pub mod fifo;

verus! {

/// Tag of events from keyboards.
pub const KEYBOARD_TAG: u8 = 0;

/// Tag of events from mice and touchpads.
pub const MOUSE_TAG: u8 = 1;

/// The bytes of the name of the keyboard tag.
pub open spec fn keyboard_name() -> Seq<u8> {
    "kbd".spec_bytes()
}

/// The bytes of the name of the mouse tag.
pub open spec fn mouse_name() -> Seq<u8> {
    "mouse".spec_bytes()
}

/// The tag that a name stands for: "kbd" for keyboards, "mouse" for mice and touchpads.
pub open spec fn tag_named(name: Seq<u8>) -> Option<u8> {
    if name == keyboard_name() {
        Some(KEYBOARD_TAG)
    } else if name == mouse_name() {
        Some(MOUSE_TAG)
    } else {
        None
    }
}

/// The tag that a device-class name stands for, if any.
pub fn get_tag_from_name(name: &str) -> (r: Option<u8>)
    ensures
        r == tag_named(name.spec_bytes()),
{
    let bytes = name.as_bytes();
    if bytes_equal(bytes, "kbd".as_bytes()) {
        Some(KEYBOARD_TAG)
    } else if bytes_equal(bytes, "mouse".as_bytes()) {
        Some(MOUSE_TAG)
    } else {
        None
    }
}

/// The tags for which a consumer has registered an output channel, in order of registration.
/// The channel of the tag at position `i` is the `i`-th one opened.
pub struct OutputRegistry {
    tags: Vec<u8>,
}

impl View for OutputRegistry {
    type V = Seq<u8>;

    closed spec fn view(&self) -> Seq<u8> {
        self.tags@
    }
}

impl OutputRegistry {
    pub open spec fn wf(&self) -> bool {
        self@.no_duplicates()
    }

    /// A registry with no channel.
    pub fn new() -> (r: OutputRegistry)
        ensures
            r@ == Seq::<u8>::empty(),
            r.wf(),
    {
        let r = OutputRegistry { tags: Vec::new() };
        assert(r@ =~= Seq::<u8>::empty());
        r
    }

    /// Records a consumer's registration for `tag`. Returns the position of the channel to
    /// open for it, or `None` when `tag` has one already, which stays as it is.
    pub fn register(&mut self, tag: u8) -> (slot: Option<usize>)
        requires
            old(self).wf(),
        ensures
            final(self).wf(),
            old(self)@.contains(tag) ==> slot is None && final(self)@ == old(self)@,
            !old(self)@.contains(tag) ==> slot == Some(old(self)@.len() as usize)
                && final(self)@ == old(self)@.push(tag),
    {
        match self.route(tag) {
            Some(_) => None,
            None => {
                let slot = self.tags.len();
                self.tags.push(tag);
                proof {
                    let (s, t) = (old(self)@, final(self)@);
                    assert forall|i: int, j: int| 0 <= i < t.len() && 0 <= j < t.len() && i != j
                        implies t[i] != t[j] by {
                        if i < s.len() && j < s.len() {
                            assert(t[i] == s[i] && t[j] == s[j]);
                        } else if i < s.len() {
                            assert(t[i] == s[i]);
                            assert(s.contains(s[i]));
                        } else if j < s.len() {
                            assert(t[j] == s[j]);
                            assert(s.contains(s[j]));
                        }
                    }
                }
                Some(slot)
            },
        }
    }

    /// The position of the output channel for `tag`, or `None` when no consumer registered
    /// for it: an event with that tag is then dropped.
    pub fn route(&self, tag: u8) -> (slot: Option<usize>)
        requires
            self.wf(),
        ensures
            slot matches Some(i) ==> i < self@.len() && self@[i as int] == tag,
            slot is None <==> !self@.contains(tag),
    {
        let mut i: usize = 0;
        while i < self.tags.len()
            invariant
                i <= self@.len(),
                self@ == self.tags@,
                forall|j: int| 0 <= j < i ==> self@[j] != tag,
            decreases self@.len() - i,
        {
            if self.tags[i] == tag {
                return Some(i);
            }
            i += 1;
        }
        None
    }

    /// The number of output channels.
    pub fn len(&self) -> (n: usize)
        ensures
            n == self@.len(),
    {
        self.tags.len()
    }
}

} // verus!
