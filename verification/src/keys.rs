//! A snapshot of the pressed VM keys (values 0x0 to 0xF), one bit per key.
//! The driving loop fills one from the host input layer each iteration.

use vstd::prelude::*;

verus! {

/// Whether key `key` is down in the snapshot `bits`.
pub open spec fn key_down(bits: u16, key: u16) -> bool {
    key < 16 && (bits >> key) & 1 == 1
}

/// The lowest key at or above `k` that is down, if any.
pub open spec fn lowest_down_from(bits: u16, k: u16) -> Option<u8>
    decreases 16 - k,
{
    if k >= 16 {
        None
    } else if key_down(bits, k) {
        Some(k as u8)
    } else {
        lowest_down_from(bits, (k + 1) as u16)
    }
}

/// The lowest key that is down, if any.
pub open spec fn lowest_down(bits: u16) -> Option<u8> {
    lowest_down_from(bits, 0)
}

/// The set of currently pressed VM keys: a snapshot, not an event stream.
#[derive(Clone, Copy, Debug, PartialEq, Eq, Structural)]
pub struct KeySet {
    /// Bit `k` is set when key `k` is pressed.
    pub bits: u16,
}

impl KeySet {
    /// The empty snapshot.
    pub fn new() -> (r: KeySet)
        ensures
            r.bits == 0,
            forall|k: u16| !key_down(r.bits, k),
    {
        proof {
            assert(forall|k: u16| !key_down(0u16, k)) by {
                assert forall|k: u16| !key_down(0u16, k) by {
                    assert((0u16 >> k) & 1 == 0) by (bit_vector);
                }
            }
        }
        KeySet { bits: 0 }
    }

    /// Marks `key` as pressed.
    pub fn insert(&mut self, key: u8)
        requires
            key < 16,
        ensures
            final(self).bits == old(self).bits | (1u16 << (key as u16)),
            forall|k: u16|
                key_down(final(self).bits, k) == (key_down(old(self).bits, k) || k == key as u16),
    {
        let bits = self.bits;
        self.bits = bits | (1u16 << (key as u16));
        proof {
            assert forall|k: u16|
                key_down(bits | (1u16 << (key as u16)), k) == (key_down(bits, k) || k
                    == key as u16) by {
                lemma_insert_one(bits, key as u16, k);
            }
        }
    }

    /// Whether the key value `key` is pressed; values above 0xF never are.
    pub fn contains(&self, key: u8) -> (r: bool)
        ensures
            r == key_down(self.bits, key as u16),
    {
        key < 16 && (self.bits >> (key as u16)) & 1 == 1
    }

    /// The lowest pressed key, if any key is pressed at all.
    pub fn lowest_pressed(&self) -> (r: Option<u8>)
        ensures
            r == lowest_down(self.bits),
    {
        let mut k: u16 = 0;
        while k < 16
            invariant
                0 <= k <= 16,
                lowest_down(self.bits) == lowest_down_from(self.bits, k),
            decreases 16 - k,
        {
            if (self.bits >> k) & 1 == 1 {
                return Some(k as u8);
            }
            k = k + 1;
        }
        None
    }
}

/// Setting one bit presses exactly that key and keeps every other.
proof fn lemma_insert_one(bits: u16, key: u16, k: u16)
    by (bit_vector)
    requires
        key < 16,
    ensures
        key_down(bits | (1u16 << key), k) == (key_down(bits, k) || k == key),
{
}

} // verus!
