//! A model of the guest-memory bytes that back a synchronization primitive.
//!
//! The authoritative record of every mutex, rwlock and condition variable
//! lives in [`crate::sync::SynchronizationState`]; guest memory holds only a
//! small header per primitive (an id field and, for some kinds, an attribute
//! field) at fixed byte offsets. A [`GuestRegion`] is the run of bytes that
//! the guest program reserved for one primitive object. Each byte is either
//! initialized or undefined; reading an undefined field is undefined
//! behaviour of the guest program.
//!
//! All multi-byte fields are stored little-endian.

use vstd::prelude::*;
use vstd::bytes::{spec_u32_from_le_bytes, spec_u32_to_le_bytes, u32_from_le_bytes, u32_to_le_bytes,
    lemma_auto_spec_u32_to_from_le_bytes};
use crate::posix::MachineStop;

verus! {

/// The bytes of one guest object. `None` is an undefined (never written) byte.
pub struct GuestRegion {
    pub cells: Vec<Option<u8>>,
}

impl GuestRegion {
    pub open spec fn len(self) -> nat {
        self.cells@.len()
    }

    /// All four bytes of the 32-bit field at byte offset `off` are initialized.
    pub open spec fn word_defined(self, off: int) -> bool {
        forall|k: int| off <= k < off + 4 ==> (#[trigger] self.cells@[k]) is Some
    }

    /// The four bytes of the 32-bit field at byte offset `off`.
    pub open spec fn word_bytes(self, off: int) -> Seq<u8> {
        Seq::new(4, |k: int| self.cells@[off + k].unwrap())
    }

    /// The 32-bit field at byte offset `off`, read little-endian.
    pub open spec fn word_u32(self, off: int) -> u32 {
        spec_u32_from_le_bytes(self.word_bytes(off))
    }

    /// The 32-bit field at byte offset `off`, reinterpreted as a signed value.
    pub open spec fn word_i32(self, off: int) -> i32 {
        self.word_u32(off) as i32
    }

    /// Bytes outside `[off, off + 4)` are the same in `self` and `other`.
    pub open spec fn same_outside_word(self, other: GuestRegion, off: int) -> bool {
        &&& self.len() == other.len()
        &&& forall|k: int|
            0 <= k < self.cells@.len() && !(off <= k < off + 4)
                ==> self.cells@[k] == #[trigger] other.cells@[k]
    }

    /// A region of `len` bytes, none of them written yet.
    pub fn new_undef(len: usize) -> (r: GuestRegion)
        ensures
            r.len() == len,
            forall|k: int| 0 <= k < len ==> (#[trigger] r.cells@[k]) is None,
    {
        let mut cells: Vec<Option<u8>> = Vec::new();
        let mut i: usize = 0;
        while i < len
            invariant
                i <= len,
                cells@.len() == i,
                forall|k: int| 0 <= k < i ==> (#[trigger] cells@[k]) is None,
            decreases len - i,
        {
            cells.push(None);
            i = i + 1;
        }
        GuestRegion { cells }
    }

    /// A region of `len` zero bytes: what a static initializer macro leaves
    /// behind (in particular, an id field of zero, meaning "unassigned").
    pub fn new_zeroed(len: usize) -> (r: GuestRegion)
        ensures
            r.len() == len,
            forall|k: int| 0 <= k < len ==> #[trigger] r.cells@[k] == Some(0u8),
    {
        let mut cells: Vec<Option<u8>> = Vec::new();
        let mut i: usize = 0;
        while i < len
            invariant
                i <= len,
                cells@.len() == i,
                forall|k: int| 0 <= k < i ==> #[trigger] cells@[k] == Some(0u8),
            decreases len - i,
        {
            cells.push(Some(0u8));
            i = i + 1;
        }
        GuestRegion { cells }
    }

    /// Read the 32-bit field at byte offset `off`; an undefined byte in the
    /// field is undefined behaviour.
    pub fn read_u32(&self, off: usize) -> (r: Result<u32, MachineStop>)
        requires
            off + 4 <= self.len(),
        ensures
            self.word_defined(off as int) ==> r == Ok::<u32, MachineStop>(self.word_u32(off as int)),
            !self.word_defined(off as int)
                ==> r == Err::<u32, MachineStop>(MachineStop::UndefinedBehavior),
    {
        let n = self.cells.len();
        let c0 = self.cells[off];
        let c1 = self.cells[off + 1];
        let c2 = self.cells[off + 2];
        let c3 = self.cells[off + 3];
        match (c0, c1, c2, c3) {
            (Some(b0), Some(b1), Some(b2), Some(b3)) => {
                let mut bytes: Vec<u8> = Vec::new();
                bytes.push(b0);
                bytes.push(b1);
                bytes.push(b2);
                bytes.push(b3);
                proof {
                    assert(bytes@ =~= self.word_bytes(off as int));
                }
                Ok(u32_from_le_bytes(bytes.as_slice()))
            },
            _ => Err(MachineStop::UndefinedBehavior),
        }
    }

    /// Read the 32-bit field at byte offset `off` as a signed value.
    pub fn read_i32(&self, off: usize) -> (r: Result<i32, MachineStop>)
        requires
            off + 4 <= self.len(),
        ensures
            self.word_defined(off as int)
                ==> r == Ok::<i32, MachineStop>(self.word_i32(off as int)),
            !self.word_defined(off as int)
                ==> r == Err::<i32, MachineStop>(MachineStop::UndefinedBehavior),
    {
        match self.read_u32(off) {
            Ok(v) => Ok(v as i32),
            Err(e) => Err(e),
        }
    }

    /// Write `v` little-endian into the 32-bit field at byte offset `off`.
    pub fn write_u32(&mut self, off: usize, v: u32)
        requires
            off + 4 <= old(self).len(),
        ensures
            final(self).len() == old(self).len(),
            final(self).word_defined(off as int),
            final(self).word_u32(off as int) == v,
            final(self).same_outside_word(*old(self), off as int),
    {
        let n = self.cells.len();
        let bytes = u32_to_le_bytes(v);
        self.cells.set(off, Some(bytes[0]));
        self.cells.set(off + 1, Some(bytes[1]));
        self.cells.set(off + 2, Some(bytes[2]));
        self.cells.set(off + 3, Some(bytes[3]));
        proof {
            lemma_auto_spec_u32_to_from_le_bytes();
            assert(self.word_bytes(off as int) =~= spec_u32_to_le_bytes(v));
        }
    }

    /// Write `v` (as its two's-complement bits) into the field at `off`.
    pub fn write_i32(&mut self, off: usize, v: i32)
        requires
            off + 4 <= old(self).len(),
        ensures
            final(self).len() == old(self).len(),
            final(self).word_defined(off as int),
            final(self).word_i32(off as int) == v,
            final(self).same_outside_word(*old(self), off as int),
    {
        self.write_u32(off, v as u32);
        proof {
            lemma_i32_bits_roundtrip(v);
        }
    }

    /// Mark the 32-bit field at byte offset `off` as undefined, as the
    /// destroy operations do.
    pub fn write_undef_word(&mut self, off: usize)
        requires
            off + 4 <= old(self).len(),
        ensures
            final(self).len() == old(self).len(),
            !final(self).word_defined(off as int),
            final(self).same_outside_word(*old(self), off as int),
    {
        let n = self.cells.len();
        self.cells.set(off, None);
        self.cells.set(off + 1, None);
        self.cells.set(off + 2, None);
        self.cells.set(off + 3, None);
        proof {
            assert((self.cells@[off as int]) is None);
        }
    }
}

/// A write to one 32-bit field leaves any disjoint 32-bit field unchanged.
pub proof fn lemma_word_preserved(pre: GuestRegion, post: GuestRegion, changed: int, off: int)
    requires
        post.same_outside_word(pre, changed),
        0 <= off,
        off + 4 <= pre.len(),
        off + 4 <= changed || changed + 4 <= off,
    ensures
        post.word_defined(off) == pre.word_defined(off),
        post.word_bytes(off) == pre.word_bytes(off),
        post.word_u32(off) == pre.word_u32(off),
        post.word_i32(off) == pre.word_i32(off),
{
    assert forall|k: int| off <= k < off + 4 implies post.cells@[k] == pre.cells@[k] by {}
    assert(post.word_bytes(off) =~= pre.word_bytes(off));
    assert(post.word_defined(off) == pre.word_defined(off)) by {
        if pre.word_defined(off) {
            assert forall|k: int| off <= k < off + 4 implies (#[trigger] post.cells@[k]) is Some by {}
        }
        if post.word_defined(off) {
            assert forall|k: int| off <= k < off + 4 implies (#[trigger] pre.cells@[k]) is Some by {}
        }
    }
}

/// Storing a signed 32-bit value through its unsigned bit pattern and reading
/// it back yields the value itself.
pub proof fn lemma_i32_bits_roundtrip(v: i32)
    ensures
        (v as u32) as i32 == v,
{
    assert((v as u32) as i32 == v) by (bit_vector);
}

} // verus!
