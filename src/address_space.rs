use vstd::prelude::*;

use crate::error::MemoryError;

verus! {

/// A fixed-size, byte-addressable region with a sub-range reserved for a
/// memory-mapped video window.
pub struct AddressSpace {
    bytes: Vec<u8>,
    vram_base: usize,
    vram_size: usize,
}

/// A video window `[base, base + len)` fits in a space of `size` bytes.
pub open spec fn layout_fits(size: int, base: int, len: int) -> bool {
    base + len <= size
}

impl View for AddressSpace {
    type V = Seq<u8>;

    closed spec fn view(&self) -> Seq<u8> {
        self.bytes@
    }
}

impl AddressSpace {
    /// Start of the video window.
    pub closed spec fn spec_vram_base(&self) -> nat {
        self.vram_base as nat
    }

    /// Length of the video window.
    pub closed spec fn spec_vram_size(&self) -> nat {
        self.vram_size as nat
    }

    /// The video window never reaches outside the space.
    pub open spec fn wf(&self) -> bool {
        layout_fits(self@.len() as int, self.spec_vram_base() as int, self.spec_vram_size() as int)
    }

    /// Same size and same video window.
    pub open spec fn same_layout(&self, other: &AddressSpace) -> bool {
        &&& self@.len() == other@.len()
        &&& self.spec_vram_base() == other.spec_vram_base()
        &&& self.spec_vram_size() == other.spec_vram_size()
    }

    /// A zero-filled space of `size` bytes whose video window starts at
    /// `vram_base` and spans `vram_size` bytes; `InvalidLayout` exactly when
    /// the window does not fit.
    pub fn create(size: usize, vram_base: usize, vram_size: usize) -> (r: Result<
        AddressSpace,
        MemoryError,
    >)
        ensures
            layout_fits(size as int, vram_base as int, vram_size as int) <==> r.is_ok(),
            r matches Err(e) ==> e == MemoryError::InvalidLayout,
            r matches Ok(s) ==> {
                &&& s.wf()
                &&& s@ == Seq::new(size as nat, |i: int| 0u8)
                &&& s.spec_vram_base() == vram_base
                &&& s.spec_vram_size() == vram_size
            },
    {
        if vram_base > size || vram_size > size - vram_base {
            return Err(MemoryError::InvalidLayout);
        }
        let mut bytes: Vec<u8> = Vec::with_capacity(size);
        let mut i: usize = 0;
        while i < size
            invariant
                i <= size,
                bytes@ == Seq::new(i as nat, |k: int| 0u8),
            decreases size - i,
        {
            bytes.push(0u8);
            i = i + 1;
            assert(bytes@ =~= Seq::new(i as nat, |k: int| 0u8));
        }
        Ok(AddressSpace { bytes, vram_base, vram_size })
    }

    /// Number of bytes in the space.
    pub fn size(&self) -> (r: usize)
        ensures
            r == self@.len(),
    {
        self.bytes.len()
    }

    /// Start of the video window.
    pub fn vram_base(&self) -> (r: usize)
        ensures
            r == self.spec_vram_base(),
    {
        self.vram_base
    }

    /// Length of the video window.
    pub fn vram_size(&self) -> (r: usize)
        ensures
            r == self.spec_vram_size(),
    {
        self.vram_size
    }

    /// The byte at `offset`, or `OutOfBounds` when `offset >= size`.
    pub fn read_byte(&self, offset: usize) -> (r: Result<u8, MemoryError>)
        ensures
            offset < self@.len() ==> r == Ok::<u8, MemoryError>(self@[offset as int]),
            offset >= self@.len() ==> r == Err::<u8, MemoryError>(MemoryError::OutOfBounds),
    {
        if offset < self.bytes.len() {
            Ok(self.bytes[offset])
        } else {
            Err(MemoryError::OutOfBounds)
        }
    }

    /// Stores `value` at `offset`; `OutOfBounds`, with nothing changed, when
    /// `offset >= size`. Size and video window never change.
    pub fn write_byte(&mut self, offset: usize, value: u8) -> (r: Result<(), MemoryError>)
        ensures
            final(self).same_layout(old(self)),
            offset < old(self)@.len() ==> {
                &&& r == Ok::<(), MemoryError>(())
                &&& final(self)@ == old(self)@.update(offset as int, value)
            },
            offset >= old(self)@.len() ==> {
                &&& r == Err::<(), MemoryError>(MemoryError::OutOfBounds)
                &&& final(self)@ == old(self)@
            },
        no_unwind
    {
        if offset < self.bytes.len() {
            self.bytes[offset] = value;
            Ok(())
        } else {
            Err(MemoryError::OutOfBounds)
        }
    }

    /// A copy of the video window's bytes, in address order.
    pub fn copy_vram(&self) -> (r: Vec<u8>)
        requires
            self.wf(),
        ensures
            r@ == self@.subrange(
                self.spec_vram_base() as int,
                (self.spec_vram_base() + self.spec_vram_size()) as int,
            ),
    {
        // the window ends inside the bytes, whose length is a `usize`
        let len = self.bytes.len();
        assert(self.vram_base + self.vram_size <= len);
        let end = self.vram_base + self.vram_size;
        let mut out: Vec<u8> = Vec::with_capacity(self.vram_size);
        let mut i: usize = self.vram_base;
        while i < end
            invariant
                self.wf(),
                end == self.vram_base + self.vram_size,
                self.vram_base <= i <= end,
                out@ == self.bytes@.subrange(self.vram_base as int, i as int),
            decreases end - i,
        {
            out.push(self.bytes[i]);
            i = i + 1;
            assert(out@ =~= self.bytes@.subrange(self.vram_base as int, i as int));
        }
        out
    }

    /// A copy of every byte, in address order.
    pub fn copy_bytes(&self) -> (r: Vec<u8>)
        ensures
            r@ == self@,
    {
        let mut out: Vec<u8> = Vec::with_capacity(self.bytes.len());
        let mut i: usize = 0;
        while i < self.bytes.len()
            invariant
                i <= self.bytes@.len(),
                out@ == self.bytes@.subrange(0, i as int),
            decreases self.bytes@.len() - i,
        {
            out.push(self.bytes[i]);
            i = i + 1;
            assert(out@ =~= self.bytes@.subrange(0, i as int));
        }
        assert(out@ =~= self.bytes@);
        out
    }
}

/// A byte written at a valid offset reads back as the value written, the
/// size stays, and every other byte keeps its value: `before` is what
/// `write_byte(o, v)` found, `after` what it left.
pub proof fn write_then_read(before: Seq<u8>, after: Seq<u8>, o: int, v: u8)
    requires
        0 <= o < before.len(),
        after == before.update(o, v),
    ensures
        after.len() == before.len(),
        after[o] == v,
        forall|k: int| 0 <= k < before.len() && k != o ==> after[k] == before[k],
{
}

} // verus!
