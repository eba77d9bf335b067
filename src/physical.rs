use vstd::prelude::*;
use vstd::rwlock::{ReadHandle, RwLock, RwLockPredicate, WriteHandle};

use crate::address_space::{layout_fits, AddressSpace};
use crate::error::MemoryError;

verus! {

/// What the lock protects: the address space, and whether a writer gave the
/// lock up abnormally.
pub struct MemoryCell {
    pub space: AddressSpace,
    pub poisoned: bool,
}

/// The layout that every state held by the lock keeps.
pub struct Layout {
    pub size: usize,
    pub vram_base: usize,
    pub vram_size: usize,
}

impl Layout {
    /// `s` is well formed and has exactly this layout.
    pub open spec fn holds_of(self, s: AddressSpace) -> bool {
        &&& s.wf()
        &&& s@.len() == self.size
        &&& s.spec_vram_base() == self.vram_base
        &&& s.spec_vram_size() == self.vram_size
    }
}

impl RwLockPredicate<MemoryCell> for Layout {
    open spec fn inv(self, v: MemoryCell) -> bool {
        self.holds_of(v.space)
    }
}

/// The physical memory of the machine: one address space behind a
/// reader/writer lock. A single writer (the processor) excludes every reader;
/// any number of readers (inspectors) may hold it at once. A writer that is
/// waiting keeps new readers out, so readers cannot starve it.
pub struct PhysicalMemory {
    lock: RwLock<MemoryCell, Layout>,
    size: usize,
    vram_base: usize,
    vram_size: usize,
}

impl PhysicalMemory {
    /// The layout every state of the memory keeps.
    pub closed spec fn layout(&self) -> Layout {
        Layout { size: self.size, vram_base: self.vram_base, vram_size: self.vram_size }
    }

    /// The lock guards exactly this memory's layout.
    #[verifier::type_invariant]
    spec fn inv(&self) -> bool {
        &&& self.lock.pred() == self.layout()
        &&& layout_fits(self.size as int, self.vram_base as int, self.vram_size as int)
    }

    /// Takes ownership of `space` for the lifetime of the machine.
    pub fn new(space: AddressSpace) -> (m: PhysicalMemory)
        requires
            space.wf(),
        ensures
            m.layout().size == space@.len(),
            m.layout().vram_base == space.spec_vram_base(),
            m.layout().vram_size == space.spec_vram_size(),
    {
        let size = space.size();
        let vram_base = space.vram_base();
        let vram_size = space.vram_size();
        let ghost layout = Layout { size, vram_base, vram_size };
        let lock = RwLock::new(MemoryCell { space, poisoned: false }, Ghost(layout));
        PhysicalMemory { lock, size, vram_base, vram_size }
    }

    /// Builds the space and the memory at once; `InvalidLayout` exactly when
    /// the video window does not fit in `size` bytes.
    pub fn create(size: usize, vram_base: usize, vram_size: usize) -> (r: Result<
        PhysicalMemory,
        MemoryError,
    >)
        ensures
            layout_fits(size as int, vram_base as int, vram_size as int)
                <==> r.is_ok(),
            r matches Err(e) ==> e == MemoryError::InvalidLayout,
            r matches Ok(m) ==> m.layout() == (Layout { size, vram_base, vram_size }),
    {
        match AddressSpace::create(size, vram_base, vram_size) {
            Ok(space) => Ok(PhysicalMemory::new(space)),
            Err(e) => Err(e),
        }
    }

    /// Number of bytes in the memory.
    pub fn size(&self) -> (r: usize)
        ensures
            r == self.layout().size,
    {
        self.size
    }

    /// Start of the video window.
    pub fn vram_base(&self) -> (r: usize)
        ensures
            r == self.layout().vram_base,
    {
        self.vram_base
    }

    /// Length of the video window.
    pub fn vram_size(&self) -> (r: usize)
        ensures
            r == self.layout().vram_size,
    {
        self.vram_size
    }

    /// Waits until no reader or writer holds the memory, then hands out
    /// exclusive access. `LockPoisoned` when a former writer abandoned it; the
    /// lock is then released again before returning.
    pub fn acquire_write(&self) -> (r: Result<WriteGuard<'_>, MemoryError>)
        ensures
            r matches Ok(g) ==> g.layout() == self.layout() && g@.len() == self.layout().size,
            r matches Err(e) ==> e == MemoryError::LockPoisoned,
    {
        proof {
            use_type_invariant(self);
        }
        let (cell, handle) = self.lock.acquire_write();
        if cell.poisoned {
            handle.release_write(cell);
            Err(MemoryError::LockPoisoned)
        } else {
            Ok(WriteGuard { space: cell.space, handle, layout: Ghost(self.layout()) })
        }
    }

    /// Waits until no writer holds the memory, then hands out shared access;
    /// other readers may hold it at the same time. `LockPoisoned` when a
    /// former writer abandoned it; the lock is then released again.
    pub fn acquire_read(&self) -> (r: Result<ReadGuard<'_>, MemoryError>)
        ensures
            r matches Ok(g) ==> {
                &&& g.layout() == self.layout()
                &&& g@.len() == self.layout().size
                &&& g.is_guard_of(self)
            },
            r matches Err(e) ==> e == MemoryError::LockPoisoned,
    {
        proof {
            use_type_invariant(self);
        }
        let handle = self.lock.acquire_read();
        let poisoned = handle.borrow().poisoned;
        if poisoned {
            handle.release_read();
            Err(MemoryError::LockPoisoned)
        } else {
            Ok(ReadGuard { handle, layout: Ghost(self.layout()) })
        }
    }
}

/// Exclusive access to the memory. The holder reads and writes the bytes
/// through it; `release` publishes them, `abandon` poisons the memory.
pub struct WriteGuard<'a> {
    space: AddressSpace,
    handle: WriteHandle<'a, MemoryCell, Layout>,
    layout: Ghost<Layout>,
}

impl<'a> View for WriteGuard<'a> {
    type V = Seq<u8>;

    closed spec fn view(&self) -> Seq<u8> {
        self.space@
    }
}

impl<'a> WriteGuard<'a> {
    /// The layout of the memory the guard belongs to.
    pub closed spec fn layout(&self) -> Layout {
        self.layout@
    }

    /// The bytes held keep the memory's layout.
    #[verifier::type_invariant]
    spec fn inv(&self) -> bool {
        &&& self.handle.rwlock().pred() == self.layout@
        &&& self.layout@.holds_of(self.space)
    }

    /// Number of bytes in the memory.
    pub fn size(&self) -> (r: usize)
        ensures
            r == self.layout().size,
            r == self@.len(),
    {
        proof {
            use_type_invariant(&*self);
        }
        self.space.size()
    }

    /// The byte at `offset`, as the holder last left it, or `OutOfBounds`.
    pub fn read_byte(&self, offset: usize) -> (r: Result<u8, MemoryError>)
        ensures
            offset < self@.len() ==> r == Ok::<u8, MemoryError>(self@[offset as int]),
            offset >= self@.len() ==> r == Err::<u8, MemoryError>(MemoryError::OutOfBounds),
    {
        self.space.read_byte(offset)
    }

    /// Stores `value` at `offset`, or leaves everything as it was and returns
    /// `OutOfBounds`.
    pub fn write_byte(&mut self, offset: usize, value: u8) -> (r: Result<(), MemoryError>)
        ensures
            final(self).layout() == old(self).layout(),
            offset < old(self)@.len() ==> {
                &&& r == Ok::<(), MemoryError>(())
                &&& final(self)@ == old(self)@.update(offset as int, value)
            },
            offset >= old(self)@.len() ==> {
                &&& r == Err::<(), MemoryError>(MemoryError::OutOfBounds)
                &&& final(self)@ == old(self)@
            },
    {
        proof {
            use_type_invariant(&*self);
        }
        self.space.write_byte(offset, value)
    }

    /// Gives the lock up, making every byte written through the guard visible
    /// to the next holder.
    pub fn release(self) {
        proof {
            use_type_invariant(&self);
        }
        let WriteGuard { space, handle, layout: _ } = self;
        handle.release_write(MemoryCell { space, poisoned: false });
    }

    /// Gives the lock up after a failure in the middle of a write: the memory
    /// is poisoned and every later acquisition fails with `LockPoisoned`.
    pub fn abandon(self) {
        proof {
            use_type_invariant(&self);
        }
        let WriteGuard { space, handle, layout: _ } = self;
        handle.release_write(MemoryCell { space, poisoned: true });
    }
}

/// Shared access to the memory; the bytes cannot change while it is held.
pub struct ReadGuard<'a> {
    handle: ReadHandle<'a, MemoryCell, Layout>,
    layout: Ghost<Layout>,
}

impl<'a> View for ReadGuard<'a> {
    type V = Seq<u8>;

    closed spec fn view(&self) -> Seq<u8> {
        self.handle.view().space@
    }
}

impl<'a> ReadGuard<'a> {
    /// The layout of the memory the guard belongs to.
    pub closed spec fn layout(&self) -> Layout {
        self.layout@
    }

    /// The guard was handed out by `m`.
    pub closed spec fn is_guard_of(&self, m: &PhysicalMemory) -> bool {
        self.handle.rwlock() == m.lock
    }

    /// The observed bytes have the memory's layout.
    #[verifier::type_invariant]
    spec fn inv(&self) -> bool {
        &&& self.handle.rwlock().pred() == self.layout@
        &&& self.layout@.holds_of(self.handle.view().space)
    }

    /// Number of bytes in the memory.
    pub fn size(&self) -> (r: usize)
        ensures
            r == self.layout().size,
            r == self@.len(),
    {
        proof {
            use_type_invariant(&*self);
        }
        self.handle.borrow().space.size()
    }

    /// The byte at `offset`, or `OutOfBounds`.
    pub fn read_byte(&self, offset: usize) -> (r: Result<u8, MemoryError>)
        ensures
            offset < self@.len() ==> r == Ok::<u8, MemoryError>(self@[offset as int]),
            offset >= self@.len() ==> r == Err::<u8, MemoryError>(MemoryError::OutOfBounds),
    {
        self.handle.borrow().space.read_byte(offset)
    }

    /// A copy of every observed byte, taken while the guard holds them still.
    pub fn copy_bytes(&self) -> (r: Vec<u8>)
        ensures
            r@ == self@,
            r@.len() == self.layout().size,
    {
        proof {
            use_type_invariant(&*self);
        }
        self.handle.borrow().space.copy_bytes()
    }

    /// A copy of the video window's bytes, read under the same guard.
    pub fn copy_vram(&self) -> (r: Vec<u8>)
        ensures
            r@ == self@.subrange(
                self.layout().vram_base as int,
                self.layout().vram_base + self.layout().vram_size as int,
            ),
    {
        proof {
            use_type_invariant(&*self);
        }
        self.handle.borrow().space.copy_vram()
    }

    /// Gives the shared access up.
    pub fn release(self) {
        let ReadGuard { handle, layout: _ } = self;
        handle.release_read();
    }
}

/// No torn reads: any two read guards held at once on one memory observe the
/// very same bytes, a whole state that the last writer released. It does no
/// work when run; calling it lets a caller rely on the fact.
pub fn readers_agree(a: &ReadGuard, b: &ReadGuard, m: &PhysicalMemory)
    requires
        a.is_guard_of(m),
        b.is_guard_of(m),
    ensures
        a@ == b@,
{
    proof {
        ReadHandle::lemma_readers_match(&a.handle, &b.handle);
    }
}

} // verus!
