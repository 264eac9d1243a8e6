//! Free lists of handles of inert entities, kept for reuse.

use vstd::prelude::*;

verus! {

/// The free list after `handle` was released to it: the handle goes to the
/// end, unless the list holds it already.
pub open spec fn released(free: Seq<u64>, handle: u64) -> Seq<u64> {
    if free.contains(handle) {
        free
    } else {
        free.push(handle)
    }
}

/// The handle that an acquisition takes from the free list, if any: the one
/// released last.
pub open spec fn acquired(free: Seq<u64>) -> Option<u64> {
    if free.len() == 0 {
        None
    } else {
        Some(free.last())
    }
}

/// The free list after an acquisition.
pub open spec fn after_acquire(free: Seq<u64>) -> Seq<u64> {
    if free.len() == 0 {
        free
    } else {
        free.drop_last()
    }
}

/// A handle that is released and acquired again comes back as it was, and
/// the free list is as before.
pub proof fn lemma_release_then_acquire(free: Seq<u64>, handle: u64)
    requires
        !free.contains(handle),
    ensures
        acquired(released(free, handle)) == Some(handle),
        after_acquire(released(free, handle)) == free,
{
    assert(free.push(handle).drop_last() =~= free);
}

/// Releasing keeps a free list without repetition so.
pub proof fn lemma_release_keeps_distinct(free: Seq<u64>, handle: u64)
    requires
        free.no_duplicates(),
    ensures
        released(free, handle).no_duplicates(),
        released(free, handle).contains(handle),
        forall|h: u64| free.contains(h) ==> #[trigger] released(free, handle).contains(h),
{
    if !free.contains(handle) {
        let r = free.push(handle);
        assert(r[free.len() as int] == handle);
        assert forall|h: u64| free.contains(h) implies #[trigger] r.contains(h) by {
            let i = choose|i: int| 0 <= i < free.len() && free[i] == h;
            assert(r[i] == h);
        }
    }
}

/// Acquiring keeps a free list without repetition so, and the handle taken
/// is no longer in it.
pub proof fn lemma_acquire_keeps_distinct(free: Seq<u64>)
    requires
        free.no_duplicates(),
    ensures
        after_acquire(free).no_duplicates(),
        acquired(free) is Some ==> !after_acquire(free).contains(acquired(free)->0),
{
    if free.len() > 0 {
        let rest = free.drop_last();
        if rest.contains(free.last()) {
            let i = choose|i: int| 0 <= i < rest.len() && rest[i] == free.last();
            assert(free[i] == free[free.len() - 1]);
        }
    }
}

fn list_contains(free: &Vec<u64>, handle: u64) -> (b: bool)
    ensures
        b == free@.contains(handle),
{
    let mut i: usize = 0;
    while i < free.len()
        invariant
            i <= free.len(),
            forall|j: int| 0 <= j < i ==> free@[j] != handle,
        decreases free.len() - i,
    {
        if free[i] == handle {
            return true;
        }
        i += 1;
    }
    false
}

fn list_release(free: &mut Vec<u64>, handle: u64) -> (fresh: bool)
    ensures
        final(free)@ == released(old(free)@, handle),
        fresh == !old(free)@.contains(handle),
{
    if list_contains(free, handle) {
        false
    } else {
        free.push(handle);
        true
    }
}

fn list_acquire(free: &mut Vec<u64>) -> (handle: Option<u64>)
    ensures
        handle == acquired(old(free)@),
        final(free)@ == after_acquire(old(free)@),
{
    free.pop()
}

/// Handles of inert projectile entities.
#[derive(Debug)]
pub struct ProjectilePool {
    pub free: Vec<u64>,
}

/// Handles of inert visual-effect entities.
#[derive(Debug)]
pub struct VfxPool {
    pub free: Vec<u64>,
}

impl ProjectilePool {
    /// No handle is in the free list twice.
    pub open spec fn wf(self) -> bool {
        self.free@.no_duplicates()
    }

    /// An empty pool.
    pub fn new() -> (p: ProjectilePool)
        ensures
            p.free@ == Seq::<u64>::empty(),
            p.wf(),
    {
        ProjectilePool { free: Vec::new() }
    }

    /// Whether `handle` waits in the pool.
    pub fn contains(&self, handle: u64) -> (b: bool)
        ensures
            b == self.free@.contains(handle),
    {
        list_contains(&self.free, handle)
    }

    /// Takes the handle released last, or returns `None`: then the caller
    /// allocates a new entity.
    pub fn acquire(&mut self) -> (handle: Option<u64>)
        ensures
            handle == acquired(old(self).free@),
            final(self).free@ == after_acquire(old(self).free@),
            old(self).wf() ==> final(self).wf(),
    {
        proof {
            if self.wf() {
                lemma_acquire_keeps_distinct(self.free@);
            }
        }
        list_acquire(&mut self.free)
    }

    /// Puts `handle` into the pool. A handle that waits there already is
    /// not put in again; the result says whether it was new.
    pub fn release(&mut self, handle: u64) -> (fresh: bool)
        ensures
            final(self).free@ == released(old(self).free@, handle),
            fresh == !old(self).free@.contains(handle),
            old(self).wf() ==> final(self).wf(),
    {
        proof {
            if self.wf() {
                lemma_release_keeps_distinct(self.free@, handle);
            }
        }
        list_release(&mut self.free, handle)
    }
}

impl VfxPool {
    /// No handle is in the free list twice.
    pub open spec fn wf(self) -> bool {
        self.free@.no_duplicates()
    }

    /// An empty pool.
    pub fn new() -> (p: VfxPool)
        ensures
            p.free@ == Seq::<u64>::empty(),
            p.wf(),
    {
        VfxPool { free: Vec::new() }
    }

    /// Whether `handle` waits in the pool.
    pub fn contains(&self, handle: u64) -> (b: bool)
        ensures
            b == self.free@.contains(handle),
    {
        list_contains(&self.free, handle)
    }

    /// Takes the handle released last, or returns `None`: then the caller
    /// allocates a new entity.
    pub fn acquire(&mut self) -> (handle: Option<u64>)
        ensures
            handle == acquired(old(self).free@),
            final(self).free@ == after_acquire(old(self).free@),
            old(self).wf() ==> final(self).wf(),
    {
        proof {
            if self.wf() {
                lemma_acquire_keeps_distinct(self.free@);
            }
        }
        list_acquire(&mut self.free)
    }

    /// Puts `handle` into the pool. A handle that waits there already is
    /// not put in again; the result says whether it was new.
    pub fn release(&mut self, handle: u64) -> (fresh: bool)
        ensures
            final(self).free@ == released(old(self).free@, handle),
            fresh == !old(self).free@.contains(handle),
            old(self).wf() ==> final(self).wf(),
    {
        proof {
            if self.wf() {
                lemma_release_keeps_distinct(self.free@, handle);
            }
        }
        list_release(&mut self.free, handle)
    }
}

} // verus!
