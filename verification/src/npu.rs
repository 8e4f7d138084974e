//! Accounting for the accelerator device: whether it is initialized and
//! which buffer addresses it has handed out.  The allocation calls
//! themselves are the caller's concern; this state decides what is
//! tracked, so that shutdown can hand back exactly the outstanding
//! addresses.

use vstd::prelude::*;

verus! {

/// A record list without every occurrence of one address.
pub open spec fn spec_without(s: Seq<u64>, x: u64) -> Seq<u64>
    decreases s.len(),
{
    if s.len() == 0 {
        Seq::empty()
    } else if s.last() == x {
        spec_without(s.drop_last(), x)
    } else {
        spec_without(s.drop_last(), x).push(s.last())
    }
}

/// Accelerator device state: initialization flag and outstanding buffer
/// addresses.
pub struct NpuState {
    initialized: bool,
    allocations: Vec<u64>,
}

impl NpuState {
    /// The outstanding buffer addresses, oldest first.
    pub closed spec fn allocs(self) -> Seq<u64> {
        self.allocations@
    }

    /// Whether the device is initialized.
    pub closed spec fn is_init(self) -> bool {
        self.initialized
    }

    /// Whether the device is initialized.
    pub fn is_initialized(&self) -> (r: bool)
        ensures
            r == self.is_init(),
    {
        self.initialized
    }

    /// Create the state of an untouched device.
    pub fn new() -> (r: NpuState)
        ensures
            !r.is_init(),
            r.allocs() =~= Seq::<u64>::empty(),
    {
        NpuState { initialized: false, allocations: Vec::new() }
    }

    /// Mark the device initialized.
    pub fn mark_initialized(&mut self)
        ensures
            final(self).is_init(),
            final(self).allocs() == old(self).allocs(),
    {
        self.initialized = true;
    }

    /// Track a buffer address handed out by the device; the null address
    /// stands for a failed allocation and is not tracked.
    pub fn record_alloc(&mut self, addr: u64)
        ensures
            final(self).is_init() == old(self).is_init(),
            addr != 0 ==> final(self).allocs() == old(self).allocs().push(addr),
            addr == 0 ==> *final(self) == *old(self),
    {
        if addr != 0 {
            self.allocations.push(addr);
        }
    }

    /// Forget a buffer address that was handed back.
    pub fn record_free(&mut self, addr: u64)
        ensures
            final(self).is_init() == old(self).is_init(),
            final(self).allocs() == spec_without(old(self).allocs(), addr),
    {
        let mut kept: Vec<u64> = Vec::new();
        let mut i: usize = 0;
        while i < self.allocations.len()
            invariant
                i <= self.allocations@.len(),
                kept@ == spec_without(self.allocations@.subrange(0, i as int), addr),
            decreases self.allocations@.len() - i,
        {
            let a = self.allocations[i];
            proof {
                assert(self.allocations@.subrange(0, i + 1).drop_last() =~= self.allocations@
                    .subrange(0, i as int));
                assert(self.allocations@.subrange(0, i + 1).last() == self.allocations@[i as int]);
            }
            if a != addr {
                kept.push(a);
            }
            i = i + 1;
        }
        proof {
            assert(self.allocations@.subrange(0, self.allocations@.len() as int) =~= self
                .allocations@);
        }
        self.allocations = kept;
    }

    /// Number of outstanding buffer addresses.
    pub fn outstanding(&self) -> (r: usize)
        ensures
            r == self.allocs().len(),
    {
        self.allocations.len()
    }

    /// Shut the device down: mark it uninitialized and hand back every
    /// outstanding address, oldest first, so the caller can release them.
    pub fn shutdown(&mut self) -> (r: Vec<u64>)
        ensures
            !final(self).is_init(),
            final(self).allocs() =~= Seq::<u64>::empty(),
            r@ == old(self).allocs(),
    {
        self.initialized = false;
        let mut drained: Vec<u64> = Vec::new();
        core::mem::swap(&mut drained, &mut self.allocations);
        drained
    }
}

} // verus!
