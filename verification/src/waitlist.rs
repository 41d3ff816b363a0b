//! A registry of waitable platform handles. A handle is held as its raw
//! integer value; the blocking platform wait itself is the embedding's
//! concern, which also reports its outcome as a [`WaitResult`].

use vstd::prelude::*;

verus! {

/// A raw handle value that no object can have: the null and the sentinel
/// handle.
pub open spec fn is_invalid_handle(h: isize) -> bool {
    h == 0isize || h == -1isize
}

/// What a wait over the list came back with.
pub enum WaitResult {
    /// One of the listed handles was signalled.
    Handle(isize),
    /// A message arrived before any handle was signalled.
    Message,
    /// The wait itself failed, with the platform's code.
    Error(u32),
}

/// The list of handles a wait covers.
pub struct WaitList {
    pub handles: Vec<isize>,
}

impl WaitList {
    /// An empty wait list.
    pub fn new() -> (r: WaitList)
        ensures
            r.handles@ == Seq::<isize>::empty(),
    {
        WaitList { handles: Vec::new() }
    }

    /// Add a handle; invalid handle values are refused.
    pub fn add(&mut self, handle: isize) -> (r: bool)
        ensures
            r == !is_invalid_handle(handle),
            r ==> final(self).handles@ == old(self).handles@.push(handle),
            !r ==> final(self).handles@ == old(self).handles@,
    {
        if handle == 0isize || handle == -1isize {
            return false;
        }
        self.handles.push(handle);
        true
    }

    /// Remove the first occurrence of a handle by swapping the last
    /// element into its place; reports whether the handle was present.
    pub fn remove(&mut self, handle: isize) -> (r: bool)
        ensures
            r == old(self).handles@.contains(handle),
            !r ==> final(self).handles@ == old(self).handles@,
            r ==> exists|i: int|
                0 <= i < old(self).handles@.len() && old(self).handles@[i] == handle && (forall|
                    j: int,
                |
                    0 <= j < i ==> old(self).handles@[j] != handle)
                    && #[trigger] final(self).handles@ == old(self).handles@.update(
                    i,
                    old(self).handles@.last(),
                ).drop_last(),
    {
        let n = self.handles.len();
        let mut i: usize = 0;
        while i < n
            invariant
                *self == *old(self),
                n == self.handles@.len(),
                0 <= i <= n,
                forall|j: int| 0 <= j < i ==> self.handles@[j] != handle,
            decreases n - i,
        {
            if self.handles[i] == handle {
                self.handles.swap_remove(i);
                return true;
            }
            i = i + 1;
        }
        false
    }
}

} // verus!
