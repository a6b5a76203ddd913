//! Dirty flags: a widget or a list marks itself dirty when it must be drawn
//! again, and clean once it has been drawn.
use vstd::prelude::*;
use vstd::rwlock::RwLock;
use std::sync::Arc;

verus! {

/// Something that knows whether it must be drawn again.
pub trait Dirtyable {
    /// Whether it is marked dirty.
    spec fn dirty(&self) -> bool;

    fn is_dirty(&self) -> (r: bool)
        ensures
            r == self.dirty(),
    ;

    fn set_dirty(&mut self)
        ensures
            final(self).dirty(),
    ;

    fn set_clean(&mut self)
        ensures
            !final(self).dirty(),
    ;
}

/// A flag owned by one value.
#[derive(Clone, Copy, Debug, PartialEq, Eq, Structural, Hash)]
pub struct DirtyBit(pub bool);

impl DirtyBit {
    /// A clean flag.
    pub fn new() -> (r: DirtyBit)
        ensures
            !r.0,
    {
        DirtyBit(false)
    }
}

impl Dirtyable for DirtyBit {
    open spec fn dirty(&self) -> bool {
        self.0
    }

    fn is_dirty(&self) -> (r: bool) {
        self.0
    }

    fn set_dirty(&mut self) {
        self.0 = true;
    }

    fn set_clean(&mut self) {
        self.0 = false;
    }
}

/// A flag shared between threads: its clones all see and change one flag.
/// Another thread may change it at any time, so a read states nothing about
/// an earlier write.
pub struct AsyncDirtyBit(Arc<RwLock<bool, spec_fn(bool) -> bool>>);

impl AsyncDirtyBit {
    /// Any value may be stored in the flag.
    #[verifier::type_invariant]
    spec fn any_value(self) -> bool {
        forall|b: bool| #[trigger] self.0.inv(b)
    }

    /// A new shared flag, clean. The lock gives no view of what it holds,
    /// so no clause states the value it starts with.
    pub fn new() -> (r: AsyncDirtyBit) {
        let lock = RwLock::new(false, Ghost(|b: bool| true));
        assert(forall|b: bool| #[trigger] lock.inv(b));
        AsyncDirtyBit(Arc::new(lock))
    }

    /// Whether the shared flag is set now. Any handle, in any thread, may
    /// have changed it since it was last set here, so no clause ties the
    /// value read to an earlier write.
    pub fn is_dirty(&self) -> bool {
        let handle = self.0.acquire_read();
        let v = *handle.borrow();
        handle.release_read();
        v
    }

    /// Sets the shared flag.
    pub fn set_dirty(&self) {
        proof {
            use_type_invariant(self);
        }
        let (_, handle) = self.0.acquire_write();
        handle.release_write(true);
    }

    /// Clears the shared flag.
    pub fn set_clean(&self) {
        proof {
            use_type_invariant(self);
        }
        let (_, handle) = self.0.acquire_write();
        handle.release_write(false);
    }
}

impl Clone for AsyncDirtyBit {
    /// Another handle on the same flag.
    fn clone(&self) -> (r: AsyncDirtyBit)
        ensures
            r == *self,
    {
        proof {
            use_type_invariant(self);
        }
        AsyncDirtyBit(Arc::clone(&self.0))
    }
}

} // verus!
