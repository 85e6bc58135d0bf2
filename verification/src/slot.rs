//! The supervised process handle slot and the shell lifecycle hook's effect
//! on it.
//!
//! Process-wide state owns at most one handle to the supervised backend
//! process. On a window-destruction event the hook takes exclusive ownership
//! of the stored handle, leaving the slot permanently empty, and the taken
//! handle — if there was one — receives the kill signal. The field is
//! private and `take_for_kill` is the slot's only mutator, so a cleared slot
//! is never re-populated. The caller guards the slot with a
//! mutual-exclusion lock, so the firings it delivers form a sequence; the
//! laws below speak of every such sequence.

use vstd::prelude::*;

verus! {

use crate::supervisor::HandleId;

/// The slot that owns the optional handle to the supervised process.
pub struct HandleSlot {
    handle: Option<HandleId>,
}

/// One firing of the lifecycle hook, on the stored value: the slot is left
/// empty, and whatever was stored is handed out for the kill signal.
pub open spec fn hook_fire(stored: Option<HandleId>) -> (Option<HandleId>, Option<HandleId>) {
    (None, stored)
}

/// How many kill signals a sequence of `fires` hook firings issues, starting
/// from the given stored value: one for each firing that hands out a handle.
pub open spec fn kills_issued(stored: Option<HandleId>, fires: nat) -> nat
    decreases fires,
{
    if fires == 0 {
        0
    } else {
        let taken = hook_fire(stored).1;
        (if taken is Some {
            1nat
        } else {
            0nat
        }) + kills_issued(hook_fire(stored).0, (fires - 1) as nat)
    }
}

impl HandleSlot {
    /// The handle the slot currently stores, if any.
    pub closed spec fn stored(&self) -> Option<HandleId> {
        self.handle
    }

    /// Create the slot once at startup, holding whatever the supervisor
    /// produced: a live handle, or nothing.
    pub fn new(handle: Option<HandleId>) -> (s: HandleSlot)
        ensures
            s.stored() == handle,
    {
        HandleSlot { handle }
    }

    /// Read the stored handle without disturbing it.
    pub fn current(&self) -> (r: Option<HandleId>)
        ensures
            r == self.stored(),
    {
        self.handle
    }

    /// The shell lifecycle hook's decision on a window-destruction event:
    /// clear the slot and return the handle that must receive the kill
    /// signal, if one was stored. This is the slot's only mutator, so the
    /// slot stays empty ever after.
    pub fn take_for_kill(&mut self) -> (r: Option<HandleId>)
        ensures
            final(self).stored() is None,
            r == old(self).stored(),
            (final(self).stored(), r) == hook_fire(old(self).stored()),
    {
        let r = self.handle;
        self.handle = None;
        r
    }
}

/// Law: once the lifecycle hook has fired, a second firing is a no-op — the
/// slot is already empty, and no handle is handed out, so no second kill
/// signal is issued.
pub proof fn lemma_second_fire_is_noop(stored: Option<HandleId>)
    ensures
        hook_fire(hook_fire(stored).0).0 is None,
        hook_fire(hook_fire(stored).0).1 is None,
{
}

/// Law: over any sequence of hook firings — however many destruction events
/// are delivered, in whatever order the lock admits them — at most one kill
/// signal is issued; exactly one when a handle was stored and at least one
/// event fired, and none when the slot started empty.
pub proof fn lemma_exactly_one_kill(stored: Option<HandleId>, fires: nat)
    ensures
        kills_issued(stored, fires) <= 1,
        stored is Some && fires >= 1 ==> kills_issued(stored, fires) == 1,
        stored is None ==> kills_issued(stored, fires) == 0,
    decreases fires,
{
    if fires > 0 {
        lemma_exactly_one_kill(None, (fires - 1) as nat);
    }
}

} // verus!
