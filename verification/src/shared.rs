//! The frame slot behind a lock, for any number of writers and readers at
//! once. Every access takes the lock for one look at the slot or one
//! replacement of its content and gives it back at once: a reader gets a
//! frame that some writer published as a whole, never a piece of one, and
//! gets nothing only from a slot that was empty when it was shared.

use crate::slot::FrameSlot;
use vstd::prelude::*;
use vstd::rwlock::RwLock;

verus! {

/// A frame slot that many threads may publish into and read from.
///
/// What can be said of a value that other threads replace at any moment is
/// what holds of every frame that may be published at all. Each shared slot
/// therefore has a rule, [`SharedFrameSlot::admits`], on the frames that
/// writers may publish into it, and promises its readers that rule of every
/// frame they get. A slot made with [`SharedFrameSlot::new`] admits every
/// frame.
///
/// A slot is never emptied: a frame only ever gives way to another frame.
/// So a reader can find nothing only in a slot that was empty when it was
/// shared, which [`SharedFrameSlot::may_be_empty`] records. A slot that
/// held a frame when it was shared holds a frame at every read.
pub struct SharedFrameSlot {
    lock: RwLock<FrameSlot, spec_fn(FrameSlot) -> bool>,
    rule: Ghost<spec_fn(Seq<u8>) -> bool>,
    shared_empty: Ghost<bool>,
}

impl SharedFrameSlot {
    #[verifier::type_invariant]
    spec fn wf(self) -> bool {
        forall|slot: FrameSlot| #[trigger]
            self.lock.inv(slot) <==> match slot@ {
                Some(frame) => (self.rule@)(frame),
                None => self.shared_empty@,
            }
    }

    /// Whether `frame` may be published into this slot.
    pub closed spec fn admits(&self, frame: Seq<u8>) -> bool {
        (self.rule@)(frame)
    }

    /// Whether a reader may find this slot empty: whether it was empty when
    /// it was shared.
    pub closed spec fn may_be_empty(&self) -> bool {
        self.shared_empty@
    }

    /// An empty shared slot that admits every frame.
    pub fn new() -> (shared: SharedFrameSlot)
        ensures
            forall|frame: Seq<u8>| shared.admits(frame),
            shared.may_be_empty(),
    {
        SharedFrameSlot::sharing(FrameSlot::new())
    }

    /// Puts `slot` behind a lock, with what it holds. The shared slot
    /// admits every frame, and may be found empty only if `slot` is empty.
    pub fn sharing(slot: FrameSlot) -> (shared: SharedFrameSlot)
        ensures
            forall|frame: Seq<u8>| shared.admits(frame),
            shared.may_be_empty() == (slot@ is None),
    {
        let ghost shared_empty = slot@ is None;
        let ghost keeps_a_frame = |held: FrameSlot| held@ is None ==> shared_empty;
        let lock = RwLock::new(slot, Ghost(keeps_a_frame));
        SharedFrameSlot {
            lock,
            rule: Ghost(|frame: Seq<u8>| true),
            shared_empty: Ghost(shared_empty),
        }
    }

    /// An empty shared slot that admits the frames of which `rule` holds,
    /// and no others. Readers of a slot whose rule names two frames get one
    /// of the two, or nothing while neither is published; readers of a slot
    /// that admits no frame get nothing.
    pub fn admitting(Ghost(rule): Ghost<spec_fn(Seq<u8>) -> bool>) -> (shared: SharedFrameSlot)
        ensures
            forall|frame: Seq<u8>| shared.admits(frame) == rule(frame),
            shared.may_be_empty(),
    {
        let ghost holds_admitted = |slot: FrameSlot| slot@ matches Some(frame) ==> rule(frame);
        let lock = RwLock::new(FrameSlot::new(), Ghost(holds_admitted));
        SharedFrameSlot { lock, rule: Ghost(rule), shared_empty: Ghost(true) }
    }

    /// Replaces the content of the slot by `frame`. The lock is held for
    /// the replacement alone.
    pub fn publish(&self, frame: Vec<u8>)
        requires
            self.admits(frame@),
    {
        proof {
            use_type_invariant(self);
        }
        let (held, handle) = self.lock.acquire_write();
        let mut slot = held;
        slot.publish(frame);
        handle.release_write(slot);
    }

    /// A copy of the frame that the slot holds at the moment of the call,
    /// if it holds one. Whichever writer came last before the read, the
    /// frame is one that was published whole: the slot's rule holds of it.
    /// Nothing is returned only where the slot may be empty: a slot that
    /// was shared with a frame in it yields a frame at every read.
    pub fn read_latest(&self) -> (frame: Option<Vec<u8>>)
        ensures
            frame matches Some(bytes) ==> self.admits(bytes@),
            frame is None ==> self.may_be_empty(),
    {
        proof {
            use_type_invariant(self);
        }
        let handle = self.lock.acquire_read();
        let frame = handle.borrow().read_latest();
        handle.release_read();
        frame
    }
}

} // verus!
