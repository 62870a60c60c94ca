//! The frame slot: the one place where the most recently received frame is
//! kept. It starts empty; every published frame replaces what was there, and
//! reading never changes it.

use vstd::prelude::*;

verus! {

/// Holds at most one frame: the latest one published, or nothing if none
/// ever was.
pub struct FrameSlot {
    latest: Option<Vec<u8>>,
}

impl View for FrameSlot {
    type V = Option<Seq<u8>>;

    closed spec fn view(&self) -> Option<Seq<u8>> {
        match self.latest {
            Some(frame) => Some(frame@),
            None => None,
        }
    }
}

/// The content of a slot after `frames` were published into it one after
/// another: the last of them, or what the slot held if there were none.
pub open spec fn latest_after(held: Option<Seq<u8>>, frames: Seq<Seq<u8>>) -> Option<Seq<u8>> {
    if frames.len() == 0 {
        held
    } else {
        Some(frames.last())
    }
}

impl FrameSlot {
    /// A slot that no frame has reached yet.
    pub fn new() -> (slot: FrameSlot)
        ensures
            slot@ is None,
    {
        FrameSlot { latest: None }
    }

    /// Puts `frame` in the slot in place of whatever it held.
    pub fn publish(&mut self, frame: Vec<u8>)
        ensures
            final(self)@ == Some(frame@),
            final(self)@ == latest_after(old(self)@, seq![frame@]),
    {
        self.latest = Some(frame);
    }

    /// A copy of the frame in the slot, if there is one. The slot keeps its
    /// own.
    pub fn read_latest(&self) -> (frame: Option<Vec<u8>>)
        ensures
            match frame {
                Some(bytes) => self@ == Some(bytes@),
                None => self@ is None,
            },
    {
        match &self.latest {
            Some(bytes) => {
                let copy = bytes.clone();
                assert(copy@ =~= bytes@);
                Some(copy)
            },
            None => None,
        }
    }
}

/// Publishing one run of frames and then another leaves what publishing
/// them all in one run leaves: what came before the last frame is gone.
pub proof fn lemma_latest_after_appended(
    held: Option<Seq<u8>>,
    earlier: Seq<Seq<u8>>,
    later: Seq<Seq<u8>>,
)
    ensures
        latest_after(latest_after(held, earlier), later) == latest_after(held, earlier + later),
{
    if later.len() > 0 {
        assert((earlier + later).last() == later.last());
    } else {
        assert(earlier + later =~= earlier);
    }
}

/// The last publish wins: after frame `first` and then frame `second` were
/// published, the slot holds `second`, whole, and nothing of `first`,
/// whatever it held before.
pub proof fn lemma_last_publish_wins(held: Option<Seq<u8>>, first: Seq<u8>, second: Seq<u8>)
    ensures
        latest_after(latest_after(held, seq![first]), seq![second]) == Some(second),
        latest_after(held, seq![first, second]) == Some(second),
{
}

/// However the publishes of several writers fall into line, the slot ends
/// up with one of the published frames as a whole, never with a blend: it
/// holds the frame whose publish came last.
pub proof fn lemma_slot_holds_a_published_frame(held: Option<Seq<u8>>, publishes: Seq<Seq<u8>>)
    requires
        publishes.len() > 0,
    ensures
        latest_after(held, publishes) == Some(publishes.last()),
        exists|i: int|
            0 <= i < publishes.len() && latest_after(held, publishes) == Some(
                #[trigger] publishes[i],
            ),
{
    assert(publishes.last() == publishes[publishes.len() - 1]);
}

/// Two writers race, one with frame `a` and one with frame `b`: whichever
/// of the two orders the publishes take, the slot then holds `a` or `b`.
pub proof fn lemma_race_of_two(held: Option<Seq<u8>>, a: Seq<u8>, b: Seq<u8>, a_first: bool)
    ensures
        ({
            let order = if a_first {
                seq![a, b]
            } else {
                seq![b, a]
            };
            latest_after(held, order) == Some(a) || latest_after(held, order) == Some(b)
        }),
{
}

} // verus!
