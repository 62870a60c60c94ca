//! Serving a connection: taking in what its transport delivers and
//! publishing every whole frame into a slot, in the order of arrival. One
//! read at a time for a live transport ([`handle_read`]), or from the first
//! byte to the disconnect for a stream that is at hand as a whole
//! ([`serve_stream`]).

use crate::connection::{
    next_step, Connection, FrameReadError, ReadOutcome, ReadOutcomeView, Step, StepView,
};
use crate::shared::SharedFrameSlot;
use crate::slot::{latest_after, lemma_latest_after_appended, FrameSlot};
use crate::wire::{
    first_message_len, frames_of, header_bytes, header_value, lemma_frames_of_wire_image,
    lemma_header_round_trip, lemma_header_value_bound, message, residue_of,
    starts_with_message, wire_image,
};
use vstd::prelude::*;
use vstd::slice::{slice_subrange, slice_to_vec};

verus! {

/// What a transport that holds exactly `rest` answers to a read of `wanted`
/// bytes: the next `wanted` bytes if it has that many, a failure if not.
pub open spec fn delivery(rest: Seq<u8>, wanted: nat) -> ReadOutcomeView {
    if wanted <= rest.len() {
        ReadOutcomeView::Data(rest.take(wanted as int))
    } else {
        ReadOutcomeView::Failed
    }
}

/// How a connection ends once its stream runs dry: inside (or in front of)
/// a header, or inside a body.
pub open spec fn ending_of(stream: Seq<u8>) -> FrameReadError {
    if residue_of(stream).len() < 8 {
        FrameReadError::Header
    } else {
        FrameReadError::Body
    }
}

/// How a connection goes on after a step: with the connection that the step
/// names, or not at all.
pub open spec fn continuation(step: StepView) -> Result<Connection, FrameReadError> {
    match step {
        StepView::Proceed(next) => Ok(next),
        StepView::Publish(_, next) => Ok(next),
        StepView::Close(error) => Err(error),
    }
}

/// Takes the outcome of one read for a live connection and does all that
/// follows from it: where the read completes a frame, the frame is
/// published into `slot`, once, before this function returns and so before
/// the next header is read. Returns the connection to read on with, or the
/// error that ended it.
pub fn handle_read(
    conn: Connection,
    outcome: ReadOutcome,
    slot: &SharedFrameSlot,
) -> (next: Result<Connection, FrameReadError>)
    requires
        next_step(conn, outcome@) matches StepView::Publish(frame, _) ==> slot.admits(frame),
    ensures
        next == continuation(next_step(conn, outcome@)),
{
    match conn.on_read(outcome) {
        Step::Proceed(next) => Ok(next),
        Step::Publish(frame, next) => {
            slot.publish(frame);
            Ok(next)
        },
        Step::Close(error) => Err(error),
    }
}

/// What a connection in state `conn` does when its transport holds exactly
/// `stream` and then reports the disconnect: the frames it publishes, in
/// order, and the error it ends with. Each read asks for what the
/// connection wants and is answered by [`delivery`]; each answer is taken in
/// by [`next_step`].
pub open spec fn run(conn: Connection, stream: Seq<u8>) -> (Seq<Seq<u8>>, FrameReadError)
    decreases stream.len(), (if conn is AwaitingBody { 1int } else { 0int }),
{
    let wanted = conn.wanted_len();
    match next_step(conn, delivery(stream, wanted)) {
        StepView::Proceed(next) => run(next, stream.skip(wanted as int)),
        StepView::Publish(frame, next) => {
            let later = run(next, stream.skip(wanted as int));
            (seq![frame] + later.0, later.1)
        },
        StepView::Close(error) => (Seq::empty(), error),
    }
}

/// The protocol reads the wire format: a connection that starts afresh on
/// `stream` publishes exactly the frames that the stream carries in full,
/// in their order, and ends in the part of a message where the stream
/// breaks off.
pub proof fn lemma_run_reads_the_frames(stream: Seq<u8>)
    ensures
        run(Connection::AwaitingHeader, stream) == (frames_of(stream), ending_of(stream)),
    decreases stream.len(),
{
    if stream.len() >= 8 {
        let header = stream.take(8);
        assert(header =~= stream.subrange(0, 8));
        lemma_header_value_bound(header);
        let len = header_value(header);
        let body_on = stream.skip(8);
        assert(run(Connection::AwaitingHeader, stream) == run(
            Connection::AwaitingBody { len: len as u64 },
            body_on,
        ));
        if len <= body_on.len() {
            let n = first_message_len(stream);
            assert(body_on.take(len as int) =~= stream.subrange(8, n));
            assert(body_on.skip(len as int) =~= stream.skip(n));
            lemma_run_reads_the_frames(stream.skip(n));
        }
    }
}

/// Reads `wanted` bytes from `stream` at `pos`, as an exact read from a
/// transport would.
fn deliver(stream: &[u8], pos: usize, wanted: u64) -> (outcome: ReadOutcome)
    requires
        pos <= stream@.len(),
    ensures
        outcome@ == delivery(stream@.skip(pos as int), wanted as nat),
{
    let left: usize = stream.len() - pos;
    if wanted <= left as u64 {
        let count: usize = wanted as usize;
        let bytes = slice_to_vec(slice_subrange(stream, pos, pos + count));
        assert(bytes@ =~= stream@.skip(pos as int).take(wanted as int));
        ReadOutcome::Data(bytes)
    } else {
        ReadOutcome::Failed
    }
}

/// Serves one connection from its first byte to its disconnect, where
/// `stream` is all that the peer sent. Each frame that arrived whole is
/// published into `slot`, in order; a message that the stream breaks off in
/// is dropped without a trace. Returns the part of a message in which the
/// stream ran dry.
pub fn serve_stream(stream: &[u8], slot: &mut FrameSlot) -> (end: FrameReadError)
    ensures
        final(slot)@ == latest_after(old(slot)@, frames_of(stream@)),
        end == ending_of(stream@),
{
    let mut conn = Connection::new();
    let mut pos: usize = 0;
    proof {
        assert(stream@.skip(0) =~= stream@);
        lemma_run_reads_the_frames(stream@);
    }
    loop
        invariant
            pos <= stream.len() == stream@.len(),
            latest_after(slot@, run(conn, stream@.skip(pos as int)).0) == latest_after(
                old(slot)@,
                frames_of(stream@),
            ),
            run(conn, stream@.skip(pos as int)).1 == ending_of(stream@),
        decreases stream.len() - pos, (if conn is AwaitingBody { 1int } else { 0int }),
    {
        let ghost before = conn;
        let ghost rest = stream@.skip(pos as int);
        let wanted = conn.wanted();
        let outcome = deliver(stream, pos, wanted);
        match conn.on_read(outcome) {
            Step::Proceed(next) => {
                assert(rest.skip(8) =~= stream@.skip(pos + 8));
                pos = pos + 8;
                conn = next;
            },
            Step::Publish(frame, next) => {
                proof {
                    let later = run(next, rest.skip(wanted as int));
                    assert(rest.skip(wanted as int) =~= stream@.skip(pos + wanted));
                    assert(run(before, rest).0 == seq![frame@] + later.0);
                    lemma_latest_after_appended(slot@, seq![frame@], later.0);
                    lemma_latest_after_appended(Some(frame@), Seq::empty(), later.0);
                    assert(Seq::<Seq<u8>>::empty() + later.0 =~= later.0);
                }
                pos = pos + frame.len();
                slot.publish(frame);
                conn = next;
            },
            Step::Close(error) => {
                return error;
            },
        }
    }
}

/// A message that is cut short is no message: a proper beginning of the
/// message of `body` does not start with a whole message.
pub proof fn lemma_cut_message_is_incomplete(body: Seq<u8>, cut: int)
    requires
        body.len() <= u64::MAX,
        0 <= cut < 8 + body.len(),
    ensures
        !starts_with_message(message(body).take(cut)),
{
    let whole = message(body);
    let piece = whole.take(cut);
    lemma_header_round_trip(body.len() as u64);
    if cut >= 8 {
        assert(piece.subrange(0, 8) =~= whole.subrange(0, 8));
        assert(whole.subrange(0, 8) =~= header_bytes(body.len() as u64));
    }
}

/// Every frame that was sent in full is the latest one once its last byte
/// is in. The peer sends `frames` one after another over one connection;
/// at any moment the stream so far is the messages of the first `sent` of
/// them and `cut` bytes of the next message (`next`), not all of it. Then
/// the slot holds the last frame that was sent in full, byte for byte, or,
/// while none was, what it held before.
pub proof fn lemma_sent_frame_becomes_latest(
    held: Option<Seq<u8>>,
    frames: Seq<Seq<u8>>,
    sent: int,
    next: Seq<u8>,
    cut: int,
)
    requires
        forall|i: int| 0 <= i < frames.len() ==> (#[trigger] frames[i]).len() <= u64::MAX,
        0 <= sent <= frames.len(),
        next.len() <= u64::MAX,
        0 <= cut < 8 + next.len(),
    ensures
        ({
            let so_far = wire_image(frames.take(sent)) + message(next).take(cut);
            &&& frames_of(so_far) == frames.take(sent)
            &&& sent > 0 ==> latest_after(held, frames_of(so_far)) == Some(frames[sent - 1])
            &&& sent == 0 ==> latest_after(held, frames_of(so_far)) == held
        }),
{
    lemma_cut_message_is_incomplete(next, cut);
    lemma_frames_of_wire_image(frames.take(sent), message(next).take(cut));
}

/// A connection that breaks off inside a message leaves the slot as it
/// was. Of the message of `body` only the first `cut` bytes arrive: a piece
/// of the header, or the whole header and a piece of the body (none of it,
/// where `cut` is 8). Nothing of that frame is ever seen, and the
/// connection ends with the error of the part that broke.
pub proof fn lemma_broken_message_leaves_slot(held: Option<Seq<u8>>, body: Seq<u8>, cut: int)
    requires
        body.len() <= u64::MAX,
        0 <= cut < 8 + body.len(),
    ensures
        latest_after(held, frames_of(message(body).take(cut))) == held,
        ending_of(message(body).take(cut)) == if cut < 8 {
            FrameReadError::Header
        } else {
            FrameReadError::Body
        },
{
    lemma_cut_message_is_incomplete(body, cut);
    lemma_header_round_trip(body.len() as u64);
    assert(message(body).take(cut).len() == cut);
}

/// Connections are served one by one, each from a fresh start: what one
/// connection left in the slot stays until a later one brings a whole
/// frame, and how the earlier connection ended (even broken off inside a
/// message) has no bearing on the later one.
pub proof fn lemma_connections_served_in_turn(
    held: Option<Seq<u8>>,
    earlier: Seq<u8>,
    later: Seq<u8>,
)
    ensures
        ({
            let between = latest_after(held, frames_of(earlier));
            let after = latest_after(between, frames_of(later));
            &&& after == latest_after(held, frames_of(earlier) + frames_of(later))
            &&& frames_of(later).len() > 0 ==> after == Some(frames_of(later).last())
            &&& frames_of(later).len() == 0 ==> after == between
        }),
{
    lemma_latest_after_appended(held, frames_of(earlier), frames_of(later));
}

} // verus!
