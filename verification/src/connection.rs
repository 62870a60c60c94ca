//! The per-connection framing protocol as a state machine. A connection
//! asks its transport for an exact number of bytes, is told how the read
//! went, and answers with what to do next: read on, publish a frame, or
//! give the connection up. The machine never touches a transport itself.

use crate::wire::{decode_header, header_value, HEADER_LEN};
use vstd::prelude::*;

verus! {

/// Why a connection was given up. Either way the connection is closed and
/// nothing is retried on it.
#[derive(Clone, Copy, Debug, PartialEq, Eq, Structural)]
pub enum FrameReadError {
    /// The transport did not deliver a whole header.
    Header,
    /// The transport did not deliver the whole body that the header
    /// announced.
    Body,
}

/// How a read that the connection asked for went.
#[derive(Debug)]
pub enum ReadOutcome {
    /// The bytes that the transport delivered.
    Data(Vec<u8>),
    /// The read failed: a disconnect, a short read, an I/O fault.
    Failed,
}

/// A [`ReadOutcome`] as plain values.
pub enum ReadOutcomeView {
    /// The bytes that the transport delivered.
    Data(Seq<u8>),
    /// The read failed.
    Failed,
}

impl View for ReadOutcome {
    type V = ReadOutcomeView;

    open spec fn view(&self) -> ReadOutcomeView {
        match self {
            ReadOutcome::Data(bytes) => ReadOutcomeView::Data(bytes@),
            ReadOutcome::Failed => ReadOutcomeView::Failed,
        }
    }
}

/// Where a live connection stands in the protocol. A value of this type is
/// a connection that can still be read from: it is handed in with every
/// read and handed back only if the connection goes on.
#[derive(Debug, PartialEq, Eq, Structural)]
pub enum Connection {
    /// The next thing on the wire is a header.
    AwaitingHeader,
    /// A header announced `len` bytes of body, which come next.
    AwaitingBody { len: u64 },
}

/// What the connection decided after a read.
#[derive(Debug)]
pub enum Step {
    /// A header was taken in. Nothing is to be published; go on reading
    /// with the connection given here.
    Proceed(Connection),
    /// A frame is complete. Publish it, then go on reading with the
    /// connection given here.
    Publish(Vec<u8>, Connection),
    /// The connection is over.
    Close(FrameReadError),
}

/// A [`Step`] as plain values.
pub enum StepView {
    /// Read on; nothing to publish.
    Proceed(Connection),
    /// Publish the frame, then read on.
    Publish(Seq<u8>, Connection),
    /// The connection is over.
    Close(FrameReadError),
}

impl View for Step {
    type V = StepView;

    open spec fn view(&self) -> StepView {
        match self {
            Step::Proceed(next) => StepView::Proceed(*next),
            Step::Publish(frame, next) => StepView::Publish(frame@, *next),
            Step::Close(error) => StepView::Close(*error),
        }
    }
}

/// The protocol, one read at a time.
///
/// Awaiting a header, exactly 8 delivered bytes are a header: the
/// connection then awaits the body that they announce. Awaiting a body of
/// `len` bytes, exactly `len` delivered bytes are the frame, which is
/// published, and a header comes next. Anything else (a failed read, or a
/// delivery of another length) ends the connection, and names the part
/// that was being read.
pub open spec fn next_step(conn: Connection, outcome: ReadOutcomeView) -> StepView {
    match conn {
        Connection::AwaitingHeader => match outcome {
            ReadOutcomeView::Data(bytes) if bytes.len() == 8 => StepView::Proceed(
                Connection::AwaitingBody { len: header_value(bytes) as u64 },
            ),
            _ => StepView::Close(FrameReadError::Header),
        },
        Connection::AwaitingBody { len } => match outcome {
            ReadOutcomeView::Data(bytes) if bytes.len() == len => StepView::Publish(
                bytes,
                Connection::AwaitingHeader,
            ),
            _ => StepView::Close(FrameReadError::Body),
        },
    }
}

impl Connection {
    /// A connection that was just accepted: it awaits its first header.
    pub fn new() -> (conn: Connection)
        ensures
            conn == Connection::AwaitingHeader,
    {
        Connection::AwaitingHeader
    }

    /// How many bytes the next read has to deliver, no more and no fewer.
    pub open spec fn wanted_len(self) -> nat {
        match self {
            Connection::AwaitingHeader => 8,
            Connection::AwaitingBody { len } => len as nat,
        }
    }

    /// How many bytes the next read has to deliver, no more and no fewer.
    pub fn wanted(&self) -> (count: u64)
        ensures
            count == self.wanted_len(),
    {
        match self {
            Connection::AwaitingHeader => HEADER_LEN as u64,
            Connection::AwaitingBody { len } => *len,
        }
    }

    /// Takes in the outcome of the read that this connection asked for and
    /// says what follows. The connection is used up by the call: where it
    /// goes on, the step hands its next state back; where it is closed,
    /// there is nothing left to feed.
    pub fn on_read(self, outcome: ReadOutcome) -> (step: Step)
        ensures
            step@ == next_step(self, outcome@),
    {
        match self {
            Connection::AwaitingHeader => match outcome {
                ReadOutcome::Data(bytes) => {
                    if bytes.len() == HEADER_LEN {
                        let header: [u8; 8] = [
                            bytes[0],
                            bytes[1],
                            bytes[2],
                            bytes[3],
                            bytes[4],
                            bytes[5],
                            bytes[6],
                            bytes[7],
                        ];
                        assert(header@ =~= bytes@);
                        let len = decode_header(&header);
                        Step::Proceed(Connection::AwaitingBody { len })
                    } else {
                        Step::Close(FrameReadError::Header)
                    }
                },
                ReadOutcome::Failed => Step::Close(FrameReadError::Header),
            },
            Connection::AwaitingBody { len } => match outcome {
                ReadOutcome::Data(bytes) => {
                    if bytes.len() as u64 == len {
                        Step::Publish(bytes, Connection::AwaitingHeader)
                    } else {
                        Step::Close(FrameReadError::Body)
                    }
                },
                ReadOutcome::Failed => Step::Close(FrameReadError::Body),
            },
        }
    }
}

} // verus!
