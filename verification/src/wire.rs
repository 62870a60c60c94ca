//! The wire format: a connection carries frame messages back to back, each
//! one an 8-byte little-endian length followed by that many bytes of body.
//! There is nothing else on the wire: no magic number, no checksum, no
//! acknowledgement.

use vstd::prelude::*;

verus! {

/// Number of bytes in the length header that precedes every frame body.
pub const HEADER_LEN: usize = 8;

/// The number that an 8-byte header stands for: its bytes read as an
/// unsigned integer, least significant byte first.
pub open spec fn header_value(header: Seq<u8>) -> nat
    recommends
        header.len() == 8,
{
    (header[0] as nat)
        + 0x100 * (header[1] as nat)
        + 0x1_0000 * (header[2] as nat)
        + 0x100_0000 * (header[3] as nat)
        + 0x1_0000_0000 * (header[4] as nat)
        + 0x100_0000_0000 * (header[5] as nat)
        + 0x1_0000_0000_0000 * (header[6] as nat)
        + 0x100_0000_0000_0000 * (header[7] as nat)
}

/// The header that announces a body of `len` bytes.
#[verifier::opaque]
pub open spec fn header_bytes(len: u64) -> Seq<u8> {
    seq![
        (len % 0x100) as u8,
        (len / 0x100 % 0x100) as u8,
        (len / 0x1_0000 % 0x100) as u8,
        (len / 0x100_0000 % 0x100) as u8,
        (len / 0x1_0000_0000 % 0x100) as u8,
        (len / 0x100_0000_0000 % 0x100) as u8,
        (len / 0x1_0000_0000_0000 % 0x100) as u8,
        (len / 0x100_0000_0000_0000 % 0x100) as u8,
    ]
}

/// One frame as it travels: header, then body.
pub open spec fn message(body: Seq<u8>) -> Seq<u8>
    recommends
        body.len() <= u64::MAX,
{
    header_bytes(body.len() as u64) + body
}

/// A run of frames as it travels: their messages, one after another.
pub open spec fn wire_image(frames: Seq<Seq<u8>>) -> Seq<u8>
    decreases frames.len(),
{
    if frames.len() == 0 {
        Seq::empty()
    } else {
        message(frames.first()) + wire_image(frames.drop_first())
    }
}

/// Whether `stream` starts with a whole message: a full header and all of
/// the body that the header announces.
pub open spec fn starts_with_message(stream: Seq<u8>) -> bool {
    stream.len() >= 8 && stream.len() - 8 >= header_value(stream.subrange(0, 8))
}

/// Length of the first message of a stream that starts with one, header
/// included.
pub open spec fn first_message_len(stream: Seq<u8>) -> int
    recommends
        starts_with_message(stream),
{
    8 + header_value(stream.subrange(0, 8)) as int
}

/// The frames that a stream carries in full, in the order of their arrival.
/// Reading stops at the first message that the stream does not hold to its
/// end; what follows it is never interpreted.
pub open spec fn frames_of(stream: Seq<u8>) -> Seq<Seq<u8>>
    decreases stream.len(),
{
    if starts_with_message(stream) {
        let n = first_message_len(stream);
        seq![stream.subrange(8, n)] + frames_of(stream.skip(n))
    } else {
        Seq::empty()
    }
}

/// What a stream holds behind its last whole message: nothing, a piece of
/// a header, or a header with a piece of its body.
pub open spec fn residue_of(stream: Seq<u8>) -> Seq<u8>
    decreases stream.len(),
{
    if starts_with_message(stream) {
        residue_of(stream.skip(first_message_len(stream)))
    } else {
        stream
    }
}

/// Reads the body length out of a header.
pub fn decode_header(header: &[u8; 8]) -> (len: u64)
    ensures
        len == header_value(header@),
{
    let b0: u64 = header[0] as u64;
    let b1: u64 = header[1] as u64;
    let b2: u64 = header[2] as u64;
    let b3: u64 = header[3] as u64;
    let b4: u64 = header[4] as u64;
    let b5: u64 = header[5] as u64;
    let b6: u64 = header[6] as u64;
    let b7: u64 = header[7] as u64;
    b0
        + 0x100 * b1
        + 0x1_0000 * b2
        + 0x100_0000 * b3
        + 0x1_0000_0000 * b4
        + 0x100_0000_0000 * b5
        + 0x1_0000_0000_0000 * b6
        + 0x100_0000_0000_0000 * b7
}

/// Every 8-byte header stands for a length that fits 64 bits.
pub proof fn lemma_header_value_bound(header: Seq<u8>)
    requires
        header.len() == 8,
    ensures
        header_value(header) <= u64::MAX,
{
}

/// A header decodes to the length it was made for.
pub proof fn lemma_header_round_trip(len: u64)
    ensures
        header_bytes(len).len() == 8,
        header_value(header_bytes(len)) == len,
{
    reveal(header_bytes);
    assert(len == (len % 0x100)
        + 0x100 * (len / 0x100 % 0x100)
        + 0x1_0000 * (len / 0x1_0000 % 0x100)
        + 0x100_0000 * (len / 0x100_0000 % 0x100)
        + 0x1_0000_0000 * (len / 0x1_0000_0000 % 0x100)
        + 0x100_0000_0000 * (len / 0x100_0000_0000 % 0x100)
        + 0x1_0000_0000_0000 * (len / 0x1_0000_0000_0000 % 0x100)
        + 0x100_0000_0000_0000 * (len / 0x100_0000_0000_0000 % 0x100)) by (bit_vector);
}

/// Two headers that stand for the same length are the same bytes: the
/// length of a body has exactly one header.
pub proof fn lemma_header_unique(header: Seq<u8>)
    requires
        header.len() == 8,
    ensures
        header_bytes(header_value(header) as u64) == header,
{
    let b0 = header[0];
    let b1 = header[1];
    let b2 = header[2];
    let b3 = header[3];
    let b4 = header[4];
    let b5 = header[5];
    let b6 = header[6];
    let b7 = header[7];
    let len = header_value(header) as u64;
    assert(len % 0x100 == b0
        && len / 0x100 % 0x100 == b1
        && len / 0x1_0000 % 0x100 == b2
        && len / 0x100_0000 % 0x100 == b3
        && len / 0x1_0000_0000 % 0x100 == b4
        && len / 0x100_0000_0000 % 0x100 == b5
        && len / 0x1_0000_0000_0000 % 0x100 == b6
        && len / 0x100_0000_0000_0000 % 0x100 == b7) by (bit_vector)
        requires
            len == b0
                + 0x100 * b1
                + 0x1_0000 * b2
                + 0x100_0000 * b3
                + 0x1_0000_0000 * b4
                + 0x100_0000_0000 * b5
                + 0x1_0000_0000_0000 * b6
                + 0x100_0000_0000_0000 * b7,
    ;
    reveal(header_bytes);
    assert(header_bytes(len) =~= header);
}

/// What goes in comes out: a stream made of the messages of `frames`, cut
/// off anywhere inside a further message (or not at all), carries exactly
/// `frames`, in their order, and the cut-off piece is what stays behind.
pub proof fn lemma_frames_of_wire_image(frames: Seq<Seq<u8>>, tail: Seq<u8>)
    requires
        forall|i: int| 0 <= i < frames.len() ==> (#[trigger] frames[i]).len() <= u64::MAX,
        !starts_with_message(tail),
    ensures
        frames_of(wire_image(frames) + tail) == frames,
        residue_of(wire_image(frames) + tail) == tail,
    decreases frames.len(),
{
    let stream = wire_image(frames) + tail;
    if frames.len() == 0 {
        assert(stream =~= tail);
    } else {
        let body = frames.first();
        let rest = frames.drop_first();
        let len = body.len() as u64;
        lemma_header_round_trip(len);
        assert(stream.subrange(0, 8) =~= header_bytes(len));
        assert(starts_with_message(stream));
        let n = first_message_len(stream);
        assert(n == 8 + body.len());
        assert(stream.subrange(8, n) =~= body);
        assert(stream.skip(n) =~= wire_image(rest) + tail);
        assert forall|i: int| 0 <= i < rest.len() implies (#[trigger] rest[i]).len()
            <= u64::MAX by {
            assert(rest[i] == frames[i + 1]);
        }
        lemma_frames_of_wire_image(rest, tail);
        assert(seq![body] + rest =~= frames);
    }
}

} // verus!
