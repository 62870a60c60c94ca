use frame_server::wire::{decode_header, HEADER_LEN};

#[test]
fn header_is_eight_bytes() {
    assert_eq!(HEADER_LEN, 8);
}

#[test]
fn header_of_sixty_four() {
    assert_eq!(decode_header(&[64, 0, 0, 0, 0, 0, 0, 0]), 64);
}

#[test]
fn header_of_zero() {
    assert_eq!(decode_header(&[0, 0, 0, 0, 0, 0, 0, 0]), 0);
}

#[test]
fn header_is_little_endian() {
    assert_eq!(decode_header(&[1, 0, 0, 0, 0, 0, 0, 0]), 1);
    assert_eq!(decode_header(&[0, 1, 0, 0, 0, 0, 0, 0]), 256);
    assert_eq!(decode_header(&[0, 0, 1, 0, 0, 0, 0, 0]), 65_536);
    assert_eq!(decode_header(&[0, 0, 0, 0, 0, 0, 0, 1]), 72_057_594_037_927_936);
    assert_eq!(
        decode_header(&[0x01, 0x02, 0x03, 0x04, 0x05, 0x06, 0x07, 0x08]),
        0x0807_0605_0403_0201
    );
}

#[test]
fn header_of_largest_length() {
    assert_eq!(decode_header(&[0xff; 8]), u64::MAX);
    assert_eq!(decode_header(&[0xff, 0xff, 0xff, 0xff, 0, 0, 0, 0]), 4_294_967_295);
}

#[test]
fn header_agrees_with_std() {
    let lengths: [u64; 9] = [
        0,
        1,
        255,
        256,
        65_535,
        1_000_000,
        0x0123_4567_89ab_cdef,
        u64::MAX - 1,
        u64::MAX,
    ];
    for len in lengths {
        let header = len.to_le_bytes();
        assert_eq!(decode_header(&header), len);
        assert_eq!(decode_header(&header), u64::from_le_bytes(header));
    }
}
