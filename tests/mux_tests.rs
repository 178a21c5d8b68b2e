use scope_core::mux::encode_mux_frame;

#[test]
fn mux_frame_empty_control_link() {
    assert_eq!(encode_mux_frame(&[], 0xFF), vec![0xBF, 0xFF, 0x00, 0x00, 0x00]);
}

#[test]
fn mux_frame_carries_payload() {
    assert_eq!(
        encode_mux_frame(&[1, 2, 3], 0x02),
        vec![0xBF, 0x02, 0x00, 0x03, 1, 2, 3, 0xFD]
    );
}

#[test]
fn mux_frame_length_is_big_endian() {
    let data = vec![0xAAu8; 300];
    let frame = encode_mux_frame(&data, 0x01);
    assert_eq!(frame.len(), 305);
    assert_eq!(frame[2], 0x01);
    assert_eq!(frame[3], 0x2C);
    assert_eq!(frame[304], 0xFE);
}

#[test]
fn mux_frame_truncates_to_limit() {
    let data: Vec<u8> = (0..2000u32).map(|i| (i % 251) as u8).collect();
    for link in [0u8, 6, 0x80, 0xFF] {
        let frame = encode_mux_frame(&data, link);
        assert_eq!(frame.len(), 5 + 1023);
        assert_eq!(frame[0], 0xBF);
        assert_eq!(frame[1], link);
        assert_eq!(frame[2], 0x03);
        assert_eq!(frame[3], 0xFF);
        assert_eq!(&frame[4..4 + 1023], &data[..1023]);
        assert_eq!(*frame.last().unwrap(), frame[1] ^ 0xFF);
    }
}
