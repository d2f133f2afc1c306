use sig_rp2040_board::framing::FrameBuffer;

#[test]
fn new_buffer_is_empty() {
    let mut buffer = FrameBuffer::new();
    assert!(buffer.is_empty());
    assert_eq!(buffer.next_frame(), None);
    assert!(buffer.drain_frames().is_empty());
}

#[test]
fn frame_ends_with_first_closing_brace() {
    let mut buffer = FrameBuffer::new();
    buffer.push_text("{\"a\":1}{\"b\":2}tail");
    assert_eq!(buffer.next_frame(), Some(String::from("{\"a\":1}")));
    assert_eq!(buffer.next_frame(), Some(String::from("{\"b\":2}")));
    assert_eq!(buffer.next_frame(), None);
    assert!(!buffer.is_empty());
    buffer.push_text("}");
    assert_eq!(buffer.next_frame(), Some(String::from("tail}")));
    assert!(buffer.is_empty());
}

#[test]
fn drain_takes_all_complete_frames_in_order() {
    let mut buffer = FrameBuffer::new();
    buffer.push_text("one}two}}three");
    assert_eq!(
        buffer.drain_frames(),
        vec![String::from("one}"), String::from("two}"), String::from("}")]
    );
    assert!(!buffer.is_empty());
    assert!(buffer.drain_frames().is_empty());
    buffer.push_text(" and more}");
    assert_eq!(buffer.drain_frames(), vec![String::from("three and more}")]);
    assert!(buffer.is_empty());
}

#[test]
fn text_stops_at_first_nul() {
    let mut buffer = FrameBuffer::new();
    buffer.push_text("ab}\0cd}");
    assert_eq!(buffer.drain_frames(), vec![String::from("ab}")]);
    assert!(buffer.is_empty());
    buffer.push_text("\0x}");
    assert!(buffer.is_empty());
    buffer.push_text("");
    assert!(buffer.is_empty());
}

#[test]
fn bytes_are_decoded_as_utf8() {
    let mut buffer = FrameBuffer::new();
    assert!(buffer.push_bytes("h\u{e9}llo \u{4e16}\u{754c} \u{1f600}}".as_bytes()));
    assert_eq!(
        buffer.next_frame(),
        Some(String::from("h\u{e9}llo \u{4e16}\u{754c} \u{1f600}}"))
    );
    assert!(buffer.is_empty());
}

#[test]
fn zero_padding_after_the_data_is_dropped() {
    let mut bytes = vec![0u8; 64];
    bytes[..4].copy_from_slice(b"{x}y");
    let mut buffer = FrameBuffer::new();
    assert!(buffer.push_bytes(&bytes));
    assert_eq!(buffer.drain_frames(), vec![String::from("{x}")]);
    assert!(buffer.push_bytes(b"z}"));
    assert_eq!(buffer.drain_frames(), vec![String::from("yz}")]);
}

#[test]
fn invalid_utf8_is_refused_and_changes_nothing() {
    let mut buffer = FrameBuffer::new();
    buffer.push_text("{a");
    assert!(!buffer.push_bytes(&[b'}', 0xff, b'}']));
    assert!(!buffer.push_bytes(&[0xc3]));
    assert!(!buffer.push_bytes(&[0xed, 0xa0, 0x80]));
    assert!(!buffer.push_bytes(&[0xc0, 0x80]));
    assert_eq!(buffer.next_frame(), None);
    assert!(buffer.push_bytes(b"}"));
    assert_eq!(buffer.next_frame(), Some(String::from("{a}")));
}
