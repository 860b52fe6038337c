use la32_decode::words::{chunk_words, read_word};

#[test]
fn empty_buffer_has_no_words() {
    assert_eq!(chunk_words(&[]), Vec::<u32>::new());
}

#[test]
fn buffer_shorter_than_a_word_has_no_words() {
    assert_eq!(chunk_words(&[0x01]), Vec::<u32>::new());
    assert_eq!(chunk_words(&[0x01, 0x02]), Vec::<u32>::new());
    assert_eq!(chunk_words(&[0x01, 0x02, 0x03]), Vec::<u32>::new());
}

#[test]
fn one_word_is_little_endian() {
    assert_eq!(chunk_words(&[0x78, 0x56, 0x34, 0x12]), vec![0x1234_5678]);
}

#[test]
fn words_come_left_to_right_without_overlap() {
    let bytes = [0x01, 0x00, 0x00, 0x00, 0x00, 0x02, 0x00, 0x00, 0xff, 0xff, 0xff, 0xff];
    assert_eq!(chunk_words(&bytes), vec![0x0000_0001, 0x0000_0200, 0xffff_ffff]);
}

#[test]
fn trailing_bytes_are_dropped() {
    let bytes = [0xef, 0xbe, 0xad, 0xde, 0xaa, 0xbb, 0xcc];
    assert_eq!(chunk_words(&bytes), vec![0xdead_beef]);
    assert_eq!(chunk_words(&bytes), chunk_words(&bytes[..4]));
}

#[test]
fn word_count_is_length_over_four_rounded_down() {
    for len in 0usize..=17 {
        let bytes = vec![0x5au8; len];
        assert_eq!(chunk_words(&bytes).len(), len / 4);
    }
}

#[test]
fn read_word_at_offset() {
    let bytes = [0x00, 0x11, 0x22, 0x33, 0x44, 0x55];
    assert_eq!(read_word(&bytes, 0), 0x3322_1100);
    assert_eq!(read_word(&bytes, 1), 0x4433_2211);
    assert_eq!(read_word(&bytes, 2), 0x5544_3322);
}

#[test]
fn extreme_bytes_do_not_overflow() {
    assert_eq!(chunk_words(&[0xff, 0xff, 0xff, 0xff]), vec![u32::MAX]);
    assert_eq!(chunk_words(&[0x00, 0x00, 0x00, 0x80]), vec![0x8000_0000]);
    assert_eq!(chunk_words(&[0x00, 0x00, 0x00, 0x00]), vec![0]);
}
