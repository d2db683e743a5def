use cliobulk_core::buffer::PixelBuffer;

#[test]
fn filled_buffer_has_one_slot_per_channel() {
    let buf = PixelBuffer::new_filled(4, 3, 3, 17);
    assert_eq!((buf.width, buf.height, buf.channels), (4, 3, 3));
    assert_eq!(buf.data, vec![17; 36]);
    let gray = PixelBuffer::new_filled(4, 3, 1, 0);
    assert_eq!(gray.data.len(), 12);
}

#[test]
fn get_and_set_address_the_same_sample() {
    let mut buf = PixelBuffer::new_filled(3, 2, 3, 0);
    buf.set(2, 1, 1, 99);
    assert_eq!(buf.get(2, 1, 1), 99);
    assert_eq!(buf.get(2, 1, 0), 0);
    assert_eq!(buf.get(2, 1, 2), 0);
    // Row-major layout, channels innermost.
    assert_eq!(buf.data[(1 * 3 + 2) * 3 + 1], 99);
}
