use viking_firmware::buf::{take_first, take_len, Reader, Writer};

#[test]
fn writer_puts_at_offset() {
    let mut buf = [0u8; 4];
    let mut w = Writer::new(&mut buf, 2);
    assert_eq!(w.offset(), 2);
    assert_eq!(w.put(7), Ok(()));
    assert_eq!(w.put(8), Ok(()));
    assert_eq!(w.put(9), Err(()));
    assert_eq!(w.offset(), 4);
    assert_eq!(buf, [0, 0, 7, 8]);
}

#[test]
fn writer_remaining_and_put_slice() {
    let mut buf = [0u8; 5];
    let mut w = Writer::new(&mut buf, 1);
    assert_eq!(w.remaining(), 4);
    assert_eq!(w.put_slice(&[1, 2, 3]), Ok(()));
    assert_eq!(w.put_slice(&[4, 5]), Err(()));
    assert_eq!(w.remaining(), 1);
    assert_eq!(w.offset(), 4);
    assert_eq!(buf, [0, 1, 2, 3, 0]);
}

#[test]
fn writer_offset_past_end_has_no_room() {
    let mut buf = [0u8; 2];
    let mut w = Writer::new(&mut buf, 5);
    assert_eq!(w.remaining(), 0);
    assert_eq!(w.put(1), Err(()));
    assert_eq!(w.offset(), 5);
    // what `remaining` promises can be reserved: nothing, but that much always
    assert_eq!(w.reserve_buf(0).map(|s| s.len()), Ok(0));
    assert!(w.reserve_buf(1).is_err());
    assert_eq!(w.put_slice(&[]), Ok(()));
    assert_eq!(w.put_slice(&[1]), Err(()));
    assert_eq!(w.offset(), 5);
    assert_eq!(buf, [0, 0]);
}

#[test]
fn writer_run_of_puts() {
    // the first puts succeed while room is left, and every later one fails
    let mut buf = [9u8; 5];
    let mut w = Writer::new(&mut buf, 2);
    let results: Vec<bool> = [1u8, 2, 3, 4, 5].iter().map(|&b| w.put(b).is_ok()).collect();
    assert_eq!(results, vec![true, true, true, false, false]);
    assert_eq!(w.offset(), 5);
    assert_eq!(buf, [9, 9, 1, 2, 3]);
}

#[test]
fn writer_reserve_and_reserve_buf() {
    let mut buf = [0u8; 4];
    let mut w = Writer::new(&mut buf, 0);
    {
        let b = w.reserve().unwrap();
        *b = 0xaa;
    }
    {
        let s = w.reserve_buf(2).unwrap();
        s[0] = 1;
        s[1] = 2;
    }
    assert!(w.reserve_buf(2).is_err());
    assert_eq!(w.offset(), 3);
    assert!(w.reserve().is_ok());
    assert!(w.reserve().is_err());
    assert_eq!(buf, [0xaa, 1, 2, 0]);
}

#[test]
fn reader_take_first_until_empty() {
    let data = [1u8, 2];
    let mut r = Reader::new(&data);
    assert_eq!(r.remaining(), 2);
    assert_eq!(r.take_first(), Some(1));
    assert_eq!(r.take_first(), Some(2));
    assert_eq!(r.take_first(), None);
    assert_eq!(r.remaining(), 0);
}

#[test]
fn reader_take_len() {
    let data = [2u8, 10, 11, 12];
    let mut r = Reader::new(&data);
    assert_eq!(r.take_len(), Some(&[10u8, 11][..]));
    assert_eq!(r.remaining(), 1);
    // length byte 12 with nothing after it: the length byte is consumed
    assert_eq!(r.take_len(), None);
    assert_eq!(r.remaining(), 0);
    assert_eq!(r.take_len(), None);
}

#[test]
fn reader_take_len_zero() {
    let data = [0u8, 5];
    let mut r = Reader::new(&data);
    assert_eq!(r.take_len(), Some(&[][..]));
    assert_eq!(r.take_first(), Some(5));
}

#[test]
fn reader_take_u16_little_endian() {
    let data = [0x34u8, 0x12, 0x56];
    let mut r = Reader::new(&data);
    assert_eq!(r.take_u16(), Some(0x1234));
    assert_eq!(r.take_u16(), None);
    assert_eq!(r.remaining(), 0);
}

#[test]
fn reader_take_n() {
    let data = [1u8, 2, 3];
    let mut r = Reader::new(&data);
    assert_eq!(r.take_n::<2>(), Some([1, 2]));
    assert_eq!(r.take_n::<2>(), None);
    assert_eq!(r.remaining(), 1);
}

#[test]
fn reader_take_varint() {
    let data = [0x05u8];
    assert_eq!(Reader::new(&data).take_varint(), Some(5));
    // 0x81 0x00: (1 << 7) | 0 = 128, big-endian groups
    let data = [0x81u8, 0x00, 0x42];
    let mut r = Reader::new(&data);
    assert_eq!(r.take_varint(), Some(128));
    assert_eq!(r.remaining(), 1);
    let data = [0xffu8, 0x7f];
    assert_eq!(Reader::new(&data).take_varint(), Some(0x3fff));
}

#[test]
fn reader_take_varint_unterminated() {
    let data = [0x80u8, 0x81];
    let mut r = Reader::new(&data);
    assert_eq!(r.take_varint(), None);
    assert_eq!(r.remaining(), 0);
    assert_eq!(Reader::new(&[]).take_varint(), None);
}

#[test]
fn reader_take_varint_wraps_past_32_bits() {
    // six groups: the first group's bits are shifted out of a u32
    let data = [0xffu8, 0x80, 0x80, 0x80, 0x80, 0x01];
    assert_eq!(Reader::new(&data).take_varint(), Some(1));
}

#[test]
fn free_take_first_and_take_len() {
    let data = [9u8, 2, 3, 4, 5];
    let mut s: &[u8] = &data;
    assert_eq!(take_first(&mut s), Some(9));
    assert_eq!(take_len(&mut s), Some(&[3u8, 4][..]));
    assert_eq!(s, &[5u8][..]);
    assert_eq!(take_len(&mut s), None);
    assert_eq!(s, &[][..]);
    assert_eq!(take_first(&mut s), None);
}
