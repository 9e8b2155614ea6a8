use viking_firmware::device::events_to_send;
use viking_firmware::events::EventState;

#[test]
fn put_single_events() {
    let mut s = EventState::new(vec![0; 2]);
    s.put(5);
    s.put(6);
    s.put(7);
    assert_eq!(s.written(), &[5, 6]);
    assert!(s.overflowed());
}

#[test]
fn var_len_events_append() {
    let mut s = EventState::new(vec![0; 8]);
    s.put_var_len(9, 1);
    s.put_var_len(9, 2);
    s.put_var_len(4, 3);
    assert_eq!(s.written(), &[9, 2, 1, 2, 4, 1, 3]);
    assert_eq!(s.write_pos(), 7);
    assert!(!s.overflowed());
    // one byte left: another event 4 byte still fits by appending
    s.put_var_len(4, 8);
    assert_eq!(s.written(), &[9, 2, 1, 2, 4, 2, 3, 8]);
    s.put_var_len(4, 9);
    assert!(s.overflowed());
    assert_eq!(s.write_pos(), 8);
}

#[test]
fn var_len_new_event_needs_three_bytes() {
    let mut s = EventState::new(vec![0; 3]);
    s.put(1);
    s.put_var_len(2, 7);
    assert!(s.overflowed());
    assert_eq!(s.written(), &[1]);
}

#[test]
fn empty_state_overflows() {
    let mut s = EventState::empty();
    s.put(1);
    assert!(s.overflowed());
    assert_eq!(s.write_pos(), 0);
    assert_eq!(events_to_send(true, &s), None);
}

#[test]
fn events_sent_when_idle() {
    let mut s = EventState::new(vec![0; 4]);
    assert_eq!(events_to_send(true, &s), None);
    s.put(3);
    assert_eq!(events_to_send(false, &s), None);
    assert_eq!(events_to_send(true, &s), Some(1));
    assert_eq!(s.into_buffer(), vec![3, 0, 0, 0]);
}

#[test]
fn var_len_allowed_after_one_byte_event_at_end() {
    let mut s = EventState::new(vec![0; 2]);
    assert!(s.var_len_allowed(7));
    s.put(1);
    s.put(7);
    // the one-byte event 7 ends the buffer: no byte follows its code
    assert!(!s.var_len_allowed(7));
    assert!(s.var_len_allowed(8));
}
