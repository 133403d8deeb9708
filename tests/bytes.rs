use byte_mutator::bytes::{copy_window, read_be, remove_window};
use byte_mutator::{overwrite_at, reverse_window, splice_bytes, step_window, write_be};

#[test]
fn increment_wraps_signed_boundary() {
    let mut v = vec![0x7fu8, 0xff];
    step_window(&mut v, 0, 2, true);
    assert_eq!(v, vec![0x80u8, 0x00]);
}

#[test]
fn decrement_wraps_at_zero() {
    let mut v = vec![1u8, 0x00, 0x00, 9];
    step_window(&mut v, 1, 2, false);
    assert_eq!(v, vec![1u8, 0xff, 0xff, 9]);
}

#[test]
fn increment_wraps_at_top_of_eight_bytes() {
    let mut v = vec![0xffu8; 8];
    step_window(&mut v, 0, 8, true);
    assert_eq!(v, vec![0u8; 8]);
}

#[test]
fn arithmetic_scenario_four_byte_increment() {
    let mut v = vec![0x00u8, 0x00, 0x00, 0x00];
    step_window(&mut v, 0, 4, true);
    assert_eq!(v, vec![0x00u8, 0x00, 0x00, 0x01]);
}

#[test]
fn increment_carries_through_bytes() {
    let mut v = vec![0x00u8, 0x12, 0xff, 0xff, 0xff, 0xaa];
    step_window(&mut v, 1, 4, true);
    assert_eq!(v, vec![0x00u8, 0x13, 0x00, 0x00, 0x00, 0xaa]);
}

#[test]
fn reverse_window_reverses_only_the_window() {
    let mut v = vec![1u8, 2, 3, 4, 5, 6];
    reverse_window(&mut v, 1, 4);
    assert_eq!(v, vec![1u8, 5, 4, 3, 2, 6]);
}

#[test]
fn reverse_window_twice_restores() {
    let orig: Vec<u8> = (0u8..16).collect();
    for w in [2usize, 4, 8] {
        let mut v = orig.clone();
        reverse_window(&mut v, 3, w);
        assert_ne!(v, orig);
        reverse_window(&mut v, 3, w);
        assert_eq!(v, orig);
    }
}

#[test]
fn splice_scenario() {
    let r = splice_bytes(b"XXXX", 2, b"BBBBBBBB", 3);
    assert_eq!(r, b"XXBBBBB".to_vec());
}

#[test]
fn splice_whole_tail() {
    let r = splice_bytes(b"ab", 0, b"cd", 0);
    assert_eq!(r, b"cd".to_vec());
}

#[test]
fn dictionary_token_scenario() {
    let mut buf = vec![0u8; 8];
    overwrite_at(&mut buf, 0, "CAFEBABE".as_bytes());
    assert_eq!(&buf[..8], "CAFEBABE".as_bytes());
}

#[test]
fn overwrite_in_the_middle() {
    let mut buf = vec![0u8; 6];
    overwrite_at(&mut buf, 2, b"ab");
    assert_eq!(buf, vec![0u8, 0, b'a', b'b', 0, 0]);
}

#[test]
fn write_be_puts_most_significant_first() {
    let mut buf = vec![0u8; 6];
    write_be(&mut buf, 1, 0x0102_0304, 4);
    assert_eq!(buf, vec![0u8, 1, 2, 3, 4, 0]);
    write_be(&mut buf, 0, 0xabcd, 1);
    assert_eq!(buf[0], 0xcd);
}

#[test]
fn read_be_reads_most_significant_first() {
    let buf = vec![9u8, 0x12, 0x34, 0x56];
    assert_eq!(read_be(&buf, 1, 2), 0x1234);
    assert_eq!(read_be(&buf, 0, 0), 0);
}

#[test]
fn copy_and_remove_windows() {
    let buf = vec![1u8, 2, 3, 4, 5];
    assert_eq!(copy_window(&buf, 1, 3), vec![2u8, 3, 4]);
    let mut b = buf.clone();
    remove_window(&mut b, 1, 2);
    assert_eq!(b, vec![1u8, 4, 5]);
}
