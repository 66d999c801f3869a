use cloud_hypervisor::bytes::{
    bytes_equal, copy_range, get_be16, get_be32, get_be64, get_le16, get_le32, get_le64, push_be16,
    push_be32, push_be64, push_bytes, push_le16, push_le32, push_le64, push_zeros, put_bytes,
    put_le16, put_le32, put_le64, put_u8,
};
use cloud_hypervisor::text::decimal_string;

#[test]
fn integers_are_read_in_both_orders() {
    let b = [0x01u8, 0x02, 0x03, 0x04, 0x05, 0x06, 0x07, 0x08, 0x09];
    assert_eq!(get_le16(&b, 1), 0x0302);
    assert_eq!(get_be16(&b, 1), 0x0203);
    assert_eq!(get_le32(&b, 1), 0x0504_0302);
    assert_eq!(get_be32(&b, 1), 0x0203_0405);
    assert_eq!(get_le64(&b, 1), 0x0908_0706_0504_0302);
    assert_eq!(get_be64(&b, 1), 0x0203_0405_0607_0809);
}

#[test]
fn integers_that_were_written_read_back() {
    let mut v = Vec::new();
    push_le16(&mut v, 0xBEEF);
    push_le32(&mut v, 0xDEAD_BEEF);
    push_le64(&mut v, 0x0123_4567_89AB_CDEF);
    push_be16(&mut v, 0xBEEF);
    push_be32(&mut v, 0xDEAD_BEEF);
    push_be64(&mut v, 0x0123_4567_89AB_CDEF);
    assert_eq!(v[..2], [0xEF, 0xBE]);
    assert_eq!(v[14..16], [0xBE, 0xEF]);
    assert_eq!(get_le16(&v, 0), 0xBEEF);
    assert_eq!(get_le32(&v, 2), 0xDEAD_BEEF);
    assert_eq!(get_le64(&v, 6), 0x0123_4567_89AB_CDEF);
    assert_eq!(get_be16(&v, 14), 0xBEEF);
    assert_eq!(get_be32(&v, 16), 0xDEAD_BEEF);
    assert_eq!(get_be64(&v, 20), 0x0123_4567_89AB_CDEF);
}

#[test]
fn stores_change_their_range_alone() {
    let mut b = [0xEEu8; 12];
    put_u8(&mut b, 0, 1);
    put_le16(&mut b, 1, 0x0302);
    put_le32(&mut b, 4, 0x0807_0605);
    put_bytes(&mut b, 9, &[9, 10]);
    assert_eq!(b, [1, 2, 3, 0xEE, 5, 6, 7, 8, 0xEE, 9, 10, 0xEE]);
    put_le64(&mut b, 4, u64::MAX);
    assert_eq!(b[..4], [1, 2, 3, 0xEE]);
    assert_eq!(get_le64(&b, 4), u64::MAX);
}

#[test]
fn ranges_are_copied_and_compared() {
    let mut v = vec![1u8, 2];
    push_zeros(&mut v, 2);
    push_bytes(&mut v, &[5, 6]);
    assert_eq!(v, vec![1, 2, 0, 0, 5, 6]);
    assert_eq!(copy_range(&v, 1, 5), vec![2, 0, 0, 5]);
    assert_eq!(copy_range(&v, 6, 6), Vec::<u8>::new());
    assert!(bytes_equal(&[1, 2], &[1, 2]));
    assert!(!bytes_equal(&[1, 2], &[1, 3]));
    assert!(!bytes_equal(&[1], &[1, 2]));
}

#[test]
fn numbers_are_written_out_in_decimal() {
    assert_eq!(decimal_string(0), "0");
    assert_eq!(decimal_string(10), "10");
    assert_eq!(decimal_string(u64::MAX), "18446744073709551615");
}
