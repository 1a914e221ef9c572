use bitbox_backup::decode::take_i32;
use bitbox_backup::decode::take_u32;
use bitbox_backup::encode::write_int32;
use bitbox_backup::encode::write_nonempty_bytes;
use bitbox_backup::encode::write_string;
use bitbox_backup::encode::write_uint32;
use bitbox_backup::text::text_of_bytes;

#[test]
fn text_of_valid_utf8() {
    assert_eq!(text_of_bytes(&[]), Some(String::new()));
    assert_eq!(text_of_bytes(b"v9.2.0"), Some(String::from("v9.2.0")));
    assert_eq!(
        text_of_bytes(&[0x68, 0xc3, 0xa9, 0xe4, 0xb8, 0x96, 0xf0, 0x9f, 0x98, 0x80]),
        Some(String::from("h\u{e9}\u{4e16}\u{1F600}"))
    );
    assert_eq!(text_of_bytes(&[0x00]), Some(String::from("\0")));
}

#[test]
fn text_of_invalid_utf8_is_none() {
    assert_eq!(text_of_bytes(&[0xff]), None);
    assert_eq!(text_of_bytes(&[0x80]), None);
    assert_eq!(text_of_bytes(&[0xc3]), None);
    assert_eq!(text_of_bytes(&[0xc0, 0x80]), None);
    assert_eq!(text_of_bytes(&[0xed, 0xa0, 0x80]), None);
    assert_eq!(text_of_bytes(&[0xf4, 0x90, 0x80, 0x80]), None);
    assert_eq!(text_of_bytes(&[0x61, 0xe4, 0xb8]), None);
}

#[test]
fn low_32_bits_unsigned() {
    assert_eq!(take_u32(0), 0);
    assert_eq!(take_u32(1601281809), 1601281809);
    assert_eq!(take_u32(0xffff_ffff), u32::MAX);
    assert_eq!(take_u32(0x1_0000_0000), 0);
    assert_eq!(take_u32(0x1_0000_0005), 5);
    assert_eq!(take_u32(u64::MAX), u32::MAX);
}

#[test]
fn low_32_bits_signed() {
    assert_eq!(take_i32(0), 0);
    assert_eq!(take_i32(7), 7);
    assert_eq!(take_i32(0x7fff_ffff), i32::MAX);
    assert_eq!(take_i32(0x8000_0000), i32::MIN);
    assert_eq!(take_i32(0xffff_ffff), -1);
    assert_eq!(take_i32(u64::MAX), -1);
    assert_eq!(take_i32(0xffff_ffff_8000_0000), i32::MIN);
    assert_eq!(take_i32(0x1_0000_0007), 7);
}

#[test]
fn zero_valued_fields_are_left_out() {
    let mut buf = vec![0x01];
    write_uint32(&mut buf, 1, 0);
    write_int32(&mut buf, 2, 0);
    write_nonempty_bytes(&mut buf, 3, &[]);
    write_string(&mut buf, 4, "");
    assert_eq!(buf, vec![0x01]);
}

#[test]
fn fields_that_hold_something_are_written() {
    let mut buf = Vec::new();
    write_uint32(&mut buf, 1, 300);
    write_int32(&mut buf, 2, -2);
    write_nonempty_bytes(&mut buf, 3, &[0xaa]);
    write_string(&mut buf, 4, "hi");
    write_int32(&mut buf, 5, 5);
    assert_eq!(
        buf,
        vec![
            0x08, 0xac, 0x02, 0x10, 0xfe, 0xff, 0xff, 0xff, 0xff, 0xff, 0xff, 0xff, 0xff, 0x01,
            0x1a, 0x01, 0xaa, 0x22, 0x02, 0x68, 0x69, 0x28, 0x05
        ]
    );
    let mut theirs = Vec::new();
    prost::encoding::uint32::encode(1, &300, &mut theirs);
    prost::encoding::int32::encode(2, &-2, &mut theirs);
    prost::encoding::bytes::encode(3, &vec![0xaau8], &mut theirs);
    prost::encoding::string::encode(4, &String::from("hi"), &mut theirs);
    prost::encoding::int32::encode(5, &5, &mut theirs);
    assert_eq!(buf, theirs);
}
