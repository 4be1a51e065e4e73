use caststream::wire::{
    get_be_u32, get_be_u64, i32_from_field, i32_to_field, put_be_u32, put_be_u64,
};

#[test]
fn u32_is_written_most_significant_byte_first() {
    let mut out = vec![0xAAu8];
    put_be_u32(&mut out, 0x0102_0304);
    assert_eq!(out, vec![0xAA, 0x01, 0x02, 0x03, 0x04]);
}

#[test]
fn u64_is_written_most_significant_byte_first() {
    let mut out = Vec::new();
    put_be_u64(&mut out, 0x0102_0304_0506_0708);
    assert_eq!(out, vec![1, 2, 3, 4, 5, 6, 7, 8]);
}

#[test]
fn extremes_are_written_in_full() {
    let mut out = Vec::new();
    put_be_u32(&mut out, 0);
    put_be_u32(&mut out, u32::MAX);
    put_be_u64(&mut out, 0);
    put_be_u64(&mut out, u64::MAX);
    let mut expected = vec![0u8; 4];
    expected.extend_from_slice(&[0xFF; 4]);
    expected.extend_from_slice(&[0; 8]);
    expected.extend_from_slice(&[0xFF; 8]);
    assert_eq!(out, expected);
}

#[test]
fn written_fields_match_the_standard_byte_order() {
    for value in [0u32, 1, 255, 256, 3840, 1080, 0x8000_0000, 0xDEAD_BEEF, u32::MAX] {
        let mut out = Vec::new();
        put_be_u32(&mut out, value);
        assert_eq!(out, value.to_be_bytes().to_vec());
    }
    for value in [0u64, 4, 0xFFFF_FFFF, 0x1_0000_0000, 0x0123_4567_89AB_CDEF, u64::MAX] {
        let mut out = Vec::new();
        put_be_u64(&mut out, value);
        assert_eq!(out, value.to_be_bytes().to_vec());
    }
}

#[test]
fn fields_are_read_at_an_offset() {
    let bytes = [0xEE, 0x00, 0x00, 0x0F, 0x00, 0x00, 0x00, 0x04, 0x38, 0x77];
    assert_eq!(get_be_u32(&bytes, 1), 3840);
    assert_eq!(get_be_u32(&bytes, 5), 1080);
    let long = [0x99, 0, 0, 0, 0, 0, 0, 0x01, 0x02, 0x55];
    assert_eq!(get_be_u64(&long, 1), 0x0102);
    assert_eq!(get_be_u64(&[0xFF; 8], 0), u64::MAX);
    assert_eq!(get_be_u64(&[0x80, 0, 0, 0, 0, 0, 0, 0], 0), 1u64 << 63);
}

#[test]
fn reading_undoes_writing() {
    for value in [0u64, 1, 0xFF, 0x100, 0xFFFF_FFFF, 0x1_0000_0000, u64::MAX - 1, u64::MAX] {
        let mut out = Vec::new();
        put_be_u64(&mut out, value);
        assert_eq!(get_be_u64(&out, 0), value);
    }
    for value in [0u32, 1, 0x7FFF_FFFF, 0x8000_0000, u32::MAX] {
        let mut out = Vec::new();
        put_be_u32(&mut out, value);
        assert_eq!(get_be_u32(&out, 0), value);
    }
}

#[test]
fn signed_fields_are_twos_complement() {
    assert_eq!(i32_to_field(0), 0);
    assert_eq!(i32_to_field(3840), 3840);
    assert_eq!(i32_to_field(i32::MAX), 0x7FFF_FFFF);
    assert_eq!(i32_to_field(-1), 0xFFFF_FFFF);
    assert_eq!(i32_to_field(i32::MIN), 0x8000_0000);
    assert_eq!(i32_from_field(0), 0);
    assert_eq!(i32_from_field(0x7FFF_FFFF), i32::MAX);
    assert_eq!(i32_from_field(0x8000_0000), i32::MIN);
    assert_eq!(i32_from_field(0xFFFF_FFFF), -1);
    for value in [i32::MIN, -1080, -1, 0, 1, 1080, i32::MAX] {
        assert_eq!(i32_from_field(i32_to_field(value)), value);
        assert_eq!(i32_to_field(value).to_be_bytes(), value.to_be_bytes());
    }
}
