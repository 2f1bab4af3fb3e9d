use midigenerator::vlq::{read_vlq, write_vlq, VLQ_MAX};

fn encoded(value: u32) -> Vec<u8> {
    let mut sink = Vec::new();
    write_vlq(&mut sink, value);
    sink
}

#[test]
fn no_delay_is_one_zero_byte() {
    assert_eq!(encoded(0), vec![0x00]);
}

#[test]
fn hold_of_384_ticks_is_83_00() {
    assert_eq!(encoded(384), vec![0x83, 0x00]);
}

#[test]
fn quantities_at_the_width_borders() {
    assert_eq!(encoded(0x40), vec![0x40]);
    assert_eq!(encoded(0x7F), vec![0x7F]);
    assert_eq!(encoded(0x80), vec![0x81, 0x00]);
    assert_eq!(encoded(0x2000), vec![0xC0, 0x00]);
    assert_eq!(encoded(0x3FFF), vec![0xFF, 0x7F]);
    assert_eq!(encoded(0x4000), vec![0x81, 0x80, 0x00]);
    assert_eq!(encoded(0x10_0000), vec![0xC0, 0x80, 0x00]);
    assert_eq!(encoded(0x1F_FFFF), vec![0xFF, 0xFF, 0x7F]);
    assert_eq!(encoded(0x20_0000), vec![0x81, 0x80, 0x80, 0x00]);
    assert_eq!(encoded(0x800_0000), vec![0xC0, 0x80, 0x80, 0x00]);
    assert_eq!(encoded(0x0FFF_FFFF), vec![0xFF, 0xFF, 0xFF, 0x7F]);
    assert_eq!(VLQ_MAX, 0x0FFF_FFFF);
}

#[test]
fn writing_appends_to_what_is_there() {
    let mut sink = vec![1, 2, 3];
    write_vlq(&mut sink, 384);
    write_vlq(&mut sink, 0);
    assert_eq!(sink, vec![1, 2, 3, 0x83, 0x00, 0x00]);
}

#[test]
fn reading_undoes_writing() {
    let values = [
        0, 1, 0x40, 0x7F, 0x80, 384, 0x2000, 0x3FFF, 0x4000, 0x10_0000, 0x1F_FFFF, 0x20_0000,
        0x800_0000, 0x0FFF_FFFF,
    ];
    for value in values {
        let mut bytes = vec![0xAA, 0xBB];
        write_vlq(&mut bytes, value);
        let end = bytes.len();
        bytes.push(0x90);
        assert_eq!(read_vlq(&bytes, 2), Some((value, end)), "value {}", value);
    }
}

#[test]
fn reading_stops_at_the_first_byte_without_top_bit() {
    assert_eq!(read_vlq(&vec![0x00, 0x83, 0x00], 0), Some((0, 1)));
    assert_eq!(read_vlq(&vec![0x00, 0x83, 0x00], 1), Some((384, 3)));
    assert_eq!(read_vlq(&vec![0x80, 0x00], 0), Some((0, 2)));
}

#[test]
fn reading_fails_where_the_bytes_end_early() {
    assert_eq!(read_vlq(&vec![], 0), None);
    assert_eq!(read_vlq(&vec![0x00], 1), None);
    assert_eq!(read_vlq(&vec![0x83], 0), None);
    assert_eq!(read_vlq(&vec![0x81, 0x80, 0x80], 0), None);
}

#[test]
fn reading_fails_on_a_fifth_byte() {
    assert_eq!(read_vlq(&vec![0x81, 0x80, 0x80, 0x80, 0x00], 0), None);
    assert_eq!(read_vlq(&vec![0xFF, 0xFF, 0xFF, 0xFF, 0x7F], 0), None);
}
