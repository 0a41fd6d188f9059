use minecrate::buffer::Buffer;
use minecrate::error::CodecError;
use minecrate::uuid::Uuid;
use minecrate::vector::Vector3;

#[test]
fn varint_round_trip_values() {
    let values: Vec<i32> = vec![0, 1, 2, 127, 128, 255, 300, 25565, 2097151, i32::MAX, -1, i32::MIN];
    for v in values {
        let mut buf = Buffer::new();
        buf.write_varint(v);
        assert!(buf.len() >= 1 && buf.len() <= 5);
        let back = buf.read_varint().unwrap();
        assert_eq!(back, v);
        assert_eq!(buf.cursor(), buf.len());
    }
}

#[test]
fn varint_wire_bytes() {
    let mut buf = Buffer::new();
    buf.write_varint(300);
    assert_eq!(buf.as_raw(), &[0xAC, 0x02]);
    let mut buf = Buffer::new();
    buf.write_varint(-1);
    assert_eq!(buf.as_raw(), &[0xFF, 0xFF, 0xFF, 0xFF, 0x0F]);
    let mut buf = Buffer::new();
    buf.write_varint(0);
    assert_eq!(buf.as_raw(), &[0x00]);
}

#[test]
fn varint_too_big() {
    let mut buf = Buffer::new();
    buf.extend(&[0x80, 0x80, 0x80, 0x80, 0x80]);
    assert_eq!(buf.read_varint().unwrap_err(), CodecError::VarIntTooBig);
    assert_eq!(buf.cursor(), 0);
}

#[test]
fn varint_truncated() {
    let mut buf = Buffer::new();
    buf.extend(&[0x80, 0x80]);
    assert_eq!(buf.read_varint().unwrap_err(), CodecError::Truncated);
    assert_eq!(buf.cursor(), 0);
}

#[test]
fn varlong_round_trip_values() {
    let values: Vec<i64> = vec![0, 1, 127, 128, 300, i64::MAX, -1, i64::MIN, 1 << 62];
    for v in values {
        let mut buf = Buffer::new();
        buf.write_varlong(v);
        assert!(buf.len() >= 1 && buf.len() <= 10);
        let back = buf.read_varlong().unwrap();
        assert_eq!(back, v);
    }
}

#[test]
fn varlong_minus_one_is_ten_bytes() {
    let mut buf = Buffer::new();
    buf.write_varlong(-1);
    assert_eq!(
        buf.as_raw(),
        &[0xFF, 0xFF, 0xFF, 0xFF, 0xFF, 0xFF, 0xFF, 0xFF, 0xFF, 0x01]
    );
}

#[test]
fn varlong_too_big() {
    let mut buf = Buffer::new();
    buf.extend(&[0xFF, 0xFF, 0xFF, 0xFF, 0xFF, 0xFF, 0xFF, 0xFF, 0xFF, 0x02]);
    assert_eq!(buf.read_varlong().unwrap_err(), CodecError::VarLongTooBig);
}

#[test]
fn fixed_width_round_trips() {
    let mut buf = Buffer::new();
    buf.write_bool(true);
    buf.write_byte(-5);
    buf.write_ubyte(200);
    buf.write_short(-1234);
    buf.write_ushort(54321);
    buf.write_int(-123456789);
    buf.write_uint(3123456789);
    buf.write_long(-1234567890123456789);
    buf.write_ulong(12345678901234567890);
    assert!(buf.read_bool().unwrap());
    assert_eq!(buf.read_byte().unwrap(), -5);
    assert_eq!(buf.read_ubyte().unwrap(), 200);
    assert_eq!(buf.read_short().unwrap(), -1234);
    assert_eq!(buf.read_ushort().unwrap(), 54321);
    assert_eq!(buf.read_int().unwrap(), -123456789);
    assert_eq!(buf.read_uint().unwrap(), 3123456789);
    assert_eq!(buf.read_long().unwrap(), -1234567890123456789);
    assert_eq!(buf.read_ulong().unwrap(), 12345678901234567890);
}

#[test]
fn big_endian_byte_order() {
    let mut buf = Buffer::new();
    buf.write_uint(0x0102_0304);
    assert_eq!(buf.as_raw(), &[1, 2, 3, 4]);
    let mut buf = Buffer::new();
    buf.write_ushort(0x0102);
    assert_eq!(buf.as_raw(), &[1, 2]);
}

#[test]
fn string_round_trip() {
    let cases = ["", "hello", "héllo wörld", "日本語テスト", "a\u{1F600}b"];
    for s in cases {
        let mut buf = Buffer::new();
        buf.write_string(s).unwrap();
        let back = buf.read_string().unwrap();
        assert_eq!(back, s);
        assert_eq!(buf.cursor(), buf.len());
    }
}

#[test]
fn string_truncated_leaves_cursor() {
    let mut buf = Buffer::new();
    buf.write_varint(5);
    buf.write_ubyte(b'a');
    buf.write_ubyte(b'b');
    assert_eq!(buf.read_string().unwrap_err(), CodecError::Truncated);
    assert_eq!(buf.cursor(), 0);
}

#[test]
fn string_invalid_utf8() {
    let mut buf = Buffer::new();
    buf.write_varint(2);
    buf.write_ubyte(0xC3);
    buf.write_ubyte(0x28);
    assert_eq!(buf.read_string().unwrap_err(), CodecError::InvalidUtf8);
    assert_eq!(buf.cursor(), 0);
}

#[test]
fn position_round_trip() {
    let cases = [
        (0, 0, 0),
        (1, 2, 3),
        (-1, -1, -1),
        (33554431, 2047, 33554431),
        (-33554432, -2048, -33554432),
        (12345, -100, -54321),
    ];
    for (x, y, z) in cases {
        let mut buf = Buffer::new();
        buf.write_position(&Vector3(x, y, z)).unwrap();
        assert_eq!(buf.len(), 8);
        let p = buf.read_position().unwrap();
        assert_eq!(p, Vector3(x, y, z));
    }
}

#[test]
fn position_out_of_range() {
    let cases = [
        (33554432, 0, 0),
        (-33554433, 0, 0),
        (0, 2048, 0),
        (0, -2049, 0),
        (0, 0, 33554432),
    ];
    for (x, y, z) in cases {
        let mut buf = Buffer::new();
        assert_eq!(
            buf.write_position(&Vector3(x, y, z)).unwrap_err(),
            CodecError::OutOfRange
        );
        assert_eq!(buf.len(), 0);
    }
}

#[test]
fn uuid_wire_round_trip() {
    let v: u128 = 0x1234_5678_9abc_def0_0fed_cba9_8765_4321;
    let mut buf = Buffer::new();
    buf.write_uuid(&Uuid(v));
    assert_eq!(buf.len(), 16);
    assert_eq!(buf.read_uuid().unwrap(), Uuid(v));
}

#[test]
fn uuid_text_round_trip() {
    let v: u128 = 0x1234_5678_9abc_def0_0fed_cba9_8765_4321;
    let s = Uuid(v).to_hyphenated();
    assert_eq!(s, "12345678-9abc-def0-0fed-cba987654321");
    assert_eq!(Uuid::parse_bytes(s.as_bytes()), Some(Uuid(v)));
    assert_eq!(
        Uuid::parse_bytes(b"12345678-9ABC-DEF0-0FED-CBA987654321"),
        Some(Uuid(v))
    );
    assert_eq!(Uuid::parse_bytes(b"12345678-9abc-def0-0fed-cba98765432"), None);
    assert_eq!(Uuid::parse_bytes(b"12345678x9abc-def0-0fed-cba987654321"), None);
    assert_eq!(Uuid::parse_bytes(b"1234567g-9abc-def0-0fed-cba987654321"), None);
}

#[test]
fn byte_arrays() {
    let mut buf = Buffer::new();
    buf.write_ubyte_array(&[1, 2, 3, 250]);
    buf.write_byte_array(&vec![-1i8, 0, 1]);
    assert_eq!(buf.read_ubyte_array(4).unwrap(), vec![1, 2, 3, 250]);
    assert_eq!(buf.read_byte_array(3).unwrap(), vec![-1i8, 0, 1]);
    assert_eq!(buf.read_ubyte_array(1).unwrap_err(), CodecError::Truncated);
}

#[test]
fn counted_bytes() {
    let mut buf = Buffer::new();
    buf.write_varint(3);
    buf.write_ubyte_array(&[9, 8, 7]);
    let (n, bytes) = buf.read_counted_bytes().unwrap();
    assert_eq!(n, 3);
    assert_eq!(bytes, vec![9, 8, 7]);
}

#[test]
fn drain_keeps_remaining_bytes() {
    let mut buf = Buffer::new();
    buf.extend(&[1, 2, 3, 4, 5]);
    buf.seek(2);
    buf.drain(2);
    assert_eq!(buf.as_raw(), &[3, 4, 5]);
    assert_eq!(buf.cursor(), 0);
}
