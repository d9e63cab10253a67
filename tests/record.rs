use life3d::record::{decode_records, encode_records, Cell, DecodeError, RECORD_BYTES};

#[test]
fn record_round_trip() {
    let c = Cell { alive: true, x: 2, y: 3, z: 4 };
    let bytes = c.encode();
    assert_eq!(bytes, vec![1, 0, 0, 0, 2, 0, 0, 0, 3, 0, 0, 0, 4, 0, 0, 0]);
    assert_eq!(Cell::decode(&bytes), Some(c));
}

#[test]
fn record_words_are_little_endian() {
    let c = Cell { alive: false, x: 0x0102_0304, y: 812, z: u32::MAX };
    let bytes = c.encode();
    assert_eq!(bytes.len(), RECORD_BYTES);
    assert_eq!(&bytes[0..4], &[0, 0, 0, 0]);
    assert_eq!(&bytes[4..8], &[4, 3, 2, 1]);
    assert_eq!(&bytes[8..12], &[0x2c, 0x03, 0, 0]);
    assert_eq!(&bytes[12..16], &[0xff, 0xff, 0xff, 0xff]);
    assert_eq!(Cell::decode(&bytes), Some(c));
}

#[test]
fn record_with_bad_tag_or_length() {
    let mut bytes = Cell { alive: true, x: 1, y: 1, z: 1 }.encode();
    bytes[0] = 2;
    assert_eq!(Cell::decode(&bytes), None);
    assert_eq!(Cell::decode(&bytes[0..15]), None);
    assert_eq!(Cell::decode(&[]), None);
}

#[test]
fn records_round_trip() {
    let cells = vec![
        Cell { alive: true, x: 0, y: 0, z: 0 },
        Cell { alive: false, x: 0, y: 0, z: 1 },
        Cell { alive: true, x: 7, y: 300, z: 70000 },
    ];
    let bytes = encode_records(&cells);
    assert_eq!(bytes.len(), 48);
    assert_eq!(bytes[16], 0);
    assert_eq!(bytes[32], 1);
    assert_eq!(decode_records(&bytes), Ok(cells));
    assert_eq!(decode_records(&[]), Ok(vec![]));
}

#[test]
fn records_errors() {
    let cells = vec![Cell { alive: true, x: 0, y: 0, z: 0 }, Cell { alive: false, x: 1, y: 0, z: 0 }];
    let mut bytes = encode_records(&cells);
    assert_eq!(decode_records(&bytes[0..31]), Err(DecodeError::Truncated));
    bytes[17] = 1;
    assert_eq!(decode_records(&bytes), Err(DecodeError::BadState { index: 1 }));
}
