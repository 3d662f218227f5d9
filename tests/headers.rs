use monokakido::{Error, FileHeader, IndexHeader};

fn words(ws: &[u32]) -> Vec<u8> {
    ws.iter().flat_map(|w| w.to_le_bytes()).collect()
}

#[test]
fn revision_one_header() {
    let h = FileHeader::parse(&words(&[0x10000, 0, 0x10, 0x40])).unwrap();
    assert_eq!(h.ver, 0x10000);
    assert_eq!(h.words_offset, 0x10);
    assert_eq!(h.idx_offset, 0x40);
    assert_eq!(h.next_offset, 0);
}

#[test]
fn revision_two_header() {
    let h = FileHeader::parse(&words(&[0x20000, 0, 0x20, 0x40, 0x80, 0, 0, 0])).unwrap();
    assert_eq!(h.ver, 0x20000);
    assert_eq!(h.next_offset, 0x80);
    let h = FileHeader::parse(&words(&[0x20000, 0, 0x20, 0x40, 0, 0, 0, 0])).unwrap();
    assert_eq!(h.next_offset, 0);
}

#[test]
fn unknown_revision_is_rejected() {
    let e = FileHeader::parse(&words(&[0x30000, 0, 0x10, 0x40])).unwrap_err();
    assert_eq!(e, Error::KeyFileHeaderValidate);
    // a revision 1 version with a revision 2 words offset
    let e = FileHeader::parse(&words(&[0x10000, 0, 0x20, 0x40])).unwrap_err();
    assert_eq!(e, Error::KeyFileHeaderValidate);
}

#[test]
fn bad_fields_are_rejected() {
    let cases: Vec<Vec<u32>> = vec![
        vec![0x10000, 1, 0x10, 0x40],
        vec![0x10000, 0, 0x10, 0x10],
        vec![0x20000, 0, 0x20, 0x40, 0, 1, 0, 0],
        vec![0x20000, 0, 0x20, 0x40, 0, 0, 0, 7],
        vec![0x20000, 0, 0x20, 0x40, 0x40, 0, 0, 0],
        vec![0x20000, 0, 0x20, 0x20, 0, 0, 0, 0],
    ];
    for c in cases {
        assert_eq!(FileHeader::parse(&words(&c)).unwrap_err(), Error::KeyFileHeaderValidate);
    }
}

#[test]
fn truncated_header_is_an_io_error() {
    assert_eq!(FileHeader::parse(&[0; 8]).unwrap_err(), Error::IOError);
    let e = FileHeader::parse(&words(&[0x20000, 0, 0x20, 0x40, 0])).unwrap_err();
    assert_eq!(e, Error::IOError);
}

#[test]
fn index_header_parse_and_validate() {
    let b = words(&[0, 4, 20, 40, 60, 80]);
    let h = IndexHeader::parse(&b, 4).unwrap();
    assert_eq!(h.magic1, 4);
    assert_eq!(h.index_d_offset, 80);
    assert_eq!(h.validate(100), Ok(()));
    assert_eq!(h.validate(80), Err(Error::KeyIndexHeaderValidate));
    assert_eq!(IndexHeader::parse(&b, 8).unwrap_err(), Error::IOError);
}

#[test]
fn index_header_order() {
    let h = |m: u32, a: u32, b: u32, c: u32, d: u32| IndexHeader {
        magic1: m,
        index_a_offset: a,
        index_b_offset: b,
        index_c_offset: c,
        index_d_offset: d,
    };
    assert_eq!(h(4, 20, 40, 0, 0).validate(100), Ok(()));
    assert_eq!(h(4, 20, 40, 40, 60).validate(100), Err(Error::KeyIndexHeaderValidate));
    assert_eq!(h(4, 40, 20, 60, 80).validate(100), Err(Error::KeyIndexHeaderValidate));
    assert_eq!(h(5, 20, 40, 60, 80).validate(100), Err(Error::KeyIndexHeaderValidate));
}

#[test]
fn index_header_last_offset_below_region_end() {
    let h = IndexHeader {
        magic1: 4,
        index_a_offset: 20,
        index_b_offset: 40,
        index_c_offset: 60,
        index_d_offset: 0,
    };
    assert_eq!(h.validate(1), Ok(()));
    assert_eq!(h.validate(0), Err(Error::KeyIndexHeaderValidate));
}
