use monokakido::{Error, PageItemId, PageIter};

fn decode(bytes: &[u8]) -> Result<Vec<PageItemId>, Error> {
    PageIter::new(bytes).map(|it| it.into_vec())
}

#[test]
fn tag_two_scenario() {
    let items = decode(&[1, 0, 2, 0x01, 0x02]).unwrap();
    assert_eq!(items, vec![PageItemId { page: 0x0102, item: 0 }]);
}

#[test]
fn every_tag_decodes() {
    let bytes = [
        5, 0, // count
        1, 0x07, // page 7
        2, 0x01, 0x02, // page 0x0102
        4, 0x01, 0x02, 0x03, // page 0x010203
        17, 0x09, 0x05, // page 9, item 5
        18, 0x01, 0x02, 0x06, // page 0x0102, item 6
        0xee, // trailing bytes are not part of the run
    ];
    let items = decode(&bytes).unwrap();
    assert_eq!(
        items,
        vec![
            PageItemId { page: 7, item: 0 },
            PageItemId { page: 0x0102, item: 0 },
            PageItemId { page: 0x010203, item: 0 },
            PageItemId { page: 9, item: 5 },
            PageItemId { page: 0x0102, item: 6 },
        ]
    );
}

#[test]
fn decoding_twice_gives_the_same_references() {
    let bytes = [3, 0, 1, 4, 2, 0, 9, 17, 3, 1];
    let first = decode(&bytes).unwrap();
    let second = decode(&bytes).unwrap();
    assert_eq!(first.len(), 3);
    assert_eq!(first, second);
}

#[test]
fn empty_run() {
    let mut it = PageIter::new(&[0, 0]).unwrap();
    assert_eq!(it.remaining(), 0);
    assert_eq!(it.next(), None);
}

#[test]
fn iteration_counts_down() {
    let bytes = [2, 0, 1, 1, 1, 2];
    let mut it = PageIter::new(&bytes).unwrap();
    assert_eq!(it.remaining(), 2);
    assert_eq!(it.next(), Some(PageItemId { page: 1, item: 0 }));
    assert_eq!(it.remaining(), 1);
    assert_eq!(it.next(), Some(PageItemId { page: 2, item: 0 }));
    assert_eq!(it.next(), None);
    assert_eq!(it.next(), None);
}

#[test]
fn unknown_tag_is_rejected() {
    assert_eq!(decode(&[1, 0, 3, 0, 0, 0]).unwrap_err(), Error::InvalidIndex);
}

#[test]
fn truncated_record_is_rejected() {
    assert_eq!(decode(&[1, 0, 4, 0, 0]).unwrap_err(), Error::InvalidIndex);
    assert_eq!(decode(&[2, 0, 1, 0]).unwrap_err(), Error::InvalidIndex);
}

#[test]
fn missing_count_is_rejected() {
    assert_eq!(decode(&[]).unwrap_err(), Error::InvalidIndex);
    assert_eq!(decode(&[1]).unwrap_err(), Error::InvalidIndex);
}
