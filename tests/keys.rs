use monokakido::{Error, Keys, PageItemId};

fn push_u32(v: &mut Vec<u8>, x: u32) {
    v.extend_from_slice(&x.to_le_bytes());
}

fn pad4(v: &mut Vec<u8>) {
    while v.len() % 4 != 0 {
        v.push(0);
    }
}

/// A revision 1 key file whose four indexes all list `entries` in the given
/// order; each entry is a keyword and the bytes of its reference run.
fn key_file(entries: &[(&[u8], &[u8])]) -> Vec<u8> {
    let mut blob = Vec::new();
    let mut offsets = Vec::new();
    for (word, run) in entries {
        let entry = blob.len();
        offsets.push(entry as u32);
        push_u32(&mut blob, 0);
        blob.push(0);
        blob.extend_from_slice(word);
        blob.push(0);
        pad4(&mut blob);
        let run_at = blob.len() as u32;
        blob[entry..entry + 4].copy_from_slice(&run_at.to_le_bytes());
        blob.extend_from_slice(run);
        pad4(&mut blob);
    }
    // room for the bounds checks of a word entry near the end
    push_u32(&mut blob, 0);
    push_u32(&mut blob, 0);
    let mut array = Vec::new();
    push_u32(&mut array, offsets.len() as u32);
    for o in &offsets {
        push_u32(&mut array, *o);
    }
    let idx_offset = 16 + blob.len() as u32;
    let mut f = Vec::new();
    for x in [0x10000, 0, 0x10, idx_offset] {
        push_u32(&mut f, x);
    }
    f.extend_from_slice(&blob);
    let n = array.len() as u32;
    for x in [4, 20, 20 + n, 20 + 2 * n, 20 + 3 * n] {
        push_u32(&mut f, x);
    }
    for _ in 0..4 {
        f.extend_from_slice(&array);
    }
    f
}

fn sample() -> Vec<u8> {
    key_file(&[
        ("アイ".as_bytes(), &[1, 0, 1, 5]),
        ("カ".as_bytes(), &[2, 0, 2, 1, 2, 17, 3, 4]),
        ("サシ".as_bytes(), &[1, 0, 18, 0, 9, 2]),
    ])
}

#[test]
fn loads_all_four_indexes() {
    let f = sample();
    let keys = Keys::from_bytes(&f).unwrap();
    assert_eq!(keys.index_len.len(), 3);
    assert_eq!(keys.index_prefix.len(), 3);
    assert_eq!(keys.index_suffix.len(), 3);
    assert_eq!(keys.index_d.len(), 3);
}

#[test]
fn get_idx_decodes_word_and_references() {
    let f = sample();
    let keys = Keys::from_bytes(&f).unwrap();
    let (word, pages) = keys.get_idx(&keys.index_prefix, 1).unwrap();
    assert_eq!(word, "カ");
    assert_eq!(
        pages.into_vec(),
        vec![PageItemId { page: 0x0102, item: 0 }, PageItemId { page: 3, item: 4 }]
    );
    assert_eq!(keys.get_idx(&keys.index_prefix, 3).unwrap_err(), Error::NotFound);
}

#[test]
fn search_finds_every_word() {
    let f = sample();
    let keys = Keys::from_bytes(&f).unwrap();
    for i in 0..keys.index_prefix.len() {
        let (word, pages) = keys.get_idx(&keys.index_prefix, i).unwrap();
        let expected = pages.into_vec();
        let (pos, found) = keys.search_exact(word).unwrap();
        assert_eq!(pos, i);
        assert_eq!(found.into_vec(), expected);
    }
}

#[test]
fn search_normalizes_hiragana() {
    let f = sample();
    let keys = Keys::from_bytes(&f).unwrap();
    let (pos, pages) = keys.search_exact("さし").unwrap();
    assert_eq!(pos, 2);
    assert_eq!(pages.into_vec(), vec![PageItemId { page: 9, item: 2 }]);
}

#[test]
fn search_misses() {
    let f = sample();
    let keys = Keys::from_bytes(&f).unwrap();
    for target in ["", "ア", "アイウ", "キ", "ン", "zzz"] {
        assert_eq!(keys.search_exact(target).unwrap_err(), Error::NotFound);
    }
}

#[test]
fn empty_index_finds_nothing() {
    let f = key_file(&[]);
    let keys = Keys::from_bytes(&f).unwrap();
    assert_eq!(keys.index_prefix.len(), 0);
    assert_eq!(keys.search_exact("").unwrap_err(), Error::NotFound);
    assert_eq!(keys.search_exact("ア").unwrap_err(), Error::NotFound);
}

#[test]
fn single_entry_index() {
    let f = key_file(&[("カ".as_bytes(), &[1, 0, 1, 1])]);
    let keys = Keys::from_bytes(&f).unwrap();
    assert_eq!(keys.search_exact("カ").unwrap().0, 0);
    // sorts before the only word: the search stops at position 0
    assert_eq!(keys.search_exact("ア").unwrap_err(), Error::NotFound);
    assert_eq!(keys.search_exact("サ").unwrap_err(), Error::NotFound);
}

#[test]
fn invalid_utf8_word() {
    let f = key_file(&[(&[0xff, 0xfe], &[0, 0])]);
    let keys = Keys::from_bytes(&f).unwrap();
    assert_eq!(keys.get_idx(&keys.index_prefix, 0).unwrap_err(), Error::Utf8Error);
    assert_eq!(keys.search_exact("ア").unwrap_err(), Error::Utf8Error);
}

#[test]
fn word_span_out_of_bounds() {
    let f = sample();
    let keys = Keys::from_bytes(&f).unwrap();
    assert_eq!(keys.get_word_span(100000).unwrap_err(), Error::InvalidIndex);
    let (word, run_at) = keys.get_word_span(0).unwrap();
    assert_eq!(word, "アイ");
    assert_eq!(run_at, 12);
}

#[test]
fn index_length_prefix_mismatch() {
    let mut f = sample();
    // the prefix of the first index array says 4 where 3 follow
    let idx_offset = u32::from_le_bytes([f[12], f[13], f[14], f[15]]) as usize;
    f[idx_offset + 20] = 4;
    assert_eq!(Keys::from_bytes(&f).unwrap_err(), Error::InvalidIndex);
}

#[test]
fn bad_index_header_magic() {
    let mut f = sample();
    let idx_offset = u32::from_le_bytes([f[12], f[13], f[14], f[15]]) as usize;
    f[idx_offset] = 5;
    assert_eq!(Keys::from_bytes(&f).unwrap_err(), Error::KeyIndexHeaderValidate);
}

#[test]
fn bad_file_header() {
    let mut f = sample();
    f[2] = 3;
    assert_eq!(Keys::from_bytes(&f).unwrap_err(), Error::KeyFileHeaderValidate);
}

#[test]
fn truncated_file() {
    let f = sample();
    let idx_offset = u32::from_le_bytes([f[12], f[13], f[14], f[15]]) as usize;
    // the index header is cut short
    assert_eq!(Keys::from_bytes(&f[..idx_offset + 10]).unwrap_err(), Error::IOError);
    // the word blob is cut short
    assert_eq!(Keys::from_bytes(&f[..idx_offset - 4]).unwrap_err(), Error::IOError);
    // the last index array ends with the file: cutting it breaks its length prefix
    assert_eq!(Keys::from_bytes(&f[..f.len() - 4]).unwrap_err(), Error::InvalidIndex);
    assert_eq!(Keys::from_bytes(&f[..10]).unwrap_err(), Error::IOError);
}

#[test]
fn word_blob_not_whole_words() {
    let mut f = sample();
    let idx_offset = u32::from_le_bytes([f[12], f[13], f[14], f[15]]);
    f[12..16].copy_from_slice(&(idx_offset - 1).to_le_bytes());
    assert_eq!(Keys::from_bytes(&f).unwrap_err(), Error::InvalidIndex);
}
