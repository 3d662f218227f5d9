use vstd::prelude::*;
use vstd::utf8::{decode_utf8, encode_utf8, valid_utf8};

use crate::error::Error;
use crate::header::{
    file_header_spec, index_header_ok, index_header_spec, FileHeader, IndexHeader,
};
use crate::kana::{katakana, to_katakana};
use crate::le::{le32, read_u32_le};
use crate::order::{bytes_lt, cmp_bytes, lemma_bytes_lt_irreflexive, lemma_bytes_lt_transitive};
use crate::page::{reference_run, PageItemId, PageIter};
use crate::section::{copy_bytes, load_spec, read_vec, section, section_spec};

verus! {

broadcast use vstd::utf8::encode_utf8_decode_utf8, vstd::utf8::decode_utf8_encode_utf8;

/// A self-length-prefixed array: its first element counts the elements after it.
pub open spec fn index_wf(ix: Option<Seq<u32>>) -> bool {
    ix matches Some(v) ==> v.len() >= 1 && v[0] as int + 1 == v.len()
}

/// The logical length of an index array: its elements after the prefix, 0 when absent.
pub open spec fn index_len(ix: Option<Seq<u32>>) -> nat {
    match ix {
        Some(v) => if v.len() >= 1 {
            (v.len() - 1) as nat
        } else {
            0
        },
        None => 0,
    }
}

/// One sort order over the keywords: byte offsets of word entries in the word blob.
#[derive(Debug)]
pub struct KeyIndex {
    index: Option<Vec<u32>>,
}

impl View for KeyIndex {
    type V = Option<Seq<u32>>;

    closed spec fn view(&self) -> Option<Seq<u32>> {
        match self.index {
            Some(v) => Some(v@),
            None => None,
        }
    }
}

impl KeyIndex {
    #[verifier::type_invariant]
    spec fn inv(self) -> bool {
        index_wf(self@)
    }

    /// Checks that a loaded array describes its own length.
    pub fn from_section(buf: Option<Vec<u32>>) -> (r: Result<KeyIndex, Error>)
        ensures
            match r {
                Ok(k) => index_wf(k@) && k@ == match buf {
                    Some(v) => Some(v@),
                    None => None::<Seq<u32>>,
                },
                Err(e) => e == Error::InvalidIndex && !index_wf(
                    match buf {
                        Some(v) => Some(v@),
                        None => None::<Seq<u32>>,
                    },
                ),
            },
    {
        match &buf {
            Some(v) => {
                if v.len() == 0 || v[0] as usize != v.len() - 1 {
                    return Err(Error::InvalidIndex);
                }
            },
            None => {},
        }
        Ok(KeyIndex { index: buf })
    }

    /// The logical length: the count that the array's first element holds, 0 when absent.
    pub fn len(&self) -> (r: usize)
        ensures
            r == index_len(self@),
            self@ matches Some(v) ==> v.len() == r + 1 && v[0] == r,
    {
        proof {
            use_type_invariant(self);
        }
        match &self.index {
            Some(v) => v.len() - 1,
            None => 0,
        }
    }

    /// The offset stored at logical position `i`.
    pub fn get(&self, i: usize) -> (r: Result<usize, Error>)
        ensures
            match r {
                Ok(off) => i < index_len(self@) && off == self@->Some_0[i + 1],
                Err(e) => e == if self@ is None {
                    Error::IndexDoesntExist
                } else {
                    Error::InvalidIndex
                } && i >= index_len(self@),
            },
    {
        proof {
            use_type_invariant(self);
        }
        match &self.index {
            None => Err(Error::IndexDoesntExist),
            Some(v) => {
                if i >= v.len() - 1 {
                    Err(Error::InvalidIndex)
                } else {
                    Ok(v[i + 1] as usize)
                }
            },
        }
    }
}

/// An index array as loaded from `f[base + start..base + end]`, checked to
/// describe its own length.
pub open spec fn index_spec(f: Seq<u8>, base: int, start: int, end: int) -> Result<
    Option<Seq<u32>>,
    Error,
> {
    match load_spec(f, base, start, end) {
        Ok(ix) => if index_wf(ix) {
            Ok(ix)
        } else {
            Err(Error::InvalidIndex)
        },
        Err(e) => Err(e),
    }
}

/// The word blob and the four index arrays of a key file.
pub type KeyParts = (Seq<u8>, Option<Seq<u32>>, Option<Seq<u32>>, Option<Seq<u32>>, Option<Seq<u32>>);

/// The four index arrays that follow a valid index header at `base`; each
/// array ends where the next one starts, the last one at `idx_end`.
pub open spec fn indexes_spec(
    f: Seq<u8>,
    words: Seq<u8>,
    base: int,
    h: IndexHeader,
    idx_end: int,
) -> Result<KeyParts, Error> {
    let a = h.index_a_offset as int;
    let b = h.index_b_offset as int;
    let c = h.index_c_offset as int;
    let d = h.index_d_offset as int;
    match index_spec(f, base, a, b) {
        Err(e) => Err(e),
        Ok(ia) => match index_spec(f, base, b, c) {
            Err(e) => Err(e),
            Ok(ib) => match index_spec(f, base, c, d) {
                Err(e) => Err(e),
                Ok(ic) => match index_spec(f, base, d, idx_end) {
                    Err(e) => Err(e),
                    Ok(id) => Ok((words, ia, ib, ic, id)),
                },
            },
        },
    }
}

/// The contents of a key file: a validated file header; the word blob between
/// the words offset and the index offset; at the index offset a validated
/// index header, whose region ends at the next section or at the end of the file.
pub open spec fn keys_spec(f: Seq<u8>) -> Result<KeyParts, Error> {
    match file_header_spec(f) {
        Err(e) => Err(e),
        Ok(h) => match section_spec(f, 0, h.words_offset as int, h.idx_offset as int) {
            Err(e) => Err(e),
            Ok(None) => Err(Error::InvalidIndex),
            Ok(Some(words)) => {
                let region_end = if h.next_offset == 0 {
                    f.len() as int
                } else {
                    h.next_offset as int
                };
                let idx_end = region_end - h.idx_offset;
                match index_header_spec(f, h.idx_offset as int) {
                    Err(e) => Err(e),
                    Ok(ih) => if !index_header_ok(ih, idx_end) {
                        Err(Error::KeyIndexHeaderValidate)
                    } else {
                        indexes_spec(f, words, h.idx_offset as int, ih, idx_end)
                    },
                }
            },
        },
    }
}

/// The position of the first NUL byte at or after `i`, or the end of `w`.
pub open spec fn word_end(w: Seq<u8>, i: int) -> int
    decreases w.len() - i,
{
    if i >= w.len() {
        w.len() as int
    } else if w[i] == 0 {
        i
    } else {
        word_end(w, i + 1)
    }
}

/// The keyword bytes of the word entry at `off`: after the 4-byte reference-run
/// offset and one ignored byte, up to the terminating NUL.
pub open spec fn word_bytes(w: Seq<u8>, off: int) -> Seq<u8> {
    w.subrange(off + 5, word_end(w, off + 5))
}

/// The keyword and reference-run offset of the word entry at `off`.
pub open spec fn word_span_spec(w: Seq<u8>, off: int) -> Result<(Seq<char>, int), Error> {
    if off + 8 > w.len() {
        Err(Error::InvalidIndex)
    } else if !valid_utf8(word_bytes(w, off)) {
        Err(Error::Utf8Error)
    } else {
        Ok((decode_utf8(word_bytes(w, off)), le32(w, off) as int))
    }
}

/// The references of the reference run at `p`.
pub open spec fn page_items_spec(w: Seq<u8>, p: int) -> Result<Seq<PageItemId>, Error> {
    if p > w.len() {
        Err(Error::InvalidIndex)
    } else {
        match reference_run(w.subrange(p, w.len() as int)) {
            Some(items) => Ok(items),
            None => Err(Error::InvalidIndex),
        }
    }
}

/// The keyword and references at logical position `i` of index `ix` over blob `w`.
pub open spec fn entry_spec(w: Seq<u8>, ix: Option<Seq<u32>>, i: int) -> Result<
    (Seq<char>, Seq<PageItemId>),
    Error,
> {
    if i < 0 || i >= index_len(ix) {
        Err(Error::NotFound)
    } else {
        match word_span_spec(w, ix->Some_0[i + 1] as int) {
            Err(e) => Err(e),
            Ok((s, p)) => match page_items_spec(w, p) {
                Err(e) => Err(e),
                Ok(items) => Ok((s, items)),
            },
        }
    }
}

/// The keyword at position `i`, for an entry that decodes.
pub open spec fn entry_word(w: Seq<u8>, ix: Option<Seq<u32>>, i: int) -> Seq<char> {
    entry_spec(w, ix, i)->Ok_0.0
}

/// Every entry of the index decodes, and the keywords strictly increase in byte order.
pub open spec fn index_sorted(w: Seq<u8>, ix: Option<Seq<u32>>) -> bool {
    &&& forall|i: int| 0 <= i < index_len(ix) ==> (#[trigger] entry_spec(w, ix, i)) is Ok
    &&& forall|i: int, j: int|
        0 <= i < j < index_len(ix) ==> bytes_lt(
            encode_utf8(#[trigger] entry_word(w, ix, i)),
            encode_utf8(#[trigger] entry_word(w, ix, j)),
        )
}

/// Relies on `std::str::from_utf8`: it accepts exactly the valid UTF-8 byte
/// sequences, and the text it returns is the one they encode.
#[verifier::external_body]
fn utf8_text(b: &[u8]) -> (r: Option<&str>)
    ensures
        r is Some <==> valid_utf8(b@),
        r matches Some(s) ==> s@ == decode_utf8(b@),
{
    std::str::from_utf8(b).ok()
}

/// The word blob and the four index arrays of a key file.
#[derive(Debug)]
pub struct Keys {
    words: Vec<u8>,
    pub index_len: KeyIndex,
    pub index_prefix: KeyIndex,
    pub index_suffix: KeyIndex,
    pub index_d: KeyIndex,
}

impl Keys {
    /// The word blob.
    pub closed spec fn blob(&self) -> Seq<u8> {
        self.words@
    }

    /// The "by prefix" index, over which searches run.
    pub closed spec fn prefix_index(&self) -> Option<Seq<u32>> {
        self.index_prefix@
    }

    /// The word blob and the four index arrays.
    pub closed spec fn parts(&self) -> KeyParts {
        (
            self.words@,
            self.index_len@,
            self.index_prefix@,
            self.index_suffix@,
            self.index_d@,
        )
    }

    /// Loads the index array `f[base + start..base + end]` and checks its length prefix.
    fn load_index(f: &[u8], base: usize, start: usize, end: usize) -> (r: Result<KeyIndex, Error>)
        ensures
            match r {
                Ok(k) => index_spec(f@, base as int, start as int, end as int) == Ok::<
                    Option<Seq<u32>>,
                    Error,
                >(k@),
                Err(e) => index_spec(f@, base as int, start as int, end as int) == Err::<
                    Option<Seq<u32>>,
                    Error,
                >(e),
            },
    {
        let v = read_vec(f, base, start, end)?;
        KeyIndex::from_section(v)
    }

    /// Reads a key file held in `f`: validates both headers, then loads the word
    /// blob and the four index arrays.
    pub fn from_bytes(f: &[u8]) -> (r: Result<Keys, Error>)
        ensures
            match r {
                Ok(k) => keys_spec(f@) == Ok::<KeyParts, Error>(k.parts()),
                Err(e) => keys_spec(f@) == Err::<KeyParts, Error>(e),
            },
    {
        let hdr = FileHeader::parse(f)?;
        let words_offset = hdr.words_offset as usize;
        let idx_offset = hdr.idx_offset as usize;
        let words = match section(f, 0, words_offset, idx_offset)? {
            Some(b) => copy_bytes(b),
            None => {
                return Err(Error::InvalidIndex);
            },
        };
        let region_end = if hdr.next_offset == 0 {
            f.len()
        } else {
            hdr.next_offset as usize
        };
        let idx_end = region_end - idx_offset;
        let ihdr = IndexHeader::parse(f, idx_offset)?;
        ihdr.validate(idx_end)?;
        let a = ihdr.index_a_offset as usize;
        let b = ihdr.index_b_offset as usize;
        let c = ihdr.index_c_offset as usize;
        let d = ihdr.index_d_offset as usize;
        let index_len = Self::load_index(f, idx_offset, a, b)?;
        let index_prefix = Self::load_index(f, idx_offset, b, c)?;
        let index_suffix = Self::load_index(f, idx_offset, c, d)?;
        let index_d = Self::load_index(f, idx_offset, d, idx_end)?;
        Ok(Keys { words, index_len, index_prefix, index_suffix, index_d })
    }

    /// The keyword and reference-run offset of the word entry at byte `offset`.
    pub fn get_word_span(&self, offset: usize) -> (r: Result<(&str, usize), Error>)
        ensures
            match r {
                Ok((s, p)) => word_span_spec(self.blob(), offset as int) == Ok::<
                    (Seq<char>, int),
                    Error,
                >((s@, p as int)),
                Err(e) => word_span_spec(self.blob(), offset as int) == Err::<
                    (Seq<char>, int),
                    Error,
                >(e),
            },
    {
        let w = self.words.as_slice();
        if offset > w.len() || w.len() - offset < 8 {
            return Err(Error::InvalidIndex);
        }
        let pages_offset = read_u32_le(w, offset);
        let start = offset + 5;
        let mut j = start;
        while j < w.len() && w[j] != 0
            invariant
                w@ == self.words@,
                start <= j <= w@.len(),
                word_end(w@, start as int) == word_end(w@, j as int),
            decreases w@.len() - j,
        {
            j = j + 1;
        }
        let (_, tail) = w.split_at(start);
        let (bytes, _) = tail.split_at(j - start);
        assert(bytes@ =~= word_bytes(w@, offset as int));
        match utf8_text(bytes) {
            Some(s) => Ok((s, pages_offset as usize)),
            None => Err(Error::Utf8Error),
        }
    }

    /// The reference run at byte `pages_offset` of the word blob.
    fn get_page_iter(&self, pages_offset: usize) -> (r: Result<PageIter<'_>, Error>)
        ensures
            match r {
                Ok(it) => page_items_spec(self.blob(), pages_offset as int) == Ok::<
                    Seq<PageItemId>,
                    Error,
                >(it.items()),
                Err(e) => page_items_spec(self.blob(), pages_offset as int) == Err::<
                    Seq<PageItemId>,
                    Error,
                >(e),
            },
    {
        let w = self.words.as_slice();
        if pages_offset > w.len() {
            return Err(Error::InvalidIndex);
        }
        let (_, pages) = w.split_at(pages_offset);
        PageIter::new(pages)
    }

    /// The keyword and references at logical position `idx` of `index`.
    pub fn get_idx<'a>(&'a self, index: &KeyIndex, idx: usize) -> (r: Result<
        (&'a str, PageIter<'a>),
        Error,
    >)
        ensures
            match r {
                Ok((s, it)) => entry_spec(self.blob(), index@, idx as int) == Ok::<
                    (Seq<char>, Seq<PageItemId>),
                    Error,
                >((s@, it.items())),
                Err(e) => entry_spec(self.blob(), index@, idx as int) == Err::<
                    (Seq<char>, Seq<PageItemId>),
                    Error,
                >(e),
            },
    {
        if idx >= index.len() {
            return Err(Error::NotFound);
        }
        let word_offset = index.get(idx)?;
        let (word, pages_offset) = self.get_word_span(word_offset)?;
        let pages = self.get_page_iter(pages_offset)?;
        Ok((word, pages))
    }

    /// Looks `target_key` up, normalized to katakana, by binary search over the
    /// "by prefix" index, comparing keywords byte by byte.
    pub fn search_exact(&self, target_key: &str) -> (r: Result<(usize, PageIter<'_>), Error>)
        ensures
            r matches Ok((i, it)) ==> entry_spec(self.blob(), self.prefix_index(), i as int)
                == Ok::<(Seq<char>, Seq<PageItemId>), Error>((katakana(target_key@), it.items())),
            r matches Err(e) ==> e != Error::NotFound ==> exists|i: int|
                0 <= i < index_len(self.prefix_index()) && entry_spec(
                    self.blob(),
                    self.prefix_index(),
                    i,
                ) == Err::<(Seq<char>, Seq<PageItemId>), Error>(e),
            r matches Err(e) ==> e == Error::NotFound ==> index_sorted(
                self.blob(),
                self.prefix_index(),
            ) ==> forall|i: int|
                0 <= i < index_len(self.prefix_index()) ==> entry_word(
                    self.blob(),
                    self.prefix_index(),
                    i,
                ) != katakana(target_key@),
            index_len(self.prefix_index()) == 0 ==> (r matches Err(e) && e == Error::NotFound),
            index_sorted(self.blob(), self.prefix_index()) ==> (r is Ok <==> exists|i: int|
                0 <= i < index_len(self.prefix_index()) && entry_word(
                    self.blob(),
                    self.prefix_index(),
                    i,
                ) == katakana(target_key@)),
    {
        let ghost w = self.blob();
        let ghost ix = self.index_prefix@;
        let target = to_katakana(target_key);
        let tb = target.as_str().as_bytes();
        let ghost t = katakana(target_key@);
        assert(tb@ == encode_utf8(t));
        let n = self.index_prefix.len();
        if n == 0 {
            return Err(Error::NotFound);
        }
        let mut low: usize = 0;
        let mut high: usize = n - 1;
        while low <= high
            invariant
                w == self.blob(),
                ix == self.index_prefix@,
                tb@ == encode_utf8(t),
                t == katakana(target_key@),
                n == index_len(ix),
                high < n,
                low <= high + 1,
                index_sorted(w, ix) ==> forall|k: int|
                    0 <= k < low ==> bytes_lt(encode_utf8(#[trigger] entry_word(w, ix, k)), tb@),
                index_sorted(w, ix) ==> forall|k: int|
                    high < k < n ==> bytes_lt(tb@, encode_utf8(#[trigger] entry_word(w, ix, k))),
            decreases high + 1 - low,
        {
            let mid = low + (high - low) / 2;
            let (word, pages) = self.get_idx(&self.index_prefix, mid)?;
            let wb = word.as_bytes();
            assert(wb@ == encode_utf8(entry_word(w, ix, mid as int)));
            match cmp_bytes(tb, wb) {
                core::cmp::Ordering::Less => {
                    proof {
                        if index_sorted(w, ix) {
                            assert forall|k: int| mid <= k < n implies bytes_lt(
                                tb@,
                                encode_utf8(#[trigger] entry_word(w, ix, k)),
                            ) by {
                                if k > mid {
                                    lemma_sorted_pair(w, ix, mid as int, k);
                                    lemma_bytes_lt_transitive(
                                        tb@,
                                        wb@,
                                        encode_utf8(entry_word(w, ix, k)),
                                    );
                                }
                            }
                        }
                    }
                    if mid == 0 {
                        proof {
                            lemma_none_equal(w, ix, t, 0, -1);
                        }
                        return Err(Error::NotFound);
                    }
                    high = mid - 1;
                },
                core::cmp::Ordering::Greater => {
                    proof {
                        if index_sorted(w, ix) {
                            assert forall|k: int| 0 <= k <= mid implies bytes_lt(
                                encode_utf8(#[trigger] entry_word(w, ix, k)),
                                tb@,
                            ) by {
                                if k < mid {
                                    lemma_sorted_pair(w, ix, k, mid as int);
                                    lemma_bytes_lt_transitive(
                                        encode_utf8(entry_word(w, ix, k)),
                                        wb@,
                                        tb@,
                                    );
                                }
                            }
                        }
                    }
                    low = mid + 1;
                },
                core::cmp::Ordering::Equal => {
                    assert(word@ == t);
                    return Ok((mid, pages));
                },
            }
        }
        proof {
            lemma_none_equal(w, ix, t, low as int, high as int);
        }
        Err(Error::NotFound)
    }
}

/// Two positions of a sorted index are in byte order.
proof fn lemma_sorted_pair(w: Seq<u8>, ix: Option<Seq<u32>>, i: int, j: int)
    requires
        index_sorted(w, ix),
        0 <= i < j < index_len(ix),
    ensures
        bytes_lt(encode_utf8(entry_word(w, ix, i)), encode_utf8(entry_word(w, ix, j))),
{
}

/// When every keyword below `low` sorts before `t` and every one above `high`
/// after it, and nothing lies between, no keyword equals `t`.
proof fn lemma_none_equal(w: Seq<u8>, ix: Option<Seq<u32>>, t: Seq<char>, low: int, high: int)
    requires
        low > high,
        index_sorted(w, ix) ==> forall|k: int|
            0 <= k < low ==> bytes_lt(encode_utf8(#[trigger] entry_word(w, ix, k)), encode_utf8(t)),
        index_sorted(w, ix) ==> forall|k: int|
            high < k < index_len(ix) ==> bytes_lt(
                encode_utf8(t),
                encode_utf8(#[trigger] entry_word(w, ix, k)),
            ),
    ensures
        index_sorted(w, ix) ==> forall|i: int|
            0 <= i < index_len(ix) ==> entry_word(w, ix, i) != t,
{
    if index_sorted(w, ix) {
        assert forall|i: int| 0 <= i < index_len(ix) implies entry_word(w, ix, i) != t by {
            lemma_bytes_lt_irreflexive(encode_utf8(t));
        }
    }
}

/// In a sorted index, the keyword at each position that is already in katakana
/// is found there and nowhere else: a search for it has exactly one position
/// to return.
pub proof fn lemma_search_finds_each_word(w: Seq<u8>, ix: Option<Seq<u32>>, i: int)
    requires
        index_sorted(w, ix),
        0 <= i < index_len(ix),
        katakana(entry_word(w, ix, i)) == entry_word(w, ix, i),
    ensures
        entry_spec(w, ix, i) is Ok,
        forall|j: int|
            0 <= j < index_len(ix) && entry_word(w, ix, j) == katakana(entry_word(w, ix, i))
                ==> j == i,
{
    assert forall|j: int|
        0 <= j < index_len(ix) && entry_word(w, ix, j) == katakana(
            entry_word(w, ix, i),
        ) implies j == i by {
        lemma_bytes_lt_irreflexive(encode_utf8(entry_word(w, ix, i)));
        if j < i {
            lemma_sorted_pair(w, ix, j, i);
        } else if j > i {
            lemma_sorted_pair(w, ix, i, j);
        }
    }
}

} // verus!
