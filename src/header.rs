use vstd::prelude::*;

use crate::error::Error;
use crate::le::{le32, read_u32_le};

verus! {

/// The key file header. Revision 1 holds the first four fields (16 bytes);
/// revision 2 holds all eight (32 bytes). Fields the file does not hold are 0.
#[derive(Debug, Clone, Copy, PartialEq, Eq, Structural)]
pub struct FileHeader {
    pub ver: u32,
    pub magic1: u32,
    pub words_offset: u32,
    pub idx_offset: u32,
    pub next_offset: u32,
    pub magic5: u32,
    pub magic6: u32,
    pub magic7: u32,
}

/// The `u32` stored little-endian at `b[i..i + 4]`.
pub open spec fn field(b: Seq<u8>, i: int) -> u32 {
    le32(b, i) as u32
}

/// The header whose first `n` fields come from `b` and whose others are 0.
pub open spec fn header_fields(b: Seq<u8>, n: int) -> FileHeader {
    FileHeader {
        ver: field(b, 0),
        magic1: field(b, 4),
        words_offset: field(b, 8),
        idx_offset: field(b, 12),
        next_offset: if n > 4 { field(b, 16) } else { 0 },
        magic5: if n > 4 { field(b, 20) } else { 0 },
        magic6: if n > 4 { field(b, 24) } else { 0 },
        magic7: if n > 4 { field(b, 28) } else { 0 },
    }
}

/// A header of either revision whose fields meet that revision's constraints.
pub open spec fn file_header_ok(h: FileHeader) -> bool {
    ||| {
        &&& h.ver == 0x10000
        &&& h.magic1 == 0
        &&& h.words_offset == 0x10
        &&& h.words_offset < h.idx_offset
    }
    ||| {
        &&& h.ver == 0x20000
        &&& h.magic1 == 0
        &&& h.words_offset == 0x20
        &&& h.magic5 == 0
        &&& h.magic6 == 0
        &&& h.magic7 == 0
        &&& h.words_offset < h.idx_offset
        &&& (h.next_offset == 0 || h.idx_offset < h.next_offset)
    }
}

/// The key file header at the start of `b`: the revision is told by its first
/// 16 bytes, a revision 2 header needs 16 more.
pub open spec fn file_header_spec(b: Seq<u8>) -> Result<FileHeader, Error> {
    if b.len() < 16 {
        Err(Error::IOError)
    } else if field(b, 0) == 0x10000 && field(b, 8) == 0x10 {
        if file_header_ok(header_fields(b, 4)) {
            Ok(header_fields(b, 4))
        } else {
            Err(Error::KeyFileHeaderValidate)
        }
    } else if field(b, 0) == 0x20000 && field(b, 8) == 0x20 {
        if b.len() < 32 {
            Err(Error::IOError)
        } else if file_header_ok(header_fields(b, 8)) {
            Ok(header_fields(b, 8))
        } else {
            Err(Error::KeyFileHeaderValidate)
        }
    } else {
        Err(Error::KeyFileHeaderValidate)
    }
}

impl FileHeader {
    /// Reads and validates the key file header at the start of `b`.
    pub fn parse(b: &[u8]) -> (r: Result<FileHeader, Error>)
        ensures
            r == file_header_spec(b@),
            r matches Ok(h) ==> file_header_ok(h),
    {
        if b.len() < 16 {
            return Err(Error::IOError);
        }
        let ver = read_u32_le(b, 0);
        let words_offset = read_u32_le(b, 8);
        let mut h = FileHeader {
            ver,
            magic1: read_u32_le(b, 4),
            words_offset,
            idx_offset: read_u32_le(b, 12),
            next_offset: 0,
            magic5: 0,
            magic6: 0,
            magic7: 0,
        };
        if ver == 0x10000 && words_offset == 0x10 {
        } else if ver == 0x20000 && words_offset == 0x20 {
            if b.len() < 32 {
                return Err(Error::IOError);
            }
            h.next_offset = read_u32_le(b, 16);
            h.magic5 = read_u32_le(b, 20);
            h.magic6 = read_u32_le(b, 24);
            h.magic7 = read_u32_le(b, 28);
        } else {
            return Err(Error::KeyFileHeaderValidate);
        }
        if h.ver == 0x10000 && h.magic1 == 0 && h.words_offset < h.idx_offset {
            Ok(h)
        } else if h.ver == 0x20000 && h.magic1 == 0 && h.magic5 == 0 && h.magic6 == 0
            && h.magic7 == 0 && h.words_offset < h.idx_offset && (h.next_offset == 0
            || h.idx_offset < h.next_offset) {
            Ok(h)
        } else {
            Err(Error::KeyFileHeaderValidate)
        }
    }
}

/// The index header: a magic value and the offsets of the four index arrays,
/// relative to the header's own position; an offset of 0 marks an absent array.
#[derive(Debug, Clone, Copy, PartialEq, Eq, Structural)]
pub struct IndexHeader {
    pub magic1: u32,
    pub index_a_offset: u32,
    pub index_b_offset: u32,
    pub index_c_offset: u32,
    pub index_d_offset: u32,
}

/// `l` comes strictly before `r`, or `r` is absent.
pub open spec fn in_order(l: int, r: int) -> bool {
    l < r || r == 0
}

/// The magic value is 4, the offsets increase (skipping absent ones), and the
/// last one lies below the end `idx_end` of the index region.
pub open spec fn index_header_ok(h: IndexHeader, idx_end: int) -> bool {
    &&& h.magic1 == 4
    &&& in_order(h.index_a_offset as int, h.index_b_offset as int)
    &&& in_order(h.index_b_offset as int, h.index_c_offset as int)
    &&& in_order(h.index_c_offset as int, h.index_d_offset as int)
    &&& h.index_d_offset < idx_end
}

/// The index header stored at `b[at..at + 20]`.
pub open spec fn index_header_spec(b: Seq<u8>, at: int) -> Result<IndexHeader, Error> {
    if at + 20 > b.len() {
        Err(Error::IOError)
    } else {
        Ok(
            IndexHeader {
                magic1: field(b, at),
                index_a_offset: field(b, at + 4),
                index_b_offset: field(b, at + 8),
                index_c_offset: field(b, at + 12),
                index_d_offset: field(b, at + 16),
            },
        )
    }
}

impl IndexHeader {
    /// Reads the index header stored at byte position `at` of `b`.
    pub fn parse(b: &[u8], at: usize) -> (r: Result<IndexHeader, Error>)
        ensures
            r == index_header_spec(b@, at as int),
    {
        if at > b.len() || b.len() - at < 20 {
            return Err(Error::IOError);
        }
        Ok(
            IndexHeader {
                magic1: read_u32_le(b, at),
                index_a_offset: read_u32_le(b, at + 4),
                index_b_offset: read_u32_le(b, at + 8),
                index_c_offset: read_u32_le(b, at + 12),
                index_d_offset: read_u32_le(b, at + 16),
            },
        )
    }

    /// Checks the magic value and the order of the offsets, the last one
    /// against the end `idx_end` of the index region.
    pub fn validate(&self, idx_end: usize) -> (r: Result<(), Error>)
        ensures
            r is Ok <==> index_header_ok(*self, idx_end as int),
            r matches Err(e) ==> e == Error::KeyIndexHeaderValidate,
    {
        let a = self.index_a_offset as usize;
        let b = self.index_b_offset as usize;
        let c = self.index_c_offset as usize;
        let d = self.index_d_offset as usize;
        if self.magic1 == 4 && (a < b || b == 0) && (b < c || c == 0) && (c < d || d == 0) && d
            < idx_end {
            Ok(())
        } else {
            Err(Error::KeyIndexHeaderValidate)
        }
    }
}

/// A header whose version and words offset match neither revision is rejected
/// as invalid, whatever the rest of it holds.
pub proof fn lemma_unknown_revision_rejected(b: Seq<u8>)
    requires
        b.len() >= 16,
        !(field(b, 0) == 0x10000 && field(b, 8) == 0x10),
        !(field(b, 0) == 0x20000 && field(b, 8) == 0x20),
    ensures
        file_header_spec(b) == Err::<FileHeader, Error>(Error::KeyFileHeaderValidate),
{
}

/// An index header whose magic value is not 4, or in which a present offset
/// does not exceed the one before it, is rejected.
pub proof fn lemma_index_header_rejected(h: IndexHeader, idx_end: int)
    requires
        h.magic1 != 4 || (h.index_b_offset != 0 && h.index_a_offset >= h.index_b_offset) || (
        h.index_c_offset != 0 && h.index_b_offset >= h.index_c_offset) || (h.index_d_offset
            != 0 && h.index_c_offset >= h.index_d_offset) || h.index_d_offset >= idx_end,
    ensures
        !index_header_ok(h, idx_end),
{
}

} // verus!
