use vstd::prelude::*;

use crate::error::Error;
use crate::header::field;
use crate::le::read_u32_le;

verus! {

/// The bytes `f[base + start..base + end]` of a section, `None` when the
/// section is absent (an offset of 0). The span must be whole 4-byte words and
/// lie within `f`.
pub open spec fn section_spec(f: Seq<u8>, base: int, start: int, end: int) -> Result<
    Option<Seq<u8>>,
    Error,
> {
    if start == 0 || end == 0 {
        Ok(None)
    } else if end < start || (end - start) % 4 != 0 {
        Err(Error::InvalidIndex)
    } else if base + end > f.len() {
        Err(Error::IOError)
    } else {
        Ok(Some(f.subrange(base + start, base + end)))
    }
}

/// The little-endian `u32`s that `b` holds, one for each whole 4 bytes.
pub open spec fn u32s_of(b: Seq<u8>) -> Seq<u32> {
    Seq::new(b.len() / 4, |k: int| field(b, 4 * k))
}

/// The `u32`s of a section, as `section_spec` delimits it.
pub open spec fn load_spec(f: Seq<u8>, base: int, start: int, end: int) -> Result<
    Option<Seq<u32>>,
    Error,
> {
    match section_spec(f, base, start, end) {
        Ok(Some(b)) => Ok(Some(u32s_of(b))),
        Ok(None) => Ok(None),
        Err(e) => Err(e),
    }
}

/// What a delimited section holds.
pub open spec fn bytes_result(r: Result<Option<&[u8]>, Error>) -> Result<Option<Seq<u8>>, Error> {
    match r {
        Ok(Some(b)) => Ok(Some(b@)),
        Ok(None) => Ok(None),
        Err(e) => Err(e),
    }
}

/// What a loaded section holds.
pub open spec fn u32s_result(r: Result<Option<Vec<u32>>, Error>) -> Result<Option<Seq<u32>>, Error> {
    match r {
        Ok(Some(v)) => Ok(Some(v@)),
        Ok(None) => Ok(None),
        Err(e) => Err(e),
    }
}

/// Delimits the section `f[base + start..base + end]`.
pub fn section(f: &[u8], base: usize, start: usize, end: usize) -> (r: Result<Option<&[u8]>, Error>)
    ensures
        bytes_result(r) == section_spec(f@, base as int, start as int, end as int),
{
    if start == 0 || end == 0 {
        return Ok(None);
    }
    if end < start || (end - start) % 4 != 0 {
        return Err(Error::InvalidIndex);
    }
    if end > f.len() || base > f.len() - end {
        return Err(Error::IOError);
    }
    let (_, tail) = f.split_at(base + start);
    let (b, _) = tail.split_at(end - start);
    assert(b@ =~= f@.subrange(base + start, base + end));
    Ok(Some(b))
}

/// Reads the little-endian `u32`s of `b`.
pub fn to_u32s(b: &[u8]) -> (r: Vec<u32>)
    ensures
        r@ == u32s_of(b@),
{
    let len = b.len();
    let n = len / 4;
    let mut v: Vec<u32> = Vec::new();
    let mut k: usize = 0;
    while k < n
        invariant
            len == b@.len(),
            n == b@.len() / 4,
            k <= n,
            v@ =~= u32s_of(b@).take(k as int),
        decreases n - k,
    {
        assert(4 * k + 4 <= b@.len()) by (nonlinear_arith)
            requires
                k < n,
                n == b@.len() / 4,
        ;
        let x = read_u32_le(b, 4 * k);
        v.push(x);
        k = k + 1;
    }
    assert(v@ =~= u32s_of(b@));
    v
}

/// Loads the `u32`s of the section `f[base + start..base + end]`, `None` when it is absent.
pub fn read_vec(f: &[u8], base: usize, start: usize, end: usize) -> (r: Result<
    Option<Vec<u32>>,
    Error,
>)
    ensures
        u32s_result(r) == load_spec(f@, base as int, start as int, end as int),
{
    match section(f, base, start, end) {
        Ok(Some(b)) => Ok(Some(to_u32s(b))),
        Ok(None) => Ok(None),
        Err(e) => Err(e),
    }
}

/// Copies the bytes of `b`.
pub fn copy_bytes(b: &[u8]) -> (r: Vec<u8>)
    ensures
        r@ == b@,
{
    let mut v: Vec<u8> = Vec::new();
    let mut k: usize = 0;
    while k < b.len()
        invariant
            k <= b@.len(),
            v@ =~= b@.take(k as int),
        decreases b@.len() - k,
    {
        v.push(b[k]);
        k = k + 1;
    }
    assert(v@ =~= b@);
    v
}

} // verus!
