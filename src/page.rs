use vstd::prelude::*;

use crate::error::Error;
use crate::le::{le16, read_u16_le};

verus! {

/// A content reference: a page of the content store and an item on it
/// (item 0 stands for the whole page).
#[derive(Debug, Clone, Copy, PartialEq, Eq, Structural)]
pub struct PageItemId {
    pub page: u32,
    pub item: u8,
}

/// The reference whose page is the big-endian value of `[hi, mid, lo]`.
pub open spec fn spec_pid(hi: u8, mid: u8, lo: u8, item: u8) -> PageItemId {
    PageItemId { page: (65536 * (hi as nat) + 256 * (mid as nat) + lo as nat) as u32, item }
}

/// Bytes taken by a record with this tag, the tag included; 0 for an unknown tag.
pub open spec fn record_len(tag: u8) -> int {
    if tag == 1 {
        2
    } else if tag == 2 || tag == 17 {
        3
    } else if tag == 4 || tag == 18 {
        4
    } else {
        0
    }
}

/// A record with a known tag starts at `b[i]` and fits in `b`.
pub open spec fn record_ok(b: Seq<u8>, i: int) -> bool {
    &&& 0 <= i < b.len()
    &&& record_len(b[i]) > 0
    &&& i + record_len(b[i]) <= b.len()
}

/// The reference encoded by the record at `b[i]`.
pub open spec fn record_at(b: Seq<u8>, i: int) -> PageItemId {
    let t = b[i];
    if t == 1 {
        spec_pid(0, 0, b[i + 1], 0)
    } else if t == 2 {
        spec_pid(0, b[i + 1], b[i + 2], 0)
    } else if t == 4 {
        spec_pid(b[i + 1], b[i + 2], b[i + 3], 0)
    } else if t == 17 {
        spec_pid(0, 0, b[i + 1], b[i + 2])
    } else {
        spec_pid(0, b[i + 1], b[i + 2], b[i + 3])
    }
}

/// Where `n` consecutive well-formed records starting at `b[i]` end, if they do.
pub open spec fn run_end(b: Seq<u8>, i: int, n: nat) -> Option<int>
    decreases n,
{
    if n == 0 {
        Some(i)
    } else if record_ok(b, i) {
        run_end(b, i + record_len(b[i]), (n - 1) as nat)
    } else {
        None
    }
}

/// The references of the `n` consecutive records starting at `b[i]`.
pub open spec fn run_items(b: Seq<u8>, i: int, n: nat) -> Seq<PageItemId>
    decreases n,
{
    if n == 0 {
        Seq::empty()
    } else {
        seq![record_at(b, i)] + run_items(b, i + record_len(b[i]), (n - 1) as nat)
    }
}

/// The references of a reference run: a little-endian 16-bit count followed by
/// that many records; `None` when the bytes do not hold them.
pub open spec fn reference_run(b: Seq<u8>) -> Option<Seq<PageItemId>> {
    if b.len() < 2 {
        None
    } else {
        match run_end(b, 2, le16(b, 0)) {
            Some(_) => Some(run_items(b, 2, le16(b, 0))),
            None => None,
        }
    }
}

/// Well-formed runs of `n` records decode to `n` references.
pub proof fn lemma_run_items_len(b: Seq<u8>, i: int, n: nat)
    requires
        run_end(b, i, n) is Some,
    ensures
        run_items(b, i, n).len() == n,
    decreases n,
{
    if n > 0 {
        lemma_run_items_len(b, i + record_len(b[i]), (n - 1) as nat);
    }
}

/// A well-formed run ends no earlier than it starts.
pub proof fn lemma_run_end_ge(b: Seq<u8>, i: int, n: nat)
    requires
        run_end(b, i, n) is Some,
    ensures
        run_end(b, i, n)->Some_0 >= i,
        n > 0 ==> record_ok(b, i) && run_end(b, i, n)->Some_0 >= i + record_len(b[i]),
    decreases n,
{
    if n > 0 {
        lemma_run_end_ge(b, i + record_len(b[i]), (n - 1) as nat);
    }
}

/// A well-formed run reads the same from any window of the bytes that holds it.
pub proof fn lemma_run_window(b: Seq<u8>, s: int, t: int, i: int, n: nat)
    requires
        0 <= s <= i,
        run_end(b, i, n) matches Some(e) && e <= t <= b.len(),
    ensures
        run_end(b.subrange(s, t), i - s, n) == Some(run_end(b, i, n)->Some_0 - s),
        run_items(b.subrange(s, t), i - s, n) == run_items(b, i, n),
    decreases n,
{
    if n > 0 {
        let w = b.subrange(s, t);
        let len = record_len(b[i]);
        lemma_run_end_ge(b, i, n);
        assert(w[i - s] == b[i]);
        lemma_run_window(b, s, t, i + len, (n - 1) as nat);
        assert(w[i - s + 1] == b[i + 1]);
        if len > 2 {
            assert(w[i - s + 2] == b[i + 2]);
        }
        if len > 3 {
            assert(w[i - s + 3] == b[i + 3]);
        }
        assert(record_at(w, i - s) == record_at(b, i));
    }
}

/// Decoding depends on the bytes alone: equal bytes give equal references,
/// and a run that decodes holds exactly as many references as it declares.
pub proof fn lemma_reference_run_deterministic(b1: Seq<u8>, b2: Seq<u8>)
    requires
        b1 == b2,
    ensures
        reference_run(b1) == reference_run(b2),
        reference_run(b1) matches Some(items) ==> items.len() == le16(b1, 0),
{
    if reference_run(b1) is Some {
        lemma_run_items_len(b1, 2, le16(b1, 0));
    }
}

fn pid(hi: u8, mid: u8, lo: u8, item: u8) -> (r: PageItemId)
    ensures
        r == spec_pid(hi, mid, lo, item),
{
    PageItemId { page: 65536 * (hi as u32) + 256 * (mid as u32) + lo as u32, item }
}

/// A one-pass cursor over the references of a validated reference run.
#[derive(Debug)]
pub struct PageIter<'a> {
    count: u16,
    span: &'a [u8],
}

impl<'a> PageIter<'a> {
    #[verifier::type_invariant]
    spec fn inv(self) -> bool {
        run_end(self.span@, 0, self.count as nat) == Some(self.span@.len() as int)
    }

    /// The references not yet produced, in order.
    pub closed spec fn items(&self) -> Seq<PageItemId> {
        run_items(self.span@, 0, self.count as nat)
    }

    /// Validates that `pages` starts with a count and that many well-formed records.
    pub fn new(pages: &'a [u8]) -> (r: Result<PageIter<'a>, Error>)
        ensures
            match r {
                Ok(it) => reference_run(pages@) == Some(it.items()),
                Err(e) => e == Error::InvalidIndex && reference_run(pages@) is None,
            },
    {
        if pages.len() < 2 {
            return Err(Error::InvalidIndex);
        }
        let count = read_u16_le(pages, 0);
        let ghost b = pages@;
        let mut pos: usize = 2;
        let mut k: u16 = 0;
        while k < count
            invariant
                b == pages@,
                2 <= pos <= b.len(),
                k <= count,
                count as nat == le16(b, 0),
                run_end(b, 2, count as nat) == run_end(b, pos as int, (count - k) as nat),
            decreases count - k,
        {
            if pos >= pages.len() {
                return Err(Error::InvalidIndex);
            }
            let tag = pages[pos];
            let len: usize = if tag == 1 {
                2
            } else if tag == 2 || tag == 17 {
                3
            } else if tag == 4 || tag == 18 {
                4
            } else {
                return Err(Error::InvalidIndex);
            };
            if pages.len() - pos < len {
                return Err(Error::InvalidIndex);
            }
            pos = pos + len;
            k = k + 1;
        }
        let (_, tail) = pages.split_at(2);
        let (span, _) = tail.split_at(pos - 2);
        proof {
            assert(span@ == b.subrange(2, pos as int));
            lemma_run_window(b, 2, pos as int, 2, count as nat);
        }
        Ok(PageIter { count, span })
    }

    /// How many references are left.
    pub fn remaining(&self) -> (r: usize)
        ensures
            r == self.items().len(),
    {
        proof {
            use_type_invariant(self);
            lemma_run_items_len(self.span@, 0, self.count as nat);
        }
        self.count as usize
    }

    /// Produces the next reference, or `None` once the run is exhausted.
    pub fn next(&mut self) -> (r: Option<PageItemId>)
        ensures
            old(self).items().len() == 0 ==> r is None && final(self).items() == old(self).items(),
            old(self).items().len() > 0 ==> r == Some(old(self).items()[0])
                && final(self).items() == old(self).items().drop_first(),
    {
        proof {
            use_type_invariant(&*self);
            lemma_run_items_len(self.span@, 0, self.count as nat);
        }
        if self.count == 0 {
            return None;
        }
        let s: &'a [u8] = self.span;
        let tag = s[0];
        let (id, len) = if tag == 1 {
            (pid(0, 0, s[1], 0), 2)
        } else if tag == 2 {
            (pid(0, s[1], s[2], 0), 3)
        } else if tag == 4 {
            (pid(s[1], s[2], s[3], 0), 4)
        } else if tag == 17 {
            (pid(0, 0, s[1], s[2]), 3)
        } else {
            (pid(0, s[1], s[2], s[3]), 4)
        };
        let (_, tail) = s.split_at(len);
        proof {
            lemma_run_window(s@, len as int, s@.len() as int, len as int, (self.count - 1) as nat);
            assert(tail@ == s@.subrange(len as int, s@.len() as int));
        }
        *self = PageIter { count: self.count - 1, span: tail };
        Some(id)
    }

    /// Produces all remaining references, in order.
    pub fn into_vec(self) -> (r: Vec<PageItemId>)
        ensures
            r@ == self.items(),
    {
        let ghost all = self.items();
        let mut it = self;
        let mut out: Vec<PageItemId> = Vec::new();
        assert(all == out@ + it.items());
        loop
            invariant
                all == self.items(),
                all == out@ + it.items(),
            decreases it.items().len(),
        {
            match it.next() {
                Some(id) => {
                    out.push(id);
                    assert(all == out@ + it.items());
                },
                None => {
                    assert(it.items() =~= Seq::<PageItemId>::empty());
                    assert(out@ =~= all);
                    return out;
                },
            }
        }
    }
}

} // verus!
