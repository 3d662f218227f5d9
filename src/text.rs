use vstd::prelude::*;

verus! {

/// Relies on `String::push`: it appends one character.
#[verifier::external_body]
pub(crate) fn push_char(s: &mut String, c: char)
    ensures
        final(s)@ == old(s)@.push(c),
{
    s.push(c)
}

/// Appends the characters of `t` to `s`.
pub(crate) fn push_chars(s: &mut String, t: &str)
    ensures
        final(s)@ == old(s)@ + t@,
{
    let ghost start = s@;
    let ghost mut n: int = 0;
    for c in it: t.chars()
        invariant
            it.seq() == t@,
            n == it.index(),
            s@ == start + t@.take(n),
    {
        push_char(s, c);
        assert(t@.take(n + 1) =~= t@.take(n).push(c));
        proof {
            n = n + 1;
        }
    }
    assert(t@.take(n) =~= t@);
}

/// The characters of `t`.
pub(crate) fn chars_of(t: &str) -> (r: Vec<char>)
    ensures
        r@ == t@,
{
    let mut v: Vec<char> = Vec::new();
    let ghost mut n: int = 0;
    for c in it: t.chars()
        invariant
            it.seq() == t@,
            n == it.index(),
            v@ == t@.take(n),
    {
        v.push(c);
        assert(t@.take(n + 1) =~= t@.take(n).push(c));
        proof {
            n = n + 1;
        }
    }
    assert(t@.take(n) =~= t@);
    v
}

/// The text made of `v[from..to]`.
pub(crate) fn string_of(v: &Vec<char>, from: usize, to: usize) -> (r: String)
    requires
        from <= to <= v@.len(),
    ensures
        r@ == v@.subrange(from as int, to as int),
{
    let mut s = String::new();
    let mut k = from;
    while k < to
        invariant
            from <= k <= to,
            to <= v@.len(),
            s@ == v@.subrange(from as int, k as int),
        decreases to - k,
    {
        push_char(&mut s, v[k]);
        assert(v@.subrange(from as int, k + 1) =~= v@.subrange(from as int, k as int).push(
            v@[k as int],
        ));
        k = k + 1;
    }
    s
}

} // verus!
