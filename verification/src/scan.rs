//! Searching and comparing bytes: the cursor operations of the parser.

use vstd::prelude::*;

verus! {

/// The first position at or after `from` where `bytes` holds `delim`, or
/// `bytes.len()` where there is none.
pub open spec fn first_index(bytes: Seq<u8>, from: int, delim: u8) -> int
    decreases bytes.len() - from,
{
    if from >= bytes.len() {
        bytes.len() as int
    } else if bytes[from] == delim {
        from
    } else {
        first_index(bytes, from + 1, delim)
    }
}

/// How often `x` occurs in `s`.
pub open spec fn count_of<T>(s: Seq<T>, x: T) -> nat
    decreases s.len(),
{
    if s.len() == 0 {
        0
    } else {
        count_of(s.drop_last(), x) + if s.last() == x {
            1nat
        } else {
            0nat
        }
    }
}

/// Whether `lit` stands in `bytes` at position `pos`.
pub open spec fn has_prefix_at(bytes: Seq<u8>, pos: int, lit: Seq<u8>) -> bool {
    &&& 0 <= pos
    &&& pos + lit.len() <= bytes.len()
    &&& bytes.subrange(pos, pos + lit.len()) == lit
}

/// `first_index` is the least position at or after `from` that holds
/// `delim`.
pub proof fn lemma_first_index(bytes: Seq<u8>, from: int, delim: u8)
    requires
        0 <= from <= bytes.len(),
    ensures
        from <= first_index(bytes, from, delim) <= bytes.len(),
        first_index(bytes, from, delim) < bytes.len() ==> bytes[first_index(bytes, from, delim)]
            == delim,
        forall|i: int| from <= i < first_index(bytes, from, delim) ==> bytes[i] != delim,
    decreases bytes.len() - from,
{
    if from < bytes.len() && bytes[from] != delim {
        lemma_first_index(bytes, from + 1, delim);
    }
}

/// A position that holds `delim`, with none before it from `from` on, is the
/// first index.
pub proof fn lemma_first_index_is(bytes: Seq<u8>, from: int, delim: u8, at: int)
    requires
        0 <= from <= at < bytes.len(),
        bytes[at] == delim,
        forall|i: int| from <= i < at ==> bytes[i] != delim,
    ensures
        first_index(bytes, from, delim) == at,
    decreases at - from,
{
    if from < at {
        lemma_first_index_is(bytes, from + 1, delim, at);
    }
}

/// Where `delim` does not occur from `from` on, the first index is the
/// length.
pub proof fn lemma_first_index_none(bytes: Seq<u8>, from: int, delim: u8)
    requires
        0 <= from <= bytes.len(),
        forall|i: int| from <= i < bytes.len() ==> bytes[i] != delim,
    ensures
        first_index(bytes, from, delim) == bytes.len(),
    decreases bytes.len() - from,
{
    if from < bytes.len() {
        lemma_first_index_none(bytes, from + 1, delim);
    }
}

/// Occurrences add up over a concatenation.
pub proof fn lemma_count_concat<T>(a: Seq<T>, b: Seq<T>, x: T)
    ensures
        count_of(a + b, x) == count_of(a, x) + count_of(b, x),
    decreases b.len(),
{
    if b.len() == 0 {
        assert(a + b =~= a);
    } else {
        assert((a + b).drop_last() =~= a + b.drop_last());
        lemma_count_concat(a, b.drop_last(), x);
    }
}

/// `x` occurs no more often than `s` is long, and not at all exactly where
/// no element of `s` is `x`.
pub proof fn lemma_count_bounds<T>(s: Seq<T>, x: T)
    ensures
        count_of(s, x) <= s.len(),
        count_of(s, x) == 0 <==> forall|i: int| 0 <= i < s.len() ==> s[i] != x,
    decreases s.len(),
{
    if s.len() > 0 {
        lemma_count_bounds(s.drop_last(), x);
        if count_of(s, x) == 0 {
            assert forall|i: int| 0 <= i < s.len() implies s[i] != x by {
                if i < s.len() - 1 {
                    assert(s.drop_last()[i] == s[i]);
                }
            }
        } else if s.last() != x {
            let i = choose|i: int| 0 <= i < s.len() - 1 && s.drop_last()[i] == x;
            assert(s[i] == x);
        }
    }
}

/// Counts the occurrences of `x` in `bytes`.
pub fn count_byte(bytes: &[u8], x: u8) -> (r: usize)
    ensures
        r == count_of(bytes@, x),
{
    let n = bytes.len();
    let mut r: usize = 0;
    let mut i: usize = 0;
    assert(bytes@.take(0) =~= Seq::<u8>::empty());
    while i < n
        invariant
            n == bytes@.len(),
            i <= n,
            r == count_of(bytes@.take(i as int), x),
            r <= i,
        decreases bytes@.len() - i,
    {
        assert(bytes@.take(i + 1).drop_last() =~= bytes@.take(i as int));
        if bytes[i] == x {
            r += 1;
        }
        i += 1;
    }
    assert(bytes@.take(i as int) =~= bytes@);
    r
}

/// Looks for `delim` in `bytes` from position `from` on.
pub fn find_byte(bytes: &[u8], from: usize, delim: u8) -> (r: Option<usize>)
    ensures
        match r {
            Some(i) => from <= i < bytes@.len() && i == first_index(bytes@, from as int, delim),
            None => first_index(bytes@, from as int, delim) == bytes@.len(),
        },
{
    let mut i: usize = from;
    while i < bytes.len()
        invariant
            from <= i,
            first_index(bytes@, from as int, delim) == first_index(bytes@, i as int, delim),
        decreases bytes@.len() - i,
    {
        if bytes[i] == delim {
            return Some(i);
        }
        i += 1;
    }
    None
}

/// Whether two byte strings hold the same bytes.
pub fn bytes_eq(a: &[u8], b: &[u8]) -> (r: bool)
    ensures
        r == (a@ == b@),
{
    if a.len() != b.len() {
        return false;
    }
    let r = starts_with_at(a, 0, b);
    assert(a@.subrange(0, a@.len() as int) =~= a@);
    r
}

/// Whether `lit` stands in `bytes` at position `pos`.
pub fn starts_with_at(bytes: &[u8], pos: usize, lit: &[u8]) -> (r: bool)
    ensures
        r == has_prefix_at(bytes@, pos as int, lit@),
{
    if pos > bytes.len() || lit.len() > bytes.len() - pos {
        return false;
    }
    let mut k: usize = 0;
    while k < lit.len()
        invariant
            pos + lit@.len() <= bytes@.len() <= usize::MAX,
            k <= lit@.len(),
            forall|j: int| 0 <= j < k ==> bytes@[pos + j] == lit@[j],
        decreases lit@.len() - k,
    {
        if bytes[pos + k] != lit[k] {
            assert(bytes@.subrange(pos as int, pos + lit@.len())[k as int] != lit@[k as int]);
            return false;
        }
        k += 1;
    }
    assert(bytes@.subrange(pos as int, pos + lit@.len()) =~= lit@);
    true
}

} // verus!
