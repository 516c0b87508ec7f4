//! Stable ordering of game indices by a text column.
use vstd::prelude::*;

use core::cmp::Ordering;

verus! {

/// Lexicographic order of character sequences: -1, 0 or 1 as `a` sorts
/// before, equal to, or after `b` (the order of `String::cmp`, since UTF-8
/// preserves code point order).
pub open spec fn lex_order(a: Seq<char>, b: Seq<char>) -> int
    decreases a.len(),
{
    if a.len() == 0 && b.len() == 0 {
        0
    } else if a.len() == 0 {
        -1
    } else if b.len() == 0 {
        1
    } else if (a[0] as u32) < (b[0] as u32) {
        -1
    } else if (a[0] as u32) > (b[0] as u32) {
        1
    } else {
        lex_order(a.subrange(1, a.len() as int), b.subrange(1, b.len() as int))
    }
}

/// `a` sorts no later than `b`.
pub open spec fn lex_le(a: Seq<char>, b: Seq<char>) -> bool {
    lex_order(a, b) <= 0
}

/// The order between two keys in the requested direction.
pub open spec fn directed_order(a: Seq<char>, b: Seq<char>, ascending: bool) -> int {
    if ascending {
        lex_order(a, b)
    } else {
        lex_order(b, a)
    }
}

/// `s` is sorted by the keys of its entries in the requested direction.
pub open spec fn sorted_by_keys(s: Seq<usize>, keys: Seq<Vec<char>>, ascending: bool) -> bool {
    forall|i: int, j: int|
        0 <= i < j < s.len() ==> directed_order(
            keys[#[trigger] s[i] as int]@,
            keys[#[trigger] s[j] as int]@,
            ascending,
        ) <= 0
}

/// Entries with equal keys keep the relative order they had in `input`.
pub open spec fn stable_wrt(input: Seq<usize>, s: Seq<usize>, keys: Seq<Vec<char>>) -> bool {
    forall|i: int, j: int|
        0 <= i < j < s.len() && keys[#[trigger] s[i] as int]@ == keys[#[trigger] s[j] as int]@
            ==> input.index_of(s[i]) < input.index_of(s[j])
}

/// The order of two keys as an `Ordering`, reversed for a descending sort.
pub fn order_for_sort(a: &Vec<char>, b: &Vec<char>, ascending: bool) -> (r: Ordering)
    ensures
        (r == Ordering::Less) == (directed_order(a@, b@, ascending) < 0),
        (r == Ordering::Equal) == (directed_order(a@, b@, ascending) == 0),
        (r == Ordering::Greater) == (directed_order(a@, b@, ascending) > 0),
{
    let o = if ascending {
        lex_compare(a, b)
    } else {
        lex_compare(b, a)
    };
    if o < 0 {
        Ordering::Less
    } else if o == 0 {
        Ordering::Equal
    } else {
        Ordering::Greater
    }
}

/// Lexicographic comparison of two character vectors.
pub fn lex_compare(a: &Vec<char>, b: &Vec<char>) -> (r: i8)
    ensures
        r == lex_order(a@, b@),
{
    let mut i: usize = 0;
    assert(a@.subrange(0, a.len() as int) =~= a@);
    assert(b@.subrange(0, b.len() as int) =~= b@);
    while i < a.len() && i < b.len()
        invariant
            i <= a.len(),
            i <= b.len(),
            lex_order(a@, b@) == lex_order(
                a@.subrange(i as int, a.len() as int),
                b@.subrange(i as int, b.len() as int),
            ),
        decreases a.len() - i,
    {
        let ca = a[i] as u32;
        let cb = b[i] as u32;
        let ghost sa = a@.subrange(i as int, a.len() as int);
        let ghost sb = b@.subrange(i as int, b.len() as int);
        assert(sa[0] == a@[i as int]);
        assert(sb[0] == b@[i as int]);
        if ca < cb {
            return -1;
        }
        if ca > cb {
            return 1;
        }
        assert(sa.subrange(1, sa.len() as int) =~= a@.subrange(i + 1, a.len() as int));
        assert(sb.subrange(1, sb.len() as int) =~= b@.subrange(i + 1, b.len() as int));
        i = i + 1;
    }
    if a.len() == b.len() {
        0
    } else if i == a.len() {
        -1
    } else {
        1
    }
}

/// `slice::sort_by` with the key order above: the result is a permutation of
/// the input, sorted by the keys in the requested direction, and entries with
/// equal keys keep their input order (`sort_by` is documented as stable).
#[verifier::external_body]
pub(crate) fn stable_sort_by_keys(indices: &mut Vec<usize>, keys: &Vec<Vec<char>>, ascending: bool)
    requires
        forall|i: int| 0 <= i < old(indices)@.len() ==> #[trigger] old(indices)@[i] < keys@.len(),
    ensures
        final(indices)@.to_multiset() == old(indices)@.to_multiset(),
        sorted_by_keys(final(indices)@, keys@, ascending),
        old(indices)@.no_duplicates() ==> stable_wrt(old(indices)@, final(indices)@, keys@),
{
    indices.sort_by(|&a, &b| order_for_sort(&keys[a], &keys[b], ascending));
}

} // verus!
