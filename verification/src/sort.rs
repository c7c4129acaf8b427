//! Lexicographic ordering and sorting of byte strings, used to put the
//! packet hashes of a batch into their canonical order before hashing.

use vstd::prelude::*;

use crate::bytes::copy_bytes;

verus! {

/// Lexicographic order on byte strings: `a` at or before `b`.
pub open spec fn spec_lex_le(a: Seq<u8>, b: Seq<u8>) -> bool
    decreases a.len(),
{
    if a.len() == 0 {
        true
    } else if b.len() == 0 {
        false
    } else if a[0] < b[0] {
        true
    } else if a[0] > b[0] {
        false
    } else {
        spec_lex_le(a.drop_first(), b.drop_first())
    }
}

fn lex_le_from(a: &Vec<u8>, b: &Vec<u8>, i: usize) -> (r: bool)
    requires
        i <= a@.len(),
        i <= b@.len(),
    ensures
        r == spec_lex_le(a@.skip(i as int), b@.skip(i as int)),
    decreases a@.len() - i,
{
    if i == a.len() {
        return true;
    }
    if i == b.len() {
        return false;
    }
    if a[i] < b[i] {
        return true;
    }
    if a[i] > b[i] {
        return false;
    }
    let r = lex_le_from(a, b, i + 1);
    proof {
        assert(a@.skip(i as int).drop_first() =~= a@.skip(i + 1));
        assert(b@.skip(i as int).drop_first() =~= b@.skip(i + 1));
    }
    r
}

/// Compares two byte strings lexicographically.
pub fn lex_le(a: &Vec<u8>, b: &Vec<u8>) -> (r: bool)
    ensures
        r == spec_lex_le(a@, b@),
{
    let r = lex_le_from(a, b, 0);
    proof {
        assert(a@.skip(0) =~= a@);
        assert(b@.skip(0) =~= b@);
    }
    r
}

/// Where `x` belongs in the already sorted `s`: before the first element it
/// precedes.
pub open spec fn spec_sorted_insert(x: Seq<u8>, s: Seq<Seq<u8>>) -> Seq<Seq<u8>>
    decreases s.len(),
{
    if s.len() == 0 {
        seq![x]
    } else if spec_lex_le(x, s[0]) {
        seq![x] + s
    } else {
        seq![s[0]] + spec_sorted_insert(x, s.drop_first())
    }
}

/// The canonical order of a list of byte strings, built by insertion.
pub open spec fn spec_sort_bytes(s: Seq<Seq<u8>>) -> Seq<Seq<u8>>
    decreases s.len(),
{
    if s.len() == 0 {
        Seq::empty()
    } else {
        spec_sorted_insert(s.last(), spec_sort_bytes(s.drop_last()))
    }
}

proof fn lemma_sorted_insert_at(x: Seq<u8>, s: Seq<Seq<u8>>, j: int)
    requires
        0 <= j <= s.len(),
        forall|k: int| 0 <= k < j ==> !spec_lex_le(x, #[trigger] s[k]),
        j < s.len() ==> spec_lex_le(x, s[j]),
    ensures
        spec_sorted_insert(x, s) =~= s.subrange(0, j) + seq![x] + s.subrange(j, s.len() as int),
    decreases s.len(),
{
    if s.len() == 0 {
    } else if spec_lex_le(x, s[0]) {
        assert(j == 0);
    } else {
        assert(j >= 1);
        let t = s.drop_first();
        assert(forall|k: int| 0 <= k < j - 1 ==> !spec_lex_le(x, #[trigger] t[k]));
        lemma_sorted_insert_at(x, t, j - 1);
        assert(t.subrange(0, j - 1) =~= s.subrange(1, j));
        assert(t.subrange(j - 1, t.len() as int) =~= s.subrange(j, s.len() as int));
        assert(seq![s[0]] + (t.subrange(0, j - 1) + seq![x] + t.subrange(j - 1, t.len() as int))
            =~= s.subrange(0, j) + seq![x] + s.subrange(j, s.len() as int));
    }
}

fn sorted_insert(x: Vec<u8>, s: &mut Vec<Vec<u8>>)
    ensures
        final(s)@.map_values(|v: Vec<u8>| v@) == spec_sorted_insert(
            x@,
            old(s)@.map_values(|v: Vec<u8>| v@),
        ),
{
    let ghost sv = s@.map_values(|v: Vec<u8>| v@);
    let n = s.len();
    let mut j: usize = 0;
    while j < n
        invariant
            n == s@.len(),
            j <= n,
            sv == s@.map_values(|v: Vec<u8>| v@),
            sv == old(s)@.map_values(|v: Vec<u8>| v@),
            forall|k: int| 0 <= k < j ==> !spec_lex_le(x@, #[trigger] sv[k]),
        decreases n - j,
    {
        if lex_le(&x, &s[j]) {
            proof {
                lemma_sorted_insert_at(x@, sv, j as int);
            }
            s.insert(j, x);
            proof {
                assert(s@.map_values(|v: Vec<u8>| v@) =~= sv.subrange(0, j as int) + seq![x@]
                    + sv.subrange(j as int, sv.len() as int));
            }
            return;
        }
        j = j + 1;
    }
    proof {
        lemma_sorted_insert_at(x@, sv, n as int);
    }
    s.push(x);
    proof {
        assert(s@.map_values(|v: Vec<u8>| v@) =~= sv.subrange(0, n as int) + seq![x@]
            + sv.subrange(n as int, sv.len() as int));
    }
}

/// Sorts a list of byte strings into the canonical order.
pub fn sort_bytes(input: Vec<Vec<u8>>) -> (r: Vec<Vec<u8>>)
    ensures
        r@.map_values(|v: Vec<u8>| v@) == spec_sort_bytes(input@.map_values(|v: Vec<u8>| v@)),
{
    let mut acc: Vec<Vec<u8>> = Vec::new();
    let mut rest = input;
    let ghost iv = rest@.map_values(|v: Vec<u8>| v@);
    let mut i: usize = 0;
    let n = rest.len();
    proof {
        assert(acc@.map_values(|v: Vec<u8>| v@) =~= spec_sort_bytes(iv.subrange(0, 0)));
    }
    while i < n
        invariant
            n == rest@.len(),
            i <= n,
            iv == rest@.map_values(|v: Vec<u8>| v@),
            acc@.map_values(|v: Vec<u8>| v@) == spec_sort_bytes(iv.subrange(0, i as int)),
        decreases n - i,
    {
        let ghost acc0 = acc@.map_values(|v: Vec<u8>| v@);
        let x = copy_bytes(&rest[i]);
        sorted_insert(x, &mut acc);
        proof {
            assert(iv.subrange(0, i + 1).drop_last() =~= iv.subrange(0, i as int));
            assert(iv.subrange(0, i + 1).last() == iv[i as int]);
        }
        i = i + 1;
    }
    proof {
        assert(iv.subrange(0, n as int) =~= iv);
    }
    acc
}

} // verus!
