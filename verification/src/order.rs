//! Canonical ordering of header lists.
//!
//! Header mappings carry no inherent iteration order, so the protocol fixes
//! one: header pairs are sorted ascending by the UTF-8 bytes of the name,
//! then of the value.  Signer and verifier apply the same rule, so equal
//! header sets always produce equal encodings.

use vstd::prelude::*;
use vstd::relations::{sorted_by, total_ordering};
use vstd::seq_lib::lemma_sorted_unique;
use vstd::multiset::Multiset;
use vstd::utf8::*;

verus! {

/// A header pair at the specification level: the name and value as
/// character strings.
pub type HeaderPairV = (Seq<char>, Seq<char>);

/// Lexicographic order on byte strings.
pub open spec fn lex_le(a: Seq<u8>, b: Seq<u8>) -> bool
    decreases a.len(),
{
    if a.len() == 0 {
        true
    } else if b.len() == 0 {
        false
    } else if a[0] < b[0] {
        true
    } else if a[0] > b[0] {
        false
    } else {
        lex_le(a.skip(1), b.skip(1))
    }
}

/// The canonical order on header pairs: by name bytes, then value bytes.
pub open spec fn header_le(a: HeaderPairV, b: HeaderPairV) -> bool {
    if encode_utf8(a.0) == encode_utf8(b.0) {
        lex_le(encode_utf8(a.1), encode_utf8(b.1))
    } else {
        lex_le(encode_utf8(a.0), encode_utf8(b.0))
    }
}

/// The canonical order as a relation value, for `sort_by`.
pub open spec fn header_order() -> spec_fn(HeaderPairV, HeaderPairV) -> bool {
    |a: HeaderPairV, b: HeaderPairV| header_le(a, b)
}

/// The canonical form of a header list: its pairs in ascending order.
pub open spec fn canon_headers(hs: Seq<HeaderPairV>) -> Seq<HeaderPairV> {
    hs.sort_by(header_order())
}

pub proof fn lemma_lex_le_total(a: Seq<u8>, b: Seq<u8>)
    ensures
        lex_le(a, b) || lex_le(b, a),
        lex_le(a, b) && lex_le(b, a) ==> a == b,
        lex_le(a, a),
    decreases a.len(),
{
    if a.len() == 0 || b.len() == 0 {
        if lex_le(a, b) && lex_le(b, a) {
            assert(a =~= b);
        }
    } else {
        lemma_lex_le_total(a.skip(1), b.skip(1));
        if lex_le(a, b) && lex_le(b, a) {
            assert(a =~= seq![a[0]] + a.skip(1));
            assert(b =~= seq![b[0]] + b.skip(1));
        }
    }
    if a.len() > 0 {
        lemma_lex_le_total(a.skip(1), a.skip(1));
    }
}

pub proof fn lemma_lex_le_trans(a: Seq<u8>, b: Seq<u8>, c: Seq<u8>)
    requires
        lex_le(a, b),
        lex_le(b, c),
    ensures
        lex_le(a, c),
    decreases a.len(),
{
    if a.len() == 0 || b.len() == 0 || c.len() == 0 {
    } else {
        if a[0] == b[0] && b[0] == c[0] {
            lemma_lex_le_trans(a.skip(1), b.skip(1), c.skip(1));
        }
    }
}

/// The canonical order on header pairs is a total ordering.
pub proof fn lemma_header_order_total()
    ensures
        total_ordering(header_order()),
{
    let leq = header_order();
    assert forall|a: HeaderPairV| #[trigger] leq(a, a) by {
        lemma_lex_le_total(encode_utf8(a.0), encode_utf8(a.0));
        lemma_lex_le_total(encode_utf8(a.1), encode_utf8(a.1));
    }
    assert forall|a: HeaderPairV, b: HeaderPairV| #[trigger] leq(a, b) && #[trigger] leq(b, a)
        implies a == b by {
        lemma_lex_le_total(encode_utf8(a.0), encode_utf8(b.0));
        lemma_lex_le_total(encode_utf8(a.1), encode_utf8(b.1));
        broadcast use encode_utf8_decode_utf8;

        assert(a.0 == decode_utf8(encode_utf8(a.0)));
        assert(a.1 == decode_utf8(encode_utf8(a.1)));
        assert(a == (a.0, a.1));
        assert(b == (b.0, b.1));
    }
    assert forall|a: HeaderPairV, b: HeaderPairV, c: HeaderPairV|
        #[trigger] leq(a, b) && #[trigger] leq(b, c) implies leq(a, c) by {
        let ka = encode_utf8(a.0);
        let kb = encode_utf8(b.0);
        let kc = encode_utf8(c.0);
        if ka == kb && kb == kc {
            lemma_lex_le_trans(encode_utf8(a.1), encode_utf8(b.1), encode_utf8(c.1));
        } else if ka == kb {
            assert(lex_le(kb, kc));
            assert(lex_le(ka, kc));
        } else if kb == kc {
            assert(lex_le(ka, kb));
        } else {
            lemma_lex_le_trans(ka, kb, kc);
            if ka == kc {
                lemma_lex_le_total(ka, kb);
            }
        }
    }
    assert forall|a: HeaderPairV, b: HeaderPairV| !(#[trigger] leq(a, b)) implies leq(b, a) by {
        lemma_lex_le_total(encode_utf8(a.0), encode_utf8(b.0));
        lemma_lex_le_total(encode_utf8(a.1), encode_utf8(b.1));
    }
}

/// Compares two byte slices lexicographically.
fn bytes_le(a: &[u8], b: &[u8]) -> (r: bool)
    ensures
        r == lex_le(a@, b@),
{
    let mut i: usize = 0;
    proof {
        assert(a@.skip(0) =~= a@);
        assert(b@.skip(0) =~= b@);
        assert(a@.take(0) =~= b@.take(0));
    }
    loop
        invariant
            i <= a@.len(),
            i <= b@.len(),
            a@.take(i as int) == b@.take(i as int),
            lex_le(a@, b@) == lex_le(a@.skip(i as int), b@.skip(i as int)),
        decreases a@.len() - i,
    {
        if i >= a.len() {
            return true;
        }
        if i >= b.len() {
            return false;
        }
        let x = a[i];
        let y = b[i];
        if x < y {
            return true;
        }
        if x > y {
            return false;
        }
        proof {
            assert(a@.skip(i as int).skip(1) =~= a@.skip(i + 1));
            assert(b@.skip(i as int).skip(1) =~= b@.skip(i + 1));
            assert(a@.take(i + 1) =~= a@.take(i as int).push(x));
            assert(b@.take(i + 1) =~= b@.take(i as int).push(y));
        }
        i = i + 1;
    }
}

/// Compares two header pairs in the canonical order.
fn header_pair_le(a: &(String, String), b: &(String, String)) -> (r: bool)
    ensures
        r == header_le(a.deep_view(), b.deep_view()),
{
    let ka = a.0.as_str().as_bytes();
    let kb = b.0.as_str().as_bytes();
    let key_eq = bytes_equal(ka, kb);
    if key_eq {
        bytes_le(a.1.as_str().as_bytes(), b.1.as_str().as_bytes())
    } else {
        bytes_le(ka, kb)
    }
}

/// Byte-string equality.
pub(crate) fn bytes_equal(a: &[u8], b: &[u8]) -> (r: bool)
    ensures
        r == (a@ == b@),
{
    if a.len() != b.len() {
        return false;
    }
    let mut i: usize = 0;
    while i < a.len()
        invariant
            i <= a@.len(),
            a@.len() == b@.len(),
            forall|j: int| 0 <= j < i ==> a@[j] == b@[j],
        decreases a@.len() - i,
    {
        if a[i] != b[i] {
            return false;
        }
        i = i + 1;
    }
    proof {
        assert(a@ =~= b@);
    }
    true
}

/// Sorts a header list into the canonical order.
///
/// The result is the canonical form of the input: ascending by name bytes,
/// then value bytes, holding exactly the input's pairs.
pub fn sort_headers(hs: &Vec<(String, String)>) -> (r: Vec<(String, String)>)
    ensures
        r.deep_view() == canon_headers(hs.deep_view()),
{
    proof {
        lemma_header_order_total();
    }
    let mut r: Vec<(String, String)> = Vec::new();
    let mut i: usize = 0;
    proof {
        assert(r.deep_view() =~= Seq::<HeaderPairV>::empty());
        assert(hs.deep_view().take(0) =~= Seq::<HeaderPairV>::empty());
    }
    while i < hs.len()
        invariant
            i <= hs@.len(),
            r.deep_view().to_multiset() == hs.deep_view().take(i as int).to_multiset(),
            sorted_by(r.deep_view(), header_order()),
        decreases hs@.len() - i,
    {
        let pair = (hs[i].0.clone(), hs[i].1.clone());
        proof {
            assert(pair.deep_view() == hs.deep_view()[i as int]);
        }
        insert_sorted(&mut r, pair);
        proof {
            broadcast use vstd::seq_lib::group_to_multiset_ensures;

            assert(hs.deep_view().take(i + 1) =~= hs.deep_view().take(i as int).push(
                hs.deep_view()[i as int],
            ));
        }
        i = i + 1;
    }
    proof {
        assert(hs.deep_view().take(hs@.len() as int) =~= hs.deep_view());
        hs.deep_view().lemma_sort_by_ensures(header_order());
        lemma_sorted_unique(r.deep_view(), canon_headers(hs.deep_view()), header_order());
    }
    r
}

/// Inserts a pair into a canonically sorted list, keeping it sorted.
fn insert_sorted(r: &mut Vec<(String, String)>, pair: (String, String))
    requires
        sorted_by(old(r).deep_view(), header_order()),
    ensures
        sorted_by(final(r).deep_view(), header_order()),
        final(r).deep_view().to_multiset() == old(r).deep_view().to_multiset().insert(
            pair.deep_view(),
        ),
{
    proof {
        lemma_header_order_total();
    }
    let mut j: usize = 0;
    while j < r.len() && header_pair_le(&r[j], &pair)
        invariant
            j <= r@.len(),
            r == old(r),
            sorted_by(r.deep_view(), header_order()),
            forall|k: int| 0 <= k < j ==> header_order()(r.deep_view()[k], pair.deep_view()),
        decreases r@.len() - j,
    {
        j = j + 1;
    }
    let ghost before = r.deep_view();
    let ghost pv = pair.deep_view();
    let ghost jj = j as int;
    r.insert(j, pair);
    proof {
        let after = r.deep_view();
        assert(after =~= before.take(jj) + seq![pv] + before.skip(jj));
        assert(after =~= before.insert(jj, pv));
        // sortedness
        if jj < before.len() {
            assert(!header_order()(before[jj], pv));
            assert(header_order()(pv, before[jj]));
        }
        assert forall|x: int, y: int| 0 <= x < y < after.len() implies header_order()(
            after[x],
            after[y],
        ) by {
            if x < jj && y < jj {
                assert(after[x] == before[x] && after[y] == before[y]);
            } else if x < jj && y == jj {
                assert(after[x] == before[x]);
                assert(header_order()(before[x], pv));
            } else if x < jj && y > jj {
                assert(after[x] == before[x] && after[y] == before[y - 1]);
            } else if x == jj && y > jj {
                assert(after[y] == before[y - 1]);
                assert(header_order()(pv, before[jj]));
                if y - 1 > jj {
                    assert(header_order()(before[jj], before[y - 1]));
                }
            } else {
                assert(after[x] == before[x - 1] && after[y] == before[y - 1]);
            }
        }
        // multiset
        broadcast use vstd::seq_lib::group_to_multiset_ensures;
        vstd::seq_lib::lemma_multiset_commutative(before.take(jj) + seq![pv], before.skip(jj));
        vstd::seq_lib::lemma_multiset_commutative(before.take(jj), seq![pv]);
        vstd::seq_lib::lemma_multiset_commutative(before.take(jj), before.skip(jj));
        assert(before.take(jj) + before.skip(jj) =~= before);
        assert(seq![pv].to_multiset() =~= Multiset::empty().insert(pv)) by {
            assert(seq![pv] =~= Seq::empty().push(pv));
        }
        assert(after.to_multiset() =~= before.to_multiset().insert(pv));
    }
}

/// Keeps, in order, the pairs whose name is among the given names.
pub open spec fn keep_disclosed(obs: Seq<HeaderPairV>, names: Seq<Seq<char>>) -> Seq<HeaderPairV> {
    obs.filter(|p: HeaderPairV| names.contains(p.0))
}

/// Filters observed response headers down to the disclosed names.
///
/// A pair survives exactly when its name is listed in `names` (case-sensitive
/// match); everything else is dropped and never reaches the encoder.
pub fn filter_headers(obs: &Vec<(String, String)>, names: &Vec<String>) -> (r: Vec<
    (String, String),
>)
    ensures
        r.deep_view() == keep_disclosed(obs.deep_view(), names.deep_view()),
{
    let mut r: Vec<(String, String)> = Vec::new();
    let mut i: usize = 0;
    proof {
        reveal(Seq::filter);
        assert(obs.deep_view().take(0) =~= Seq::<HeaderPairV>::empty());
    }
    while i < obs.len()
        invariant
            i <= obs@.len(),
            r.deep_view() == keep_disclosed(obs.deep_view().take(i as int), names.deep_view()),
        decreases obs@.len() - i,
    {
        let keep = contains_name(names, &obs[i].0);
        if keep {
            r.push((obs[i].0.clone(), obs[i].1.clone()));
        }
        proof {
            reveal(Seq::filter);
            let prefix = obs.deep_view().take(i as int);
            let full = obs.deep_view().take(i + 1);
            assert(full =~= prefix.push(obs.deep_view()[i as int]));
            assert(full.drop_last() =~= prefix);
        }
        i = i + 1;
    }
    proof {
        assert(obs.deep_view().take(obs@.len() as int) =~= obs.deep_view());
    }
    r
}

/// Whether a name occurs in the list, by exact character match.
fn contains_name(names: &Vec<String>, name: &String) -> (r: bool)
    ensures
        r == names.deep_view().contains(name@),
{
    let mut i: usize = 0;
    while i < names.len()
        invariant
            i <= names@.len(),
            forall|j: int| 0 <= j < i ==> names.deep_view()[j] != name@,
        decreases names@.len() - i,
    {
        if names[i] == *name {
            proof {
                assert(names.deep_view()[i as int] == name@);
            }
            return true;
        }
        i = i + 1;
    }
    false
}

} // verus!
