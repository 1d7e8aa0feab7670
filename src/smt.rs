use vstd::prelude::*;
use vstd::slice::slice_to_vec;
use crate::bytes::{
    lemma_lex_asymmetric, lemma_lex_irreflexive, lemma_lex_total, lemma_lex_transitive, lex_less,
    lex_lt,
};
use crate::codec::{field_bytes, push_field};
use crate::types::{blake3_hash, blake3_of, zero_digest, ChainError};

verus! {

/// A key/value pair of the store, as byte strings.
pub type Entry = (Seq<u8>, Seq<u8>);

/// Whether some entry of `e` has key `k`.
pub open spec fn has_key(e: Seq<Entry>, k: Seq<u8>) -> bool {
    exists|i: int| 0 <= i < e.len() && (#[trigger] e[i]).0 == k
}

/// Keys strictly increase along `e` (so no key occurs twice).
pub open spec fn keys_sorted(e: Seq<Entry>) -> bool {
    forall|i: int, j: int| 0 <= i < j < e.len() ==> lex_lt((#[trigger] e[i]).0, (#[trigger] e[j]).0)
}

/// The key/value map that a list of entries holds.
pub open spec fn contents_of(e: Seq<Entry>) -> Map<Seq<u8>, Seq<u8>> {
    Map::new(
        |k: Seq<u8>| has_key(e, k),
        |k: Seq<u8>| e[choose|i: int| 0 <= i < e.len() && (#[trigger] e[i]).0 == k].1,
    )
}

/// Every key and then its value, each framed with its length, entry after
/// entry.
pub open spec fn flatten(e: Seq<Entry>) -> Seq<u8>
    decreases e.len(),
{
    if e.len() == 0 {
        Seq::empty()
    } else {
        flatten(e.drop_last()) + field_bytes(e.last().0) + field_bytes(e.last().1)
    }
}

/// The entries of `m` in increasing key order.
pub open spec fn sorted_entries(m: Map<Seq<u8>, Seq<u8>>) -> Seq<Entry> {
    choose|e: Seq<Entry>| keys_sorted(e) && contents_of(e) == m
}

/// The root digest of the contents `m`: zero while the store is empty,
/// otherwise the BLAKE3 digest of every key and then its value, each preceded
/// by its length in eight bytes, in increasing key order. The length framing
/// keeps a boundary shift between a key and its value (`"a" -> "bc"` against
/// `"ab" -> "c"`) from giving the same bytes.
pub open spec fn root_of(m: Map<Seq<u8>, Seq<u8>>) -> Seq<u8> {
    if m == Map::<Seq<u8>, Seq<u8>>::empty() {
        zero_digest()
    } else {
        blake3_of(flatten(sorted_entries(m)))
    }
}

proof fn lemma_value_at(e: Seq<Entry>, i: int)
    requires
        keys_sorted(e),
        0 <= i < e.len(),
    ensures
        contents_of(e).dom().contains(e[i].0),
        contents_of(e)[e[i].0] == e[i].1,
{
    assert(has_key(e, e[i].0));
    let j = choose|j: int| 0 <= j < e.len() && (#[trigger] e[j]).0 == e[i].0;
    if j < i {
        lemma_lex_irreflexive(e[i].0);
    } else if i < j {
        lemma_lex_irreflexive(e[i].0);
    }
}

proof fn lemma_keys_unique(e1: Seq<Entry>, e2: Seq<Entry>)
    requires
        keys_sorted(e1),
        keys_sorted(e2),
        forall|k: Seq<u8>| has_key(e1, k) == has_key(e2, k),
    ensures
        e1.len() == e2.len(),
        forall|i: int| 0 <= i < e1.len() ==> (#[trigger] e1[i]).0 == e2[i].0,
    decreases e1.len(),
{
    if e1.len() == 0 {
        if e2.len() > 0 {
            assert(has_key(e2, e2[0].0));
        }
    } else {
        assert(has_key(e1, e1[0].0));
        assert(e2.len() > 0);
        let a = e1[0].0;
        let b = e2[0].0;
        assert(has_key(e2, a));
        assert(has_key(e1, b));
        let j = choose|j: int| 0 <= j < e2.len() && (#[trigger] e2[j]).0 == a;
        let i = choose|i: int| 0 <= i < e1.len() && (#[trigger] e1[i]).0 == b;
        if j > 0 && i > 0 {
            lemma_lex_asymmetric(a, b);
        }
        if j > 0 && i == 0 {
            lemma_lex_irreflexive(a);
        }
        assert(a == b);
        let t1 = e1.drop_first();
        let t2 = e2.drop_first();
        assert forall|k: Seq<u8>| has_key(t1, k) == has_key(t2, k) by {
            if has_key(t1, k) {
                let x = choose|x: int| 0 <= x < t1.len() && (#[trigger] t1[x]).0 == k;
                assert(e1[x + 1] == t1[x]);
                assert(has_key(e1, k));
                let y = choose|y: int| 0 <= y < e2.len() && (#[trigger] e2[y]).0 == k;
                if y == 0 {
                    assert(lex_lt(e1[0].0, e1[x + 1].0));
                    lemma_lex_irreflexive(a);
                }
                assert(t2[y - 1] == e2[y]);
            }
            if has_key(t2, k) {
                let x = choose|x: int| 0 <= x < t2.len() && (#[trigger] t2[x]).0 == k;
                assert(e2[x + 1] == t2[x]);
                assert(has_key(e2, k));
                let y = choose|y: int| 0 <= y < e1.len() && (#[trigger] e1[y]).0 == k;
                if y == 0 {
                    assert(lex_lt(e2[0].0, e2[x + 1].0));
                    lemma_lex_irreflexive(a);
                }
                assert(t1[y - 1] == e1[y]);
            }
        }
        assert(keys_sorted(t1)) by {
            assert forall|p: int, q: int| 0 <= p < q < t1.len() implies lex_lt(
                (#[trigger] t1[p]).0,
                (#[trigger] t1[q]).0,
            ) by {
                assert(t1[p] == e1[p + 1] && t1[q] == e1[q + 1]);
            }
        }
        assert(keys_sorted(t2)) by {
            assert forall|p: int, q: int| 0 <= p < q < t2.len() implies lex_lt(
                (#[trigger] t2[p]).0,
                (#[trigger] t2[q]).0,
            ) by {
                assert(t2[p] == e2[p + 1] && t2[q] == e2[q + 1]);
            }
        }
        lemma_keys_unique(t1, t2);
        assert forall|i: int| 0 <= i < e1.len() implies (#[trigger] e1[i]).0 == e2[i].0 by {
            if i > 0 {
                assert(e1[i] == t1[i - 1] && e2[i] == t2[i - 1]);
            }
        }
    }
}

/// Two key-sorted entry lists that hold the same map are the same list.
proof fn lemma_entries_unique(e1: Seq<Entry>, e2: Seq<Entry>)
    requires
        keys_sorted(e1),
        keys_sorted(e2),
        contents_of(e1) == contents_of(e2),
    ensures
        e1 == e2,
{
    assert forall|k: Seq<u8>| has_key(e1, k) == has_key(e2, k) by {
        assert(contents_of(e1).dom().contains(k) == has_key(e1, k));
        assert(contents_of(e2).dom().contains(k) == has_key(e2, k));
    }
    lemma_keys_unique(e1, e2);
    assert forall|i: int| 0 <= i < e1.len() implies e1[i] == e2[i] by {
        assert(e1[i].0 == e2[i].0);
        lemma_value_at(e1, i);
        lemma_value_at(e2, i);
    }
    assert(e1 =~= e2);
}

proof fn lemma_root_of_entries(e: Seq<Entry>)
    requires
        keys_sorted(e),
    ensures
        sorted_entries(contents_of(e)) == e,
        e.len() == 0 ==> root_of(contents_of(e)) == zero_digest(),
        e.len() > 0 ==> root_of(contents_of(e)) == blake3_of(flatten(e)),
{
    let c = sorted_entries(contents_of(e));
    assert(keys_sorted(c) && contents_of(c) == contents_of(e));
    lemma_entries_unique(c, e);
    if e.len() == 0 {
        assert(contents_of(e) =~= Map::<Seq<u8>, Seq<u8>>::empty());
    } else {
        lemma_value_at(e, 0);
        assert(!Map::<Seq<u8>, Seq<u8>>::empty().dom().contains(e[0].0));
    }
}

proof fn lemma_replace(e: Seq<Entry>, i: int, v: Seq<u8>)
    requires
        keys_sorted(e),
        0 <= i < e.len(),
    ensures
        keys_sorted(e.update(i, (e[i].0, v))),
        contents_of(e.update(i, (e[i].0, v))) == contents_of(e).insert(e[i].0, v),
{
    let k = e[i].0;
    let n = e.update(i, (k, v));
    assert(keys_sorted(n)) by {
        assert forall|p: int, q: int| 0 <= p < q < n.len() implies lex_lt(
            (#[trigger] n[p]).0,
            (#[trigger] n[q]).0,
        ) by {
            assert(n[p].0 == e[p].0 && n[q].0 == e[q].0);
        }
    }
    let m = contents_of(e).insert(k, v);
    lemma_value_at(e, i);
    assert forall|x: Seq<u8>| #[trigger] contents_of(n).dom().contains(x) == m.dom().contains(x) by {
        if has_key(n, x) {
            let j = choose|j: int| 0 <= j < n.len() && (#[trigger] n[j]).0 == x;
            assert(e[j].0 == x);
            assert(has_key(e, x));
        }
        if has_key(e, x) {
            let j = choose|j: int| 0 <= j < e.len() && (#[trigger] e[j]).0 == x;
            assert(n[j].0 == x);
        }
        if x == k {
            assert(n[i].0 == x);
        }
    }
    assert forall|x: Seq<u8>| #[trigger] contents_of(n).dom().contains(x) implies contents_of(n)[x]
        == m[x] by {
        let j = choose|j: int| 0 <= j < n.len() && (#[trigger] n[j]).0 == x;
        lemma_value_at(n, j);
        if j != i {
            assert(n[j] == e[j]);
            lemma_value_at(e, j);
            lemma_lex_irreflexive(x);
            assert(x != k);
        }
    }
    assert(contents_of(n) =~= m);
}

proof fn lemma_insert(e: Seq<Entry>, i: int, k: Seq<u8>, v: Seq<u8>)
    requires
        keys_sorted(e),
        0 <= i <= e.len(),
        forall|j: int| 0 <= j < i ==> lex_lt((#[trigger] e[j]).0, k),
        forall|j: int| i <= j < e.len() ==> lex_lt(k, (#[trigger] e[j]).0),
    ensures
        keys_sorted(e.insert(i, (k, v))),
        contents_of(e.insert(i, (k, v))) == contents_of(e).insert(k, v),
{
    let n = e.insert(i, (k, v));
    assert forall|j: int| 0 <= j < n.len() && j != i implies (#[trigger] n[j]) == (if j < i {
        e[j]
    } else {
        e[j - 1]
    }) by {}
    assert(keys_sorted(n)) by {
        assert forall|p: int, q: int| 0 <= p < q < n.len() implies lex_lt(
            (#[trigger] n[p]).0,
            (#[trigger] n[q]).0,
        ) by {
            if p == i {
                assert(n[q] == e[q - 1]);
            } else if q == i {
                assert(n[p] == e[p]);
            } else if q < i {
                assert(n[p] == e[p] && n[q] == e[q]);
            } else if p > i {
                assert(n[p] == e[p - 1] && n[q] == e[q - 1]);
            } else {
                assert(n[p] == e[p] && n[q] == e[q - 1]);
            }
        }
    }
    let m = contents_of(e).insert(k, v);
    assert forall|x: Seq<u8>| #[trigger] contents_of(n).dom().contains(x) == m.dom().contains(x) by {
        if has_key(n, x) {
            let j = choose|j: int| 0 <= j < n.len() && (#[trigger] n[j]).0 == x;
            if j < i {
                assert(e[j].0 == x);
            } else if j > i {
                assert(e[j - 1].0 == x);
            }
        }
        if has_key(e, x) {
            let j = choose|j: int| 0 <= j < e.len() && (#[trigger] e[j]).0 == x;
            if j < i {
                assert(n[j].0 == x);
            } else {
                assert(n[j + 1].0 == x);
            }
        }
        if x == k {
            assert(n[i].0 == x);
        }
    }
    assert forall|x: Seq<u8>| #[trigger] contents_of(n).dom().contains(x) implies contents_of(n)[x]
        == m[x] by {
        let j = choose|j: int| 0 <= j < n.len() && (#[trigger] n[j]).0 == x;
        lemma_value_at(n, j);
        if j < i {
            lemma_value_at(e, j);
            lemma_lex_irreflexive(k);
        } else if j > i {
            lemma_value_at(e, j - 1);
            lemma_lex_irreflexive(k);
        }
    }
    assert(contents_of(n) =~= m);
}

/// An authenticated key/value store: byte strings to byte strings, with a
/// root digest computed from the whole contents.
pub trait SparseMerkle: Sized {
    /// The key/value map the store holds.
    spec fn contents(&self) -> Map<Seq<u8>, Seq<u8>>;

    /// The store's internal invariant.
    spec fn wf(&self) -> bool;

    /// The root digest of the current contents.
    fn get_root(&self) -> (r: crate::types::Hash)
        requires
            self.wf(),
        ensures
            r@ == root_of(self.contents()),
    ;

    /// The value stored under `key`, if any.
    fn get(&self, key: &[u8]) -> (r: Result<Option<Vec<u8>>, ChainError>)
        requires
            self.wf(),
        ensures
            match r {
                Ok(Some(v)) => self.contents().contains_key(key@) && v@ == self.contents()[key@],
                Ok(None) => !self.contents().contains_key(key@),
                Err(_) => false,
            },
    ;

    /// Stores `value` under `key`, replacing any earlier value, and
    /// recomputes the root.
    fn put(&mut self, key: &[u8], value: &[u8]) -> (r: Result<(), ChainError>)
        requires
            old(self).wf(),
        ensures
            final(self).wf(),
            r is Ok,
            final(self).contents() == old(self).contents().insert(key@, value@),
    ;
}

/// The straightforward store: entries kept sorted by key, and the root
/// recomputed over all of them after each write.
pub struct NaiveSparseMerkle {
    entries: Vec<(Vec<u8>, Vec<u8>)>,
    root: crate::types::Hash,
}

impl NaiveSparseMerkle {
    spec fn entries_view(&self) -> Seq<Entry> {
        self.entries@.map_values(|p: (Vec<u8>, Vec<u8>)| (p.0@, p.1@))
    }

    fn recompute_root(&mut self)
        requires
            keys_sorted(old(self).entries_view()),
            old(self).entries@.len() > 0,
        ensures
            final(self).entries == old(self).entries,
            final(self).wf(),
    {
        let ghost e = self.entries_view();
        let mut bytes: Vec<u8> = Vec::new();
        let mut i: usize = 0;
        assert(e.take(0) =~= Seq::<Entry>::empty());
        while i < self.entries.len()
            invariant
                self.entries == old(self).entries,
                e == self.entries_view(),
                i <= e.len(),
                bytes@ == flatten(e.take(i as int)),
            decreases self.entries.len() - i,
        {
            push_field(&mut bytes, self.entries[i].0.as_slice());
            push_field(&mut bytes, self.entries[i].1.as_slice());
            proof {
                assert(e.take(i + 1).drop_last() =~= e.take(i as int));
                assert(e[i as int] == (self.entries@[i as int].0@, self.entries@[i as int].1@));
            }
            i += 1;
        }
        assert(e.take(e.len() as int) =~= e);
        self.root = blake3_hash(bytes.as_slice());
        proof {
            lemma_root_of_entries(e);
        }
    }
}

impl Default for NaiveSparseMerkle {
    fn default() -> (r: Self)
        ensures
            r.wf(),
            r.contents() == Map::<Seq<u8>, Seq<u8>>::empty(),
    {
        let r = NaiveSparseMerkle { entries: Vec::new(), root: crate::types::Hash::zero() };
        proof {
            assert(r.entries_view() =~= Seq::<Entry>::empty());
            lemma_root_of_entries(r.entries_view());
        }
        r
    }
}

impl SparseMerkle for NaiveSparseMerkle {
    closed spec fn contents(&self) -> Map<Seq<u8>, Seq<u8>> {
        contents_of(self.entries_view())
    }

    closed spec fn wf(&self) -> bool {
        keys_sorted(self.entries_view()) && self.root@ == root_of(self.contents())
    }

    fn get_root(&self) -> (r: crate::types::Hash) {
        self.root
    }

    fn get(&self, key: &[u8]) -> (r: Result<Option<Vec<u8>>, ChainError>) {
        let ghost e = self.entries_view();
        let mut i: usize = 0;
        while i < self.entries.len()
            invariant
                e == self.entries_view(),
                keys_sorted(e),
                i <= e.len(),
                forall|j: int| 0 <= j < i ==> (#[trigger] e[j]).0 != key@,
            decreases self.entries.len() - i,
        {
            let k = self.entries[i].0.as_slice();
            if !lex_less(k, key) && !lex_less(key, k) {
                proof {
                    lemma_lex_total(e[i as int].0, key@);
                    lemma_value_at(e, i as int);
                }
                return Ok(Some(slice_to_vec(self.entries[i].1.as_slice())));
            }
            proof {
                lemma_lex_irreflexive(key@);
            }
            i += 1;
        }
        Ok(None)
    }

    fn put(&mut self, key: &[u8], value: &[u8]) -> (r: Result<(), ChainError>) {
        let ghost e = self.entries_view();
        let n = self.entries.len();
        let mut i: usize = 0;
        while i < n
            invariant
                n == self.entries@.len(),
                e == self.entries_view(),
                *self == *old(self),
                i <= n,
                forall|j: int| 0 <= j < i ==> lex_lt((#[trigger] e[j]).0, key@),
            ensures
                i <= n,
                forall|j: int| 0 <= j < i ==> lex_lt((#[trigger] e[j]).0, key@),
                i < n ==> !lex_lt(e[i as int].0, key@),
            decreases n - i,
        {
            if !lex_less(self.entries[i].0.as_slice(), key) {
                break;
            }
            i += 1;
        }
        let entry = (slice_to_vec(key), slice_to_vec(value));
        if i < n && !lex_less(key, self.entries[i].0.as_slice()) {
            proof {
                lemma_lex_total(key@, e[i as int].0);
                lemma_replace(e, i as int, value@);
            }
            self.entries.set(i, entry);
            proof {
                assert(self.entries_view() =~= e.update(i as int, (e[i as int].0, value@)));
            }
        } else {
            proof {
                assert forall|j: int| i <= j < e.len() implies lex_lt(key@, (#[trigger] e[j]).0) by {
                    lemma_lex_total(key@, e[i as int].0);
                    if j > i {
                        lemma_lex_transitive(key@, e[i as int].0, e[j].0);
                    }
                }
                lemma_insert(e, i as int, key@, value@);
            }
            self.entries.insert(i, entry);
            proof {
                assert(self.entries_view() =~= e.insert(i as int, (key@, value@)));
            }
        }
        self.recompute_root();
        Ok(())
    }
}

/// Writing two different keys gives the same contents, and so the same root,
/// in either order.
pub proof fn lemma_put_order_irrelevant(
    m: Map<Seq<u8>, Seq<u8>>,
    k1: Seq<u8>,
    v1: Seq<u8>,
    k2: Seq<u8>,
    v2: Seq<u8>,
)
    requires
        k1 != k2,
    ensures
        m.insert(k1, v1).insert(k2, v2) == m.insert(k2, v2).insert(k1, v1),
        root_of(m.insert(k1, v1).insert(k2, v2)) == root_of(m.insert(k2, v2).insert(k1, v1)),
{
    assert(m.insert(k1, v1).insert(k2, v2) =~= m.insert(k2, v2).insert(k1, v1));
}

} // verus!
