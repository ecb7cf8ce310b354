//! An insertion-ordered string-to-string map, used for headers, query
//! parameters, labels, annotations and configuration entries. Lookups find
//! the first entry with the key; `insert` replaces a present key's value in
//! place, so iteration order is exactly first-insertion order.

use vstd::prelude::*;

use crate::text::str_equal;

verus! {

use vstd::pervasive::VecAdditionalExecFns;

/// First-match lookup in a sequence of key-value pairs.
pub open spec fn lookup(es: Seq<(Seq<char>, Seq<char>)>, k: Seq<char>) -> Option<Seq<char>>
    decreases es,
{
    if es.len() == 0 {
        None
    } else if es[0].0 == k {
        Some(es[0].1)
    } else {
        lookup(es.subrange(1, es.len() as int), k)
    }
}

/// The keys of a pair sequence, in order.
pub open spec fn key_seq(es: Seq<(Seq<char>, Seq<char>)>) -> Seq<Seq<char>> {
    es.map_values(|e: (Seq<char>, Seq<char>)| e.0)
}

/// An insertion-ordered map from strings to strings.
#[derive(Debug)]
pub struct Dict {
    entries: Vec<(String, String)>,
}

impl View for Dict {
    type V = Seq<(Seq<char>, Seq<char>)>;

    closed spec fn view(&self) -> Seq<(Seq<char>, Seq<char>)> {
        self.entries@.map_values(|e: (String, String)| (e.0@, e.1@))
    }
}

pub proof fn lemma_lookup_some_position(es: Seq<(Seq<char>, Seq<char>)>, k: Seq<char>)
    ensures
        lookup(es, k) is Some <==> (exists|i: int| 0 <= i < es.len() && (#[trigger] es[i]).0 == k),
    decreases es,
{
    if es.len() > 0 {
        lemma_lookup_some_position(es.subrange(1, es.len() as int), k);
        if es[0].0 == k {
        } else {
            let tail = es.subrange(1, es.len() as int);
            if lookup(es, k) is Some {
                let i = choose|i: int| 0 <= i < tail.len() && (#[trigger] tail[i]).0 == k;
                assert(es[i + 1].0 == k);
            } else {
                if exists|i: int| 0 <= i < es.len() && (#[trigger] es[i]).0 == k {
                    let i = choose|i: int| 0 <= i < es.len() && (#[trigger] es[i]).0 == k;
                    assert(tail[i - 1].0 == k);
                }
            }
        }
    }
}

/// Two pair sequences with the same keys at the same positions decide any
/// lookup at the same first position.
pub proof fn lemma_lookup_aligned(
    a: Seq<(Seq<char>, Seq<char>)>,
    b: Seq<(Seq<char>, Seq<char>)>,
    k: Seq<char>,
)
    requires
        a.len() == b.len(),
        forall|i: int| 0 <= i < a.len() ==> (#[trigger] a[i]).0 == b[i].0,
    ensures
        lookup(a, k) is Some <==> lookup(b, k) is Some,
        lookup(a, k) is Some ==> exists|i: int|
            {
                &&& 0 <= i < a.len()
                &&& (#[trigger] a[i]).0 == k
                &&& lookup(a, k) == Some(a[i].1)
                &&& lookup(b, k) == Some(b[i].1)
            },
    decreases a,
{
    if a.len() > 0 {
        let ta = a.subrange(1, a.len() as int);
        let tb = b.subrange(1, b.len() as int);
        assert(forall|i: int| 0 <= i < ta.len() ==> (#[trigger] ta[i]).0 == a[i + 1].0);
        assert(forall|i: int| 0 <= i < tb.len() ==> (#[trigger] tb[i]).0 == b[i + 1].0);
        lemma_lookup_aligned(ta, tb, k);
        if a[0].0 == k {
            assert(lookup(a, k) == Some(a[0].1));
            assert(lookup(b, k) == Some(b[0].1));
        } else {
            assert(lookup(a, k) == lookup(ta, k));
            assert(lookup(b, k) == lookup(tb, k));
            if lookup(ta, k) is Some {
                let i = choose|i: int|
                    {
                        &&& 0 <= i < ta.len()
                        &&& (#[trigger] ta[i]).0 == k
                        &&& lookup(ta, k) == Some(ta[i].1)
                        &&& lookup(tb, k) == Some(tb[i].1)
                    };
                assert(a[i + 1].0 == k && lookup(a, k) == Some(a[i + 1].1) && lookup(b, k)
                    == Some(b[i + 1].1));
            }
        }
    }
}

/// A key that no entry holds is not among the keys.
pub proof fn lemma_key_seq_not_contains(es: Seq<(Seq<char>, Seq<char>)>, k: Seq<char>)
    requires
        forall|i: int| 0 <= i < es.len() ==> (#[trigger] es[i]).0 != k,
    ensures
        !key_seq(es).contains(k),
{
    assert forall|i: int| 0 <= i < key_seq(es).len() implies key_seq(es)[i] != k by {
        assert(key_seq(es)[i] == es[i].0);
    }
}

impl Dict {
    /// The empty map.
    pub fn new() -> (r: Dict)
        ensures
            r@ == Seq::<(Seq<char>, Seq<char>)>::empty(),
    {
        let r = Dict { entries: Vec::new() };
        proof {
            assert(r@ =~= Seq::<(Seq<char>, Seq<char>)>::empty());
        }
        r
    }

    /// How many entries the map holds.
    pub fn len(&self) -> (r: usize)
        ensures
            r == self@.len(),
    {
        self.entries.len()
    }

    /// Whether the map holds no entry.
    pub fn is_empty(&self) -> (r: bool)
        ensures
            r == (self@.len() == 0),
    {
        self.entries.len() == 0
    }

    /// The key of the entry at `i`.
    pub fn key_at(&self, i: usize) -> (r: &String)
        requires
            i < self@.len(),
        ensures
            r@ == self@[i as int].0,
    {
        &self.entries[i].0
    }

    /// The value of the entry at `i`.
    pub fn val_at(&self, i: usize) -> (r: &String)
        requires
            i < self@.len(),
        ensures
            r@ == self@[i as int].1,
    {
        &self.entries[i].1
    }

    /// The value stored under `key`, if any.
    #[verifier::loop_isolation(false)]
    pub fn get(&self, key: &str) -> (r: Option<&String>)
        ensures
            r is Some <==> lookup(self@, key@) is Some,
            r matches Some(v) ==> lookup(self@, key@) == Some(v@),
    {
        let n = self.entries.len();
        let mut i: usize = 0;
        proof {
            assert(self@.subrange(0, n as int) =~= self@);
        }
        while i < n
            invariant
                n == self.entries@.len(),
                0 <= i <= n,
                lookup(self@, key@) == lookup(self@.subrange(i as int, n as int), key@),
            decreases n - i,
        {
            proof {
                let tail = self@.subrange(i as int, n as int);
                assert(tail[0] == self@[i as int]);
                assert(tail.subrange(1, tail.len() as int) =~= self@.subrange(
                    i + 1,
                    n as int,
                ));
            }
            if str_equal(self.entries[i].0.as_str(), key) {
                return Some(&self.entries[i].1);
            }
            i = i + 1;
        }
        proof {
            assert(self@.subrange(n as int, n as int) =~= Seq::<(Seq<char>, Seq<char>)>::empty());
        }
        None
    }

    /// Whether `key` is present.
    pub fn contains_key(&self, key: &str) -> (r: bool)
        ensures
            r == (lookup(self@, key@) is Some),
    {
        self.get(key).is_some()
    }

    /// Stores `value` under `key`: a present key keeps its position and gets
    /// the new value, a new key goes to the end. Returns the replaced value.
    #[verifier::loop_isolation(false)]
    pub fn insert(&mut self, key: String, value: String) -> (r: Option<String>)
        ensures
            lookup(final(self)@, key@) == Some(value@),
            key_seq(old(self)@).contains(key@) ==> key_seq(final(self)@) == key_seq(old(self)@),
            !key_seq(old(self)@).contains(key@) ==> final(self)@ == old(self)@.push(
                (key@, value@),
            ),
            forall|k2: Seq<char>|
                k2 != key@ ==> lookup(final(self)@, k2) == lookup(old(self)@, k2),
            r is Some <==> lookup(old(self)@, key@) is Some,
            r matches Some(v) ==> lookup(old(self)@, key@) == Some(v@),
    {
        let n = self.entries.len();
        let mut i: usize = 0;
        while i < n
            invariant
                self == old(self),
                n == self.entries@.len(),
                0 <= i <= n,
                forall|j: int| 0 <= j < i ==> (#[trigger] self@[j]).0 != key@,
            decreases n - i,
        {
            if str_equal(self.entries[i].0.as_str(), key.as_str()) {
                let replaced = self.entries[i].1.clone();
                proof {
                    lemma_lookup_prefix_miss(self@, key@, i as int);
                }
                self.entries.set(i, (key, value));
                proof {
                    assert(self@ =~= old(self)@.update(i as int, (key@, value@)));
                    lemma_dict_replace(old(self)@, self@, key@, value@, i as int);
                    assert(key_seq(old(self)@)[i as int] == key@);
                    assert(key_seq(old(self)@).contains(key@));
                }
                return Some(replaced);
            }
            i = i + 1;
        }
        proof {
            lemma_lookup_prefix_miss(self@, key@, n as int);
        }
        self.entries.push((key, value));
        proof {
            assert(self@ =~= old(self)@.push((key@, value@)));
            lemma_dict_append(old(self)@, key@, value@);
            if key_seq(old(self)@).contains(key@) {
                let j = choose|j: int|
                    0 <= j < old(self)@.len() && key_seq(old(self)@)[j] == key@;
                lemma_lookup_some_position(old(self)@, key@);
                assert((old(self)@[j]).0 == key@);
            }
        }
        None
    }

    /// A copy with the same entries in the same order.
    #[verifier::loop_isolation(false)]
    pub fn duplicate(&self) -> (r: Dict)
        ensures
            r@ == self@,
    {
        let n = self.len();
        let mut out = Dict::new();
        let mut i: usize = 0;
        proof {
            assert(out@ =~= self@.subrange(0, 0));
        }
        while i < n
            invariant
                n == self@.len(),
                0 <= i <= n,
                out@ == self@.subrange(0, i as int),
            decreases n - i,
        {
            out.append_entry(self.key_at(i).clone(), self.val_at(i).clone());
            proof {
                assert(out@ =~= self@.subrange(0, i + 1));
            }
            i = i + 1;
        }
        proof {
            assert(self@.subrange(0, n as int) =~= self@);
        }
        out
    }

    /// Appends an entry at the end, keeping whatever came before; the
    /// renderer uses this to rebuild a map in its source key order.
    pub(crate) fn append_entry(&mut self, key: String, value: String)
        ensures
            final(self)@ == old(self)@.push((key@, value@)),
    {
        self.entries.push((key, value));
        proof {
            assert(self@ =~= old(self)@.push((key@, value@)));
        }
    }

    /// Removes `key` if present, taking out the first entry holding it
    /// and keeping the order of the rest; returns the removed value.
    #[verifier::loop_isolation(false)]
    pub fn remove(&mut self, key: &str) -> (r: Option<String>)
        ensures
            r is Some <==> lookup(old(self)@, key@) is Some,
            r matches Some(v) ==> lookup(old(self)@, key@) == Some(v@),
            r is None ==> final(self)@ == old(self)@,
            r is Some ==> exists|i: int|
                {
                    &&& 0 <= i < old(self)@.len()
                    &&& (#[trigger] old(self)@[i]).0 == key@
                    &&& (forall|j: int| 0 <= j < i ==> old(self)@[j].0 != key@)
                    &&& final(self)@ == old(self)@.remove(i)
                },
    {
        let n = self.entries.len();
        let mut i: usize = 0;
        while i < n
            invariant
                self == old(self),
                n == self.entries@.len(),
                0 <= i <= n,
                forall|j: int| 0 <= j < i ==> (#[trigger] self@[j]).0 != key@,
            decreases n - i,
        {
            if str_equal(self.entries[i].0.as_str(), key) {
                proof {
                    lemma_lookup_prefix_miss(self@, key@, i as int);
                }
                let pair = self.entries.remove(i);
                proof {
                    assert(self@ =~= old(self)@.remove(i as int));
                    lemma_lookup_removed(old(self)@, self@, key@, i as int);
                }
                return Some(pair.1);
            }
            i = i + 1;
        }
        proof {
            lemma_lookup_prefix_miss(self@, key@, n as int);
        }
        None
    }
}

/// When the first `i` keys differ from `k`, the lookup outcome is decided at
/// or after `i`; with `i` the whole length, it is `None`; and position `i`
/// holding `k` makes it that entry's value.
proof fn lemma_lookup_prefix_miss(es: Seq<(Seq<char>, Seq<char>)>, k: Seq<char>, i: int)
    requires
        0 <= i <= es.len(),
        forall|j: int| 0 <= j < i ==> (#[trigger] es[j]).0 != k,
    ensures
        i == es.len() ==> lookup(es, k) is None,
        i < es.len() && es[i].0 == k ==> lookup(es, k) == Some(es[i].1),
    decreases i,
{
    if i > 0 {
        let tail = es.subrange(1, es.len() as int);
        assert(forall|j: int| 0 <= j < i - 1 ==> (#[trigger] tail[j]).0 == es[j + 1].0);
        lemma_lookup_prefix_miss(tail, k, i - 1);
        if i < es.len() {
            assert(tail[i - 1] == es[i]);
        }
    } else {
        if i < es.len() && es[i].0 == k {
        }
    }
}

/// Replacing the value at the position where `k` first occurs gives the map
/// that looks up `k` to the new value and everything else unchanged.
proof fn lemma_dict_replace(
    before: Seq<(Seq<char>, Seq<char>)>,
    after: Seq<(Seq<char>, Seq<char>)>,
    k: Seq<char>,
    v: Seq<char>,
    i: int,
)
    requires
        0 <= i < before.len(),
        after =~= before.update(i, (k, v)),
        before[i].0 == k,
        forall|j: int| 0 <= j < i ==> (#[trigger] before[j]).0 != k,
    ensures
        lookup(after, k) == Some(v),
        key_seq(after) == key_seq(before),
        forall|k2: Seq<char>| k2 != k ==> lookup(after, k2) == lookup(before, k2),
        lookup(before, k) == Some(before[i].1),
    decreases i,
{
    assert(key_seq(after) =~= key_seq(before));
    if i == 0 {
        assert(after[0] == (k, v));
        let ta = after.subrange(1, after.len() as int);
        let tb = before.subrange(1, before.len() as int);
        assert(ta =~= tb);
        assert(lookup(after, k) == Some(v));
        assert(lookup(before, k) == Some(before[0].1));
        assert forall|k2: Seq<char>| k2 != k implies lookup(after, k2) == lookup(
            before,
            k2,
        ) by {
            assert(lookup(after, k2) == lookup(ta, k2));
            assert(lookup(before, k2) == lookup(tb, k2));
        }
    } else {
        let tb = before.subrange(1, before.len() as int);
        let ta = after.subrange(1, after.len() as int);
        assert(ta =~= tb.update(i - 1, (k, v)));
        assert(forall|j: int| 0 <= j < i - 1 ==> (#[trigger] tb[j]).0 == before[j + 1].0);
        assert(tb[i - 1] == before[i]);
        lemma_dict_replace(tb, ta, k, v, i - 1);
        assert(after[0] == before[0]);
        assert(before[0].0 != k);
        assert(lookup(after, k) == lookup(ta, k));
        assert(lookup(before, k) == lookup(tb, k));
        assert forall|k2: Seq<char>| k2 != k implies lookup(after, k2) == lookup(
            before,
            k2,
        ) by {
            if after[0].0 == k2 {
                assert(lookup(after, k2) == Some(after[0].1));
                assert(lookup(before, k2) == Some(before[0].1));
            } else {
                assert(lookup(after, k2) == lookup(ta, k2));
                assert(lookup(before, k2) == lookup(tb, k2));
            }
        }
    }
}

/// Appending a fresh key leaves all other lookups unchanged and sends the
/// new key to the new value.
proof fn lemma_dict_append(before: Seq<(Seq<char>, Seq<char>)>, k: Seq<char>, v: Seq<char>)
    ensures
        lookup(before.push((k, v)), k) == if lookup(before, k) is Some {
            lookup(before, k)
        } else {
            Some(v)
        },
        forall|k2: Seq<char>| k2 != k ==> lookup(before.push((k, v)), k2) == lookup(before, k2),
    decreases before,
{
    let es = before.push((k, v));
    if before.len() == 0 {
        assert(es[0] == (k, v));
        assert(es.subrange(1, es.len() as int) =~= Seq::<(Seq<char>, Seq<char>)>::empty());
        assert forall|k2: Seq<char>| k2 != k implies lookup(es, k2) == lookup(before, k2) by {
            assert(lookup(es, k2) == lookup(es.subrange(1, es.len() as int), k2));
        }
    } else {
        let tb = before.subrange(1, before.len() as int);
        lemma_dict_append(tb, k, v);
        let tes = es.subrange(1, es.len() as int);
        assert(tes =~= tb.push((k, v)));
        assert(es[0] == before[0]);
        if es[0].0 == k {
            assert(lookup(es, k) == Some(es[0].1));
            assert(lookup(before, k) == Some(before[0].1));
        } else {
            assert(lookup(es, k) == lookup(tes, k));
            assert(lookup(before, k) == lookup(tb, k));
        }
        assert forall|k2: Seq<char>| k2 != k implies lookup(es, k2) == lookup(before, k2) by {
            if es[0].0 == k2 {
                assert(lookup(es, k2) == Some(es[0].1));
                assert(lookup(before, k2) == Some(before[0].1));
            } else {
                assert(lookup(es, k2) == lookup(tes, k2));
                assert(lookup(before, k2) == lookup(tb, k2));
            }
        }
    }
}

/// Removing the position where `k` first occurs makes `k` look up to the
/// next occurrence or nothing; here only what the callers need is stated.
proof fn lemma_lookup_removed(
    before: Seq<(Seq<char>, Seq<char>)>,
    after: Seq<(Seq<char>, Seq<char>)>,
    k: Seq<char>,
    i: int,
)
    requires
        0 <= i < before.len(),
        after =~= before.remove(i),
        before[i].0 == k,
        forall|j: int| 0 <= j < i ==> (#[trigger] before[j]).0 != k,
    ensures
        lookup(before, k) == Some(before[i].1),
{
    lemma_lookup_prefix_miss(before, k, i);
}

} // verus!
