//! The `IsDue` trait and the insertion-ordered metadata map.

use vstd::prelude::*;
use vstd::string::StringExecFns;

use crate::date::Date;
use crate::text::{lemma_join_tokens_push, push_char, spec_join_tokens};

verus! {

/// A value with a notion of being due.
pub trait IsDue {
    /// Whether the value counts as due when `today` is the current
    /// calendar day.
    spec fn is_due_on(&self, today: Date) -> bool;

    /// Whether the value is due right now. The current day is read from
    /// the wall clock.
    fn due(&self) -> (r: bool)
        ensures
            exists|today: Date| today.wf() && r == self.is_due_on(today),
    ;
}

/// The value under the first entry of `m` whose key is `k`, if any.
pub open spec fn spec_meta_get(m: Seq<(Seq<char>, Seq<char>)>, k: Seq<char>) -> Option<Seq<char>>
    decreases m.len(),
{
    if m.len() == 0 {
        None
    } else if m[0].0 == k {
        Some(m[0].1)
    } else {
        spec_meta_get(m.drop_first(), k)
    }
}

/// `m` with `v` stored under `k`: the first entry whose key is `k` is
/// updated in place, and a fresh key is appended at the end.
pub open spec fn spec_meta_insert(
    m: Seq<(Seq<char>, Seq<char>)>,
    k: Seq<char>,
    v: Seq<char>,
) -> Seq<(Seq<char>, Seq<char>)>
    decreases m.len(),
{
    if m.len() == 0 {
        seq![(k, v)]
    } else if m[0].0 == k {
        seq![(k, v)] + m.drop_first()
    } else {
        seq![m[0]] + spec_meta_insert(m.drop_first(), k, v)
    }
}

/// `m` with the last entry whose key is `k` removed, if any.
pub open spec fn spec_meta_remove(m: Seq<(Seq<char>, Seq<char>)>, k: Seq<char>) -> Seq<
    (Seq<char>, Seq<char>),
>
    decreases m.len(),
{
    if m.len() == 0 {
        m
    } else if m.last().0 == k {
        m.drop_last()
    } else {
        spec_meta_remove(m.drop_last(), k).push(m.last())
    }
}

/// The text form of `m`: `key:value` pairs joined by single spaces, in
/// entry order.
pub open spec fn spec_meta_encode(m: Seq<(Seq<char>, Seq<char>)>) -> Seq<char> {
    spec_join_tokens(m.map_values(|p: (Seq<char>, Seq<char>)| p.0 + seq![':'] + p.1))
}

/// Looking up a key that occurs nowhere in `m` yields nothing.
pub proof fn lemma_meta_get_absent(m: Seq<(Seq<char>, Seq<char>)>, k: Seq<char>)
    requires
        forall|j: int| 0 <= j < m.len() ==> (#[trigger] m[j]).0 != k,
    ensures
        spec_meta_get(m, k) is None,
    decreases m.len(),
{
    if m.len() > 0 {
        lemma_meta_get_absent(m.drop_first(), k);
    }
}

/// Looking up a key whose first occurrence is at `i` yields that entry's
/// value.
pub proof fn lemma_meta_get_found(m: Seq<(Seq<char>, Seq<char>)>, k: Seq<char>, i: int)
    requires
        0 <= i < m.len(),
        m[i].0 == k,
        forall|j: int| 0 <= j < i ==> (#[trigger] m[j]).0 != k,
    ensures
        spec_meta_get(m, k) == Some(m[i].1),
    decreases m.len(),
{
    if i > 0 {
        lemma_meta_get_found(m.drop_first(), k, i - 1);
    }
}

/// Inserting a key that occurs nowhere in `m` appends a fresh entry.
pub proof fn lemma_meta_insert_absent(m: Seq<(Seq<char>, Seq<char>)>, k: Seq<char>, v: Seq<char>)
    requires
        forall|j: int| 0 <= j < m.len() ==> (#[trigger] m[j]).0 != k,
    ensures
        spec_meta_insert(m, k, v) == m.push((k, v)),
    decreases m.len(),
{
    if m.len() == 0 {
        assert(spec_meta_insert(m, k, v) =~= m.push((k, v)));
    } else {
        lemma_meta_insert_absent(m.drop_first(), k, v);
        assert(spec_meta_insert(m, k, v) =~= m.push((k, v)));
    }
}

/// Inserting over a key whose first occurrence is at `i` updates that
/// entry in place.
pub proof fn lemma_meta_insert_found(
    m: Seq<(Seq<char>, Seq<char>)>,
    k: Seq<char>,
    v: Seq<char>,
    i: int,
)
    requires
        0 <= i < m.len(),
        m[i].0 == k,
        forall|j: int| 0 <= j < i ==> (#[trigger] m[j]).0 != k,
    ensures
        spec_meta_insert(m, k, v) == m.update(i, (k, v)),
    decreases m.len(),
{
    if i == 0 {
        assert(spec_meta_insert(m, k, v) =~= m.update(0, (k, v)));
    } else {
        lemma_meta_insert_found(m.drop_first(), k, v, i - 1);
        assert(spec_meta_insert(m, k, v) =~= m.update(i, (k, v)));
    }
}

/// Removing a key that occurs nowhere in `m` leaves it unchanged.
pub proof fn lemma_meta_remove_absent(m: Seq<(Seq<char>, Seq<char>)>, k: Seq<char>)
    requires
        forall|j: int| 0 <= j < m.len() ==> (#[trigger] m[j]).0 != k,
    ensures
        spec_meta_remove(m, k) == m,
    decreases m.len(),
{
    if m.len() > 0 {
        lemma_meta_remove_absent(m.drop_last(), k);
        assert(spec_meta_remove(m, k) =~= m);
    }
}

/// Removing a key whose last occurrence is at `i` removes exactly that
/// entry.
pub proof fn lemma_meta_remove_found(m: Seq<(Seq<char>, Seq<char>)>, k: Seq<char>, i: int)
    requires
        0 <= i < m.len(),
        m[i].0 == k,
        forall|j: int| i < j < m.len() ==> (#[trigger] m[j]).0 != k,
    ensures
        spec_meta_remove(m, k) == m.remove(i),
    decreases m.len(),
{
    if i == m.len() - 1 {
        assert(spec_meta_remove(m, k) =~= m.remove(i));
    } else {
        lemma_meta_remove_found(m.drop_last(), k, i);
        assert(m.drop_last()[i].0 == k);
        assert(spec_meta_remove(m, k) == spec_meta_remove(m.drop_last(), k).push(m.last()));
        assert(spec_meta_remove(m, k) =~= m.remove(i));
    }
}

/// Setting a key that a map never had and then deleting it restores the
/// map exactly, entry order included.
pub proof fn lemma_meta_set_then_delete(m: Seq<(Seq<char>, Seq<char>)>, k: Seq<char>, v: Seq<char>)
    requires
        spec_meta_get(m, k) is None,
    ensures
        spec_meta_remove(spec_meta_insert(m, k, v), k) == m,
    decreases m.len(),
{
    if m.len() == 0 {
        assert(spec_meta_remove(spec_meta_insert(m, k, v), k) =~= m);
    } else if m[0].0 == k {
        assert(false);
    } else {
        lemma_meta_set_then_delete(m.drop_first(), k, v);
        let mi = spec_meta_insert(m, k, v);
        assert(mi == seq![m[0]] + spec_meta_insert(m.drop_first(), k, v));
        assert(mi.last().0 == k) by {
            lemma_meta_insert_last_key(m.drop_first(), k, v);
        }
        assert(spec_meta_remove(mi, k) == mi.drop_last());
        assert(mi.drop_last() =~= m) by {
            lemma_meta_insert_absent_shape(m, k, v);
        }
    }
}

/// When `k` is absent, insertion appends `(k, v)` as the last entry.
proof fn lemma_meta_insert_last_key(m: Seq<(Seq<char>, Seq<char>)>, k: Seq<char>, v: Seq<char>)
    requires
        spec_meta_get(m, k) is None,
    ensures
        spec_meta_insert(m, k, v).len() == m.len() + 1,
        spec_meta_insert(m, k, v).last() == (k, v),
    decreases m.len(),
{
    if m.len() > 0 {
        lemma_meta_insert_last_key(m.drop_first(), k, v);
    }
}

/// When `k` is absent, insertion leaves the existing entries in place.
proof fn lemma_meta_insert_absent_shape(m: Seq<(Seq<char>, Seq<char>)>, k: Seq<char>, v: Seq<char>)
    requires
        spec_meta_get(m, k) is None,
    ensures
        spec_meta_insert(m, k, v).drop_last() =~= m,
    decreases m.len(),
{
    if m.len() == 0 {
        assert(spec_meta_insert(m, k, v).drop_last() =~= m);
    } else {
        assert(m[0].0 != k);
        assert(spec_meta_get(m.drop_first(), k) is None);
        lemma_meta_insert_absent_shape(m.drop_first(), k, v);
        lemma_meta_insert_last_key(m.drop_first(), k, v);
        let x = spec_meta_insert(m.drop_first(), k, v);
        assert(spec_meta_insert(m, k, v) == seq![m[0]] + x);
        assert forall|i: int| 0 <= i < m.len() implies (seq![m[0]] + x).drop_last()[i] == m[i] by {
            if i > 0 {
                assert(x[i - 1] == x.drop_last()[i - 1]);
                assert(x.drop_last()[i - 1] == m.drop_first()[i - 1]);
            }
        }
        assert(spec_meta_insert(m, k, v).drop_last() =~= m);
    }
}

/// An insertion-ordered mapping from string keys to string values.
///
/// Entries keep their insertion order; storing under an existing key
/// updates that entry in place.
#[derive(Debug)]
pub struct MetaMap {
    pub data: Vec<(String, String)>,
}

impl Clone for MetaMap {
    /// A copy with the same entries.
    fn clone(&self) -> (r: Self)
        ensures
            r@ == self@,
    {
        let mut data: Vec<(String, String)> = Vec::new();
        let n = self.data.len();
        let mut i: usize = 0;
        while i < n
            invariant
                i <= n,
                n == self.data.len(),
                data@.len() == i,
                forall|j: int| 0 <= j < i ==> #[trigger] data@[j] == self.data@[j],
            decreases n - i,
        {
            let k = self.data[i].0.clone();
            let v = self.data[i].1.clone();
            data.push((k, v));
            i = i + 1;
        }
        proof {
            assert(data@ =~= self.data@);
        }
        MetaMap { data }
    }
}

impl View for MetaMap {
    type V = Seq<(Seq<char>, Seq<char>)>;

    open spec fn view(&self) -> Seq<(Seq<char>, Seq<char>)> {
        self.data.deep_view()
    }
}

impl Default for MetaMap {
    /// An empty map.
    fn default() -> (r: Self)
        ensures
            r@ == Seq::<(Seq<char>, Seq<char>)>::empty(),
    {
        MetaMap::new()
    }
}

impl MetaMap {
    /// An empty map.
    pub fn new() -> (r: Self)
        ensures
            r@ == Seq::<(Seq<char>, Seq<char>)>::empty(),
    {
        let r = MetaMap { data: Vec::new() };
        proof {
            assert(r@ =~= Seq::<(Seq<char>, Seq<char>)>::empty());
        }
        r
    }

    /// The number of entries.
    pub fn len(&self) -> (r: usize)
        ensures
            r == self@.len(),
    {
        self.data.len()
    }

    /// The map has no entries.
    pub fn is_empty(&self) -> (r: bool)
        ensures
            r == (self@.len() == 0),
    {
        self.data.len() == 0
    }

    /// The value stored under `key`, if any.
    pub fn get(&self, key: &String) -> (r: Option<&String>)
        ensures
            match r {
                Some(v) => spec_meta_get(self@, key@) == Some(v@),
                None => spec_meta_get(self@, key@) is None,
            },
    {
        let n = self.data.len();
        let mut i: usize = 0;
        while i < n
            invariant
                i <= n,
                n == self.data.len(),
                forall|j: int| 0 <= j < i ==> (#[trigger] self@[j]).0 != key@,
            decreases n - i,
        {
            proof {
                assert(self@[i as int] == (self.data@[i as int].0@, self.data@[i as int].1@));
            }
            if self.data[i].0 == *key {
                proof {
                    lemma_meta_get_found(self@, key@, i as int);
                }
                return Some(&self.data[i].1);
            }
            i = i + 1;
        }
        proof {
            lemma_meta_get_absent(self@, key@);
        }
        None
    }

    /// Stores `val` under `key`. An existing entry with that key is
    /// updated in place; otherwise a fresh entry is appended at the end.
    pub fn insert(&mut self, key: String, val: String)
        ensures
            final(self)@ == spec_meta_insert(old(self)@, key@, val@),
    {
        let n = self.data.len();
        let mut i: usize = 0;
        while i < n
            invariant
                i <= n,
                n == self.data.len(),
                self == old(self),
                forall|j: int| 0 <= j < i ==> (#[trigger] self@[j]).0 != key@,
            decreases n - i,
        {
            proof {
                assert(self@[i as int] == (self.data@[i as int].0@, self.data@[i as int].1@));
            }
            if self.data[i].0 == key {
                proof {
                    lemma_meta_insert_found(self@, key@, val@, i as int);
                }
                self.data[i] = (key, val);
                proof {
                    assert(self@ =~= spec_meta_insert(old(self)@, key@, val@));
                }
                return ;
            }
            i = i + 1;
        }
        proof {
            lemma_meta_insert_absent(self@, key@, val@);
        }
        self.data.push((key, val));
        proof {
            assert(self@ =~= spec_meta_insert(old(self)@, key@, val@));
        }
    }

    /// Deletes the entry under `key`, if there is one.
    pub fn remove(&mut self, key: &String)
        ensures
            final(self)@ == spec_meta_remove(old(self)@, key@),
    {
        let n = self.data.len();
        let mut j: usize = n;
        while j > 0
            invariant
                j <= n,
                n == self.data.len(),
                self == old(self),
                forall|idx: int| j <= idx < n ==> (#[trigger] self@[idx]).0 != key@,
            decreases j,
        {
            j = j - 1;
            proof {
                assert(self@[j as int] == (self.data@[j as int].0@, self.data@[j as int].1@));
            }
            if self.data[j].0 == *key {
                proof {
                    lemma_meta_remove_found(self@, key@, j as int);
                }
                self.data.remove(j);
                proof {
                    assert(self@ =~= spec_meta_remove(old(self)@, key@));
                }
                return ;
            }
        }
        proof {
            lemma_meta_remove_absent(self@, key@);
        }
    }

    /// The text form of the map: `key:value` pairs joined by single
    /// spaces, in entry order.
    pub fn encode(&self) -> (r: String)
        ensures
            r@ == spec_meta_encode(self@),
    {
        let ghost toks = self@.map_values(|p: (Seq<char>, Seq<char>)| p.0 + seq![':'] + p.1);
        let mut s = String::new();
        let n = self.data.len();
        let mut i: usize = 0;
        while i < n
            invariant
                i <= n,
                n == self.data.len(),
                toks == self@.map_values(|p: (Seq<char>, Seq<char>)| p.0 + seq![':'] + p.1),
                s@ == spec_join_tokens(toks.take(i as int)),
            decreases n - i,
        {
            proof {
                assert(self@[i as int] == (self.data@[i as int].0@, self.data@[i as int].1@));
                lemma_join_tokens_push(toks.take(i as int), toks[i as int]);
                assert(toks.take(i as int).push(toks[i as int]) =~= toks.take(i as int + 1));
            }
            if i > 0 {
                push_char(&mut s, ' ');
            }
            s.append(self.data[i].0.as_str());
            push_char(&mut s, ':');
            s.append(self.data[i].1.as_str());
            proof {
                assert(s@ =~= spec_join_tokens(toks.take(i as int + 1)));
            }
            i = i + 1;
        }
        proof {
            assert(toks.take(n as int) =~= toks);
        }
        s
    }
}

} // verus!
