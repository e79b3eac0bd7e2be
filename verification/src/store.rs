//! Flat stores: values filed under string keys, in the order in which the keys
//! were first set.

use crate::tree::TreeValue;
use vstd::prelude::*;
use vstd::string::StringExecFns;

verus! {

/// The value filed under `key`, if there is one.
pub open spec fn store_get<T>(s: Seq<(Seq<char>, T)>, key: Seq<char>) -> Option<T>
    decreases s.len(),
{
    if s.len() == 0 {
        None
    } else if s[0].0 == key {
        Some(s[0].1)
    } else {
        store_get(s.skip(1), key)
    }
}

/// The store with `value` filed under `key`: in the place of the entry that held
/// the key, or at the end where none did.
pub open spec fn store_set<T>(s: Seq<(Seq<char>, T)>, key: Seq<char>, value: T) -> Seq<
    (Seq<char>, T),
>
    decreases s.len(),
{
    if s.len() == 0 {
        seq![(key, value)]
    } else if s[0].0 == key {
        seq![(key, value)] + s.skip(1)
    } else {
        seq![s[0]] + store_set(s.skip(1), key, value)
    }
}

/// The store without the entries filed under `key`.
pub open spec fn store_remove<T>(s: Seq<(Seq<char>, T)>, key: Seq<char>) -> Seq<(Seq<char>, T)>
    decreases s.len(),
{
    if s.len() == 0 {
        s
    } else if s[0].0 == key {
        store_remove(s.skip(1), key)
    } else {
        seq![s[0]] + store_remove(s.skip(1), key)
    }
}

/// Whether no key is filed twice.
pub open spec fn keys_distinct<T>(s: Seq<(Seq<char>, T)>) -> bool {
    forall|i: int, j: int| 0 <= i < j < s.len() ==> s[i].0 != s[j].0
}

/// Where the first entry with the key stands at `i`, setting the key replaces that entry.
pub proof fn lemma_set_at<T>(s: Seq<(Seq<char>, T)>, key: Seq<char>, value: T, i: int)
    requires
        0 <= i < s.len(),
        s[i].0 == key,
        forall|j: int| 0 <= j < i ==> s[j].0 != key,
    ensures
        store_set(s, key, value) == s.update(i, (key, value)),
        store_get(s, key) == Some(s[i].1),
    decreases i,
{
    if i == 0 {
        assert(seq![(key, value)] + s.skip(1) =~= s.update(0, (key, value)));
    } else {
        lemma_set_at(s.skip(1), key, value, i - 1);
        assert(seq![s[0]] + s.skip(1).update(i - 1, (key, value)) =~= s.update(i, (key, value)));
    }
}

/// Where no entry has the key, setting it adds an entry at the end.
pub proof fn lemma_set_absent<T>(s: Seq<(Seq<char>, T)>, key: Seq<char>, value: T)
    requires
        forall|j: int| 0 <= j < s.len() ==> s[j].0 != key,
    ensures
        store_set(s, key, value) == s.push((key, value)),
        store_get(s, key) is None,
    decreases s.len(),
{
    if s.len() == 0 {
        assert(seq![(key, value)] =~= s.push((key, value)));
    } else {
        lemma_set_absent(s.skip(1), key, value);
        assert(seq![s[0]] + s.skip(1).push((key, value)) =~= s.push((key, value)));
    }
}

/// A key that was set is found, with the value it was set to.
pub proof fn lemma_get_after_set<T>(s: Seq<(Seq<char>, T)>, key: Seq<char>, value: T)
    ensures
        store_get(store_set(s, key, value), key) == Some(value),
    decreases s.len(),
{
    if s.len() > 0 && s[0].0 != key {
        lemma_get_after_set(s.skip(1), key, value);
        assert((seq![s[0]] + store_set(s.skip(1), key, value)).skip(1) =~= store_set(
            s.skip(1),
            key,
            value,
        ));
    }
}

/// Setting one key leaves what is filed under another.
pub proof fn lemma_get_other<T>(s: Seq<(Seq<char>, T)>, key: Seq<char>, value: T, other: Seq<char>)
    requires
        other != key,
    ensures
        store_get(store_set(s, key, value), other) == store_get(s, other),
    decreases s.len(),
{
    if s.len() > 0 {
        if s[0].0 == key {
            assert((seq![(key, value)] + s.skip(1)).skip(1) =~= s.skip(1));
        } else {
            lemma_get_other(s.skip(1), key, value, other);
            assert((seq![s[0]] + store_set(s.skip(1), key, value)).skip(1) =~= store_set(
                s.skip(1),
                key,
                value,
            ));
        }
    } else {
        let one = seq![(key, value)];
        assert(one.skip(1).len() == 0);
        assert(store_get(one.skip(1), other) is None);
    }
}

/// Setting a key twice leaves only the second value: the first is overwritten.
pub proof fn lemma_set_twice<T>(s: Seq<(Seq<char>, T)>, key: Seq<char>, first: T, second: T)
    ensures
        store_set(store_set(s, key, first), key, second) == store_set(s, key, second),
    decreases s.len(),
{
    if s.len() > 0 {
        if s[0].0 == key {
            assert((seq![(key, first)] + s.skip(1)).skip(1) =~= s.skip(1));
        } else {
            lemma_set_twice(s.skip(1), key, first, second);
            assert((seq![s[0]] + store_set(s.skip(1), key, first)).skip(1) =~= store_set(
                s.skip(1),
                key,
                first,
            ));
        }
    }
}

/// Setting a key to the value that is filed under it changes nothing.
pub proof fn lemma_set_same<T>(s: Seq<(Seq<char>, T)>, key: Seq<char>, value: T)
    requires
        store_get(s, key) == Some(value),
    ensures
        store_set(s, key, value) == s,
    decreases s.len(),
{
    if s.len() > 0 {
        if s[0].0 == key {
            assert(seq![(key, value)] + s.skip(1) =~= s);
        } else {
            lemma_set_same(s.skip(1), key, value);
            assert(seq![s[0]] + s.skip(1) =~= s);
        }
    }
}

/// Setting a key in a store where no key is filed twice leaves such a store.
pub proof fn lemma_set_keeps_distinct<T>(s: Seq<(Seq<char>, T)>, key: Seq<char>, value: T)
    requires
        keys_distinct(s),
    ensures
        keys_distinct(store_set(s, key, value)),
{
    if exists|i: int| 0 <= i < s.len() && (#[trigger] s[i]).0 == key {
        let i = choose|i: int| 0 <= i < s.len() && (#[trigger] s[i]).0 == key;
        lemma_set_at(s, key, value, i);
        let r = s.update(i, (key, value));
        assert forall|a: int, b: int| 0 <= a < b < r.len() implies r[a].0 != r[b].0 by {
            assert(s[a].0 != s[b].0);
        }
    } else {
        lemma_set_absent(s, key, value);
        let r = s.push((key, value));
        assert forall|a: int, b: int| 0 <= a < b < r.len() implies r[a].0 != r[b].0 by {
            if b < s.len() {
                assert(s[a].0 != s[b].0);
            }
        }
    }
}

/// Where no entry has the key, removing it changes nothing.
pub proof fn lemma_remove_absent<T>(s: Seq<(Seq<char>, T)>, key: Seq<char>)
    requires
        forall|j: int| 0 <= j < s.len() ==> s[j].0 != key,
    ensures
        store_remove(s, key) == s,
    decreases s.len(),
{
    if s.len() > 0 {
        lemma_remove_absent(s.skip(1), key);
        assert(seq![s[0]] + s.skip(1) =~= s);
    }
}

/// Where the entry at `i` is the only one with the key, removing the key takes
/// out that entry.
pub proof fn lemma_remove_at<T>(s: Seq<(Seq<char>, T)>, key: Seq<char>, i: int)
    requires
        0 <= i < s.len(),
        s[i].0 == key,
        forall|j: int| 0 <= j < s.len() && j != i ==> s[j].0 != key,
    ensures
        store_remove(s, key) == s.remove(i),
    decreases i,
{
    if i == 0 {
        lemma_remove_absent(s.skip(1), key);
        assert(s.skip(1) =~= s.remove(0));
    } else {
        assert forall|j: int| 0 <= j < s.skip(1).len() && j != i - 1 implies s.skip(1)[j].0
            != key by {
            assert(s.skip(1)[j] == s[j + 1]);
        }
        lemma_remove_at(s.skip(1), key, i - 1);
        assert(seq![s[0]] + s.skip(1).remove(i - 1) =~= s.remove(i));
    }
}

/// Nothing is filed under a key that was removed.
pub proof fn lemma_get_after_remove<T>(s: Seq<(Seq<char>, T)>, key: Seq<char>)
    ensures
        store_get(store_remove(s, key), key) is None,
    decreases s.len(),
{
    if s.len() > 0 {
        lemma_get_after_remove(s.skip(1), key);
        if s[0].0 != key {
            assert((seq![s[0]] + store_remove(s.skip(1), key)).skip(1) =~= store_remove(
                s.skip(1),
                key,
            ));
        }
    }
}

/// Removing one key leaves what is filed under another.
pub proof fn lemma_get_other_removed<T>(s: Seq<(Seq<char>, T)>, key: Seq<char>, other: Seq<char>)
    requires
        other != key,
    ensures
        store_get(store_remove(s, key), other) == store_get(s, other),
    decreases s.len(),
{
    if s.len() > 0 {
        lemma_get_other_removed(s.skip(1), key, other);
        if s[0].0 != key {
            assert((seq![s[0]] + store_remove(s.skip(1), key)).skip(1) =~= store_remove(
                s.skip(1),
                key,
            ));
        }
    }
}

/// Where no entry has the key, nothing is filed under it.
pub proof fn lemma_get_absent<T>(s: Seq<(Seq<char>, T)>, key: Seq<char>)
    requires
        forall|j: int| 0 <= j < s.len() ==> s[j].0 != key,
    ensures
        store_get(s, key) is None,
    decreases s.len(),
{
    if s.len() > 0 {
        lemma_get_absent(s.skip(1), key);
    }
}

/// The place of the first entry whose key is `key`.
fn find_key<T>(entries: &Vec<(String, T)>, key: &String) -> (r: Option<usize>)
    ensures
        r matches Some(i) ==> i < entries.len() && entries[i as int].0@ == key@ && forall|j: int|
            0 <= j < i ==> entries[j].0@ != key@,
        r is None ==> forall|j: int| 0 <= j < entries.len() ==> entries[j].0@ != key@,
{
    let mut i: usize = 0;
    while i < entries.len()
        invariant
            i <= entries.len(),
            forall|j: int| 0 <= j < i ==> entries[j].0@ != key@,
        decreases entries.len() - i,
    {
        if entries[i].0 == *key {
            return Some(i);
        }
        i += 1;
    }
    None
}

/// Values filed under string keys, no key twice, in the order in which the keys
/// were first set.
#[derive(Debug)]
pub struct Store<T: View> {
    entries: Vec<(String, T)>,
}

impl<T: View> View for Store<T> {
    type V = Seq<(Seq<char>, T::V)>;

    closed spec fn view(&self) -> Seq<(Seq<char>, T::V)> {
        Seq::new(self.entries.len() as nat, |i: int| (self.entries[i].0@, self.entries[i].1@))
    }
}

/// The parameters of a request body: trees filed under dotted keys.
pub type ParamStore = Store<TreeValue>;

/// The parameters of a query string: texts filed under plain keys.
pub type QueryStore = Store<String>;

impl<T: View> Store<T> {
    #[verifier::type_invariant]
    spec fn keys_are_distinct(self) -> bool {
        keys_distinct(self@)
    }

    /// The number of entries. No key is filed twice.
    pub fn len(&self) -> (r: usize)
        ensures
            r == self@.len(),
            keys_distinct(self@),
    {
        proof {
            use_type_invariant(self);
        }
        self.entries.len()
    }

    /// The key of the entry at place `i`.
    pub fn key(&self, i: usize) -> (r: &String)
        requires
            i < self@.len(),
        ensures
            r@ == self@[i as int].0,
    {
        &self.entries[i].0
    }

    /// What is filed in the entry at place `i`.
    pub fn value(&self, i: usize) -> (r: &T)
        requires
            i < self@.len(),
        ensures
            r@ == self@[i as int].1,
    {
        &self.entries[i].1
    }

    /// A store without entries.
    pub fn new() -> (r: Store<T>)
        ensures
            r@ == Seq::<(Seq<char>, T::V)>::empty(),
    {
        let r = Store { entries: Vec::new() };
        assert(r@ =~= Seq::empty());
        r
    }

    /// Files `value` under `key`, in place of what was filed there.
    pub fn insert(&mut self, key: &str, value: T)
        ensures
            final(self)@ == store_set(old(self)@, key@, value@),
    {
        let owned = key.to_owned();
        let ghost before = self@;
        proof {
            use_type_invariant(&*self);
        }
        let place = find_key(&self.entries, &owned);
        let mut taken = Self::new();
        core::mem::swap(self, &mut taken);
        let mut entries = taken.entries;
        proof {
            assert(before.len() == entries.len());
            assert(forall|k: int| 0 <= k < entries.len() ==> before[k].0 == entries[k].0@);
        }
        match place {
            Some(i) => {
                entries[i] = (owned, value);
                proof {
                    assert forall|a: int, b: int| 0 <= a < b < entries.len() implies entries[a].0@
                        != entries[b].0@ by {
                        assert(before[a].0 != before[b].0);
                    }
                }
                *self = Self { entries };
                proof {
                    lemma_set_at(before, key@, value@, i as int);
                    assert(self@ =~= before.update(i as int, (key@, value@)));
                }
            },
            None => {
                entries.push((owned, value));
                proof {
                    assert forall|a: int, b: int| 0 <= a < b < entries.len() implies entries[a].0@
                        != entries[b].0@ by {
                        if b < before.len() {
                            assert(before[a].0 != before[b].0);
                        }
                    }
                }
                *self = Self { entries };
                proof {
                    lemma_set_absent(before, key@, value@);
                    assert(self@ =~= before.push((key@, value@)));
                }
            },
        }
    }

    /// Takes out what is filed under `key`, if anything is.
    pub fn remove(&mut self, key: &str)
        ensures
            final(self)@ == store_remove(old(self)@, key@),
    {
        let owned = key.to_owned();
        let ghost before = self@;
        proof {
            use_type_invariant(&*self);
        }
        let place = find_key(&self.entries, &owned);
        let mut taken = Self::new();
        core::mem::swap(self, &mut taken);
        let mut entries = taken.entries;
        proof {
            assert(before.len() == entries.len());
            assert(forall|k: int| 0 <= k < entries.len() ==> before[k].0 == entries[k].0@);
        }
        match place {
            Some(i) => {
                let ghost kept = entries@;
                let _gone = entries.remove(i);
                proof {
                    assert forall|a: int, b: int| 0 <= a < b < entries.len() implies entries[a].0@
                        != entries[b].0@ by {
                        let x = if a < i { a } else { a + 1 };
                        let y = if b < i { b } else { b + 1 };
                        assert(entries[a] == kept[x]);
                        assert(entries[b] == kept[y]);
                        assert(before[x].0 != before[y].0);
                    }
                    assert forall|j: int| 0 <= j < before.len() && j != i implies before[j].0
                        != key@ by {
                        if j < i {
                            assert(before[j].0 != before[i as int].0);
                        } else {
                            assert(before[i as int].0 != before[j].0);
                        }
                    }
                    lemma_remove_at(before, key@, i as int);
                }
                *self = Self { entries };
                proof {
                    assert(self@ =~= before.remove(i as int));
                }
            },
            None => {
                *self = Self { entries };
                proof {
                    lemma_remove_absent(before, key@);
                    assert(self@ =~= before);
                }
            },
        }
    }

    /// What is filed under `key`, if anything is.
    pub fn get(&self, key: &str) -> (r: Option<&T>)
        ensures
            r matches Some(v) ==> store_get(self@, key@) == Some(v@),
            r is None ==> store_get(self@, key@) is None,
    {
        let owned = key.to_owned();
        match find_key(&self.entries, &owned) {
            Some(i) => {
                proof {
                    lemma_set_at(self@, key@, self@[i as int].1, i as int);
                }
                Some(&self.entries[i].1)
            },
            None => {
                proof {
                    lemma_get_absent(self@, key@);
                }
                None
            },
        }
    }
}

impl Store<TreeValue> {
    /// A copy of the store, entry by entry.
    pub fn clone_store(&self) -> (r: Store<TreeValue>)
        ensures
            r@ == self@,
    {
        let mut entries: Vec<(String, TreeValue)> = Vec::new();
        let mut i: usize = 0;
        proof {
            use_type_invariant(self);
        }
        while i < self.entries.len()
            invariant
                i <= self.entries.len(),
                entries.len() == i,
                forall|j: int|
                    0 <= j < i ==> entries[j].0@ == self.entries[j].0@ && entries[j].1@
                        == self.entries[j].1@,
            decreases self.entries.len() - i,
        {
            let k = self.entries[i].0.clone();
            let v = self.entries[i].1.clone_tree();
            entries.push((k, v));
            i += 1;
        }
        proof {
            assert forall|a: int, b: int| 0 <= a < b < entries.len() implies entries[a].0@
                != entries[b].0@ by {
                assert(self@[a].0 != self@[b].0);
            }
        }
        let r = Store { entries };
        assert(r@ =~= self@);
        r
    }
}

/// The query string of a store: `key=value` for each entry, joined by `&`.
pub open spec fn query_text(s: Seq<(Seq<char>, Seq<char>)>) -> Seq<char>
    decreases s.len(),
{
    if s.len() == 0 {
        Seq::empty()
    } else if s.len() == 1 {
        s[0].0 + seq!['='] + s[0].1
    } else {
        query_text(s.drop_last()) + seq!['&'] + s.last().0 + seq!['='] + s.last().1
    }
}

impl Store<String> {
    /// A copy of the store, entry by entry.
    pub fn clone_store(&self) -> (r: Store<String>)
        ensures
            r@ == self@,
    {
        let mut entries: Vec<(String, String)> = Vec::new();
        let mut i: usize = 0;
        proof {
            use_type_invariant(self);
        }
        while i < self.entries.len()
            invariant
                i <= self.entries.len(),
                entries.len() == i,
                forall|j: int|
                    0 <= j < i ==> entries[j].0@ == self.entries[j].0@ && entries[j].1@
                        == self.entries[j].1@,
            decreases self.entries.len() - i,
        {
            let k = self.entries[i].0.clone();
            let v = self.entries[i].1.clone();
            entries.push((k, v));
            i += 1;
        }
        proof {
            assert forall|a: int, b: int| 0 <= a < b < entries.len() implies entries[a].0@
                != entries[b].0@ by {
                assert(self@[a].0 != self@[b].0);
            }
        }
        let r = Store { entries };
        assert(r@ =~= self@);
        r
    }

    /// The query string: `None` for a store without entries.
    pub fn encode(&self) -> (r: Option<String>)
        ensures
            self@.len() == 0 ==> r is None,
            self@.len() > 0 ==> r is Some,
            r matches Some(s) ==> s@ == query_text(self@),
    {
        if self.entries.len() == 0 {
            return None;
        }
        proof {
            reveal_strlit("=");
            reveal_strlit("&");
            assert("="@ =~= seq!['=']);
            assert("&"@ =~= seq!['&']);
        }
        let mut out = String::new();
        let mut i: usize = 0;
        while i < self.entries.len()
            invariant
                i <= self.entries.len(),
                "="@ == seq!['='],
                "&"@ == seq!['&'],
                out@ == query_text(self@.take(i as int)),
            decreases self.entries.len() - i,
        {
            proof {
                assert(self@.take(i + 1).drop_last() =~= self@.take(i as int));
                assert(self@.take(i + 1).last() == self@[i as int]);
            }
            if i > 0 {
                out.append("&");
            }
            out.append(self.entries[i].0.as_str());
            out.append("=");
            out.append(self.entries[i].1.as_str());
            proof {
                if i == 0 {
                    assert(out@ =~= self@[0].0 + seq!['='] + self@[0].1);
                }
            }
            i += 1;
        }
        proof {
            assert(self@.take(self.entries.len() as int) =~= self@);
        }
        Some(out)
    }
}

} // verus!
