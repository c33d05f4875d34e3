use vstd::prelude::*;

verus! {

/// First value stored under `key`, scanning the pair list front to back.
pub open spec fn find_entry<V>(entries: Seq<(String, V)>, key: Seq<char>) -> Option<V>
    decreases entries.len(),
{
    if entries.len() == 0 {
        None
    } else if entries[0].0@ == key {
        Some(entries[0].1)
    } else {
        find_entry(entries.drop_first(), key)
    }
}

pub(crate) proof fn lemma_find_entry_skip<V>(entries: Seq<(String, V)>, i: int, key: Seq<char>)
    requires
        0 <= i <= entries.len(),
        forall|j: int| 0 <= j < i ==> entries[j].0@ != key,
    ensures
        find_entry(entries.skip(i), key) == find_entry(entries, key),
    decreases i,
{
    if i > 0 {
        assert(entries.drop_first() =~= entries.skip(1));
        assert forall|j: int| 0 <= j < i - 1 implies entries.drop_first()[j].0@ != key by {
            assert(entries.drop_first()[j] == entries[j + 1]);
        }
        lemma_find_entry_skip(entries.drop_first(), i - 1, key);
        assert(entries.drop_first().skip(i - 1) =~= entries.skip(i));
        assert(entries[0].0@ != key);
    } else {
        assert(entries.skip(0) =~= entries);
    }
}

proof fn lemma_find_entry_remove<V>(entries: Seq<(String, V)>, idx: int, key: Seq<char>, k: Seq<char>)
    requires
        0 <= idx < entries.len(),
        entries[idx].0@ == key,
        forall|j: int| 0 <= j < idx ==> entries[j].0@ != key,
        k != key,
    ensures
        find_entry(entries.remove(idx), k) == find_entry(entries, k),
    decreases idx,
{
    if idx == 0 {
        assert(entries.remove(0) =~= entries.drop_first());
    } else {
        assert(entries.remove(idx).drop_first() =~= entries.drop_first().remove(idx - 1));
        lemma_find_entry_remove(entries.drop_first(), idx - 1, key, k);
    }
}

proof fn lemma_find_entry_remove_unique<V>(entries: Seq<(String, V)>, idx: int, key: Seq<char>)
    requires
        0 <= idx < entries.len(),
        entries[idx].0@ == key,
        forall|i: int, j: int| 0 <= i < j < entries.len() ==> entries[i].0@ != entries[j].0@,
    ensures
        find_entry(entries.remove(idx), key) is None,
    decreases idx,
{
    if idx == 0 {
        assert forall|j: int| 0 <= j < entries.drop_first().len() implies entries.drop_first()[j].0@
            != key by {
            assert(entries.drop_first()[j] == entries[j + 1]);
        }
        lemma_find_entry_none(entries.drop_first(), key);
        assert(entries.remove(0) =~= entries.drop_first());
    } else {
        assert(entries.remove(idx).drop_first() =~= entries.drop_first().remove(idx - 1));
        lemma_find_entry_remove_unique(entries.drop_first(), idx - 1, key);
        assert(entries.remove(idx)[0] == entries[0]);
        assert(entries[0].0@ != key);
    }
}

pub(crate) proof fn lemma_find_entry_none<V>(entries: Seq<(String, V)>, key: Seq<char>)
    requires
        forall|j: int| 0 <= j < entries.len() ==> entries[j].0@ != key,
    ensures
        find_entry(entries, key) is None,
    decreases entries.len(),
{
    if entries.len() > 0 {
        lemma_find_entry_none(entries.drop_first(), key);
    }
}

/// An association list from names to values, the map shape shared by the
/// registries: keys are unique, lookups scan linearly, and the structure is
/// built once during initialization and read thereafter.
#[derive(Debug)]
pub struct NameIndex<V> {
    entries: Vec<(String, V)>,
}

impl<V> NameIndex<V> {
    /// The stored pairs, newest first.
    pub closed spec fn entries_seq(&self) -> Seq<(String, V)> {
        self.entries@
    }

    /// The value recorded under `key`, if any.
    pub open spec fn spec_get(&self, key: Seq<char>) -> Option<V> {
        find_entry(self.entries_seq(), key)
    }

    pub open spec fn spec_contains(&self, key: Seq<char>) -> bool {
        self.spec_get(key) is Some
    }

    /// Each key occurs at most once.
    pub open spec fn wf(&self) -> bool {
        forall|i: int, j: int|
            0 <= i < j < self.entries_seq().len() ==> self.entries_seq()[i].0@
                != self.entries_seq()[j].0@
    }

    pub open spec fn spec_len(&self) -> nat {
        self.entries_seq().len()
    }

    pub fn new() -> (r: Self)
        ensures
            r.wf(),
            r.spec_len() == 0,
            forall|k: Seq<char>| r.spec_get(k) is None,
    {
        NameIndex { entries: Vec::new() }
    }

    pub fn len(&self) -> (r: usize)
        ensures
            r == self.spec_len(),
    {
        self.entries.len()
    }

    pub fn get<'a>(&'a self, key: &str) -> (r: Option<&'a V>)
        ensures
            match r {
                Some(v) => self.spec_get(key@) == Some(*v),
                None => self.spec_get(key@) is None,
            },
    {
        let key_string: String = String::from_str(key);
        let n: usize = self.entries.len();
        let mut i: usize = 0;
        while i < n
            invariant
                key_string@ == key@,
                n == self.entries_seq().len(),
                0 <= i <= n,
                forall|j: int| 0 <= j < i ==> self.entries_seq()[j].0@ != key@,
            decreases n - i,
        {
            if self.entries[i].0 == key_string {
                proof {
                    lemma_find_entry_skip(self.entries_seq(), i as int, key@);
                    assert(self.entries_seq().skip(i as int)[0] == self.entries_seq()[i as int]);
                    assert(self.entries_seq().skip(i as int).len() > 0);
                }
                return Some(&self.entries[i].1);
            }
            i = i + 1;
        }
        proof {
            lemma_find_entry_none(self.entries_seq(), key@);
        }
        None
    }

    pub fn contains_key(&self, key: &str) -> (r: bool)
        ensures
            r == self.spec_contains(key@),
    {
        self.get(key).is_some()
    }

    /// Records `value` under `key`; an older value under the same key is
    /// dropped, so a later declaration wins.
    pub fn insert(&mut self, key: String, value: V)
        requires
            old(self).wf(),
        ensures
            final(self).wf(),
            final(self).spec_get(key@) == Some(value),
            forall|k: Seq<char>| k != key@ ==> final(self).spec_get(k) == old(self).spec_get(k),
            final(self).spec_len() == if old(self).spec_contains(key@) {
                old(self).spec_len()
            } else {
                old(self).spec_len() + 1
            },
    {
        let ghost pre = self.entries@;
        let n: usize = self.entries.len();
        let mut i: usize = 0;
        while i < n
            invariant
                n == self.entries@.len(),
                self.entries@ == pre,
                pre == old(self).entries_seq(),
                forall|a: int, b: int| 0 <= a < b < pre.len() ==> pre[a].0@ != pre[b].0@,
                0 <= i <= n,
                forall|j: int| 0 <= j < i ==> self.entries@[j].0@ != key@,
            decreases n - i,
        {
            if self.entries[i].0 == key {
                proof {
                    lemma_find_entry_skip(pre, i as int, key@);
                    assert(pre.skip(i as int)[0] == pre[i as int]);
                    lemma_find_entry_remove_unique(pre, i as int, key@);
                }
                self.entries.remove(i);
                self.entries.insert(0, (key, value));
                proof {
                    let post = self.entries@;
                    assert(find_entry(pre.skip(i as int), key@) is Some);
                    assert(find_entry(pre, key@) is Some);
                    assert(post[0].0@ == key@);
                    assert(post.drop_first() =~= pre.remove(i as int));
                    assert(find_entry(post, key@) == Some(post[0].1));
                    assert forall|k: Seq<char>| k != key@ implies find_entry(post, k) == find_entry(
                        pre,
                        k,
                    ) by {
                        assert(find_entry(post, k) == find_entry(post.drop_first(), k));
                        lemma_find_entry_remove(pre, i as int, key@, k);
                    }
                    assert forall|a: int, b: int|
                        0 <= a < b < post.len() implies post[a].0@ != post[b].0@ by {
                        if a > 0 {
                            assert(post[a] == pre.remove(i as int)[a - 1]);
                            assert(post[b] == pre.remove(i as int)[b - 1]);
                        } else {
                            assert(post[b] == pre.remove(i as int)[b - 1]);
                            lemma_find_entry_remove_unique(pre, i as int, key@);
                            if post[0].0@ == post[b].0@ {
                                lemma_find_entry_found(pre.remove(i as int), b - 1, key@);
                            }
                        }
                    }
                }
                return ;
            }
            i = i + 1;
        }
        proof {
            lemma_find_entry_none(pre, key@);
        }
        self.entries.insert(0, (key, value));
        proof {
            let post = self.entries@;
            assert(post.drop_first() =~= pre);
            assert forall|a: int, b: int| 0 <= a < b < post.len() implies post[a].0@
                != post[b].0@ by {
                if a > 0 {
                    assert(post[a] == pre[a - 1]);
                    assert(post[b] == pre[b - 1]);
                } else {
                    assert(post[b] == pre[b - 1]);
                    if post[0].0@ == post[b].0@ {
                        lemma_find_entry_found(pre, b - 1, key@);
                    }
                }
            }
        }
    }

    /// Read access to the stored pairs, for callers that walk the whole index.
    pub fn pairs(&self) -> (r: &Vec<(String, V)>)
        ensures
            r@ == self.entries_seq(),
    {
        &self.entries
    }
}

proof fn lemma_find_entry_found<V>(entries: Seq<(String, V)>, idx: int, key: Seq<char>)
    requires
        0 <= idx < entries.len(),
        entries[idx].0@ == key,
    ensures
        find_entry(entries, key) is Some,
    decreases idx,
{
    if idx > 0 && entries[0].0@ != key {
        lemma_find_entry_found(entries.drop_first(), idx - 1, key);
    }
}

} // verus!
