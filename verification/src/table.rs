//! An ordered multimap from strings to lists of strings: the shape shared by
//! query parameters, url-encoded form data, and header collections. Keys are
//! unique; each key holds its values in the order they were appended.

use vstd::prelude::*;

verus! {

/// First-match lookup in an association list of string keys and value lists.
pub open spec fn table_lookup(
    entries: Seq<(String, Vec<String>)>,
    k: Seq<char>,
) -> Option<Seq<Seq<char>>>
    decreases entries.len(),
{
    if entries.len() == 0 {
        None
    } else if entries[0].0@ == k {
        Some(entries[0].1.deep_view())
    } else {
        table_lookup(entries.drop_first(), k)
    }
}

pub struct MultiValueTable {
    pub entries: Vec<(String, Vec<String>)>,
}

impl MultiValueTable {
    pub open spec fn key_at(self, i: int) -> Seq<char> {
        self.entries@[i].0@
    }

    /// Keys are pairwise distinct.
    pub open spec fn wf(self) -> bool {
        forall|i: int, j: int|
            0 <= i < j < self.entries@.len() ==> #[trigger] self.entries@[i].0@
                != #[trigger] self.entries@[j].0@
    }

    pub open spec fn lookup(self, k: Seq<char>) -> Option<Seq<Seq<char>>> {
        table_lookup(self.entries@, k)
    }

    pub open spec fn contains_key(self, k: Seq<char>) -> bool {
        self.lookup(k) is Some
    }

    /// The ordered values under `k`; empty when `k` is absent.
    pub open spec fn values_of(self, k: Seq<char>) -> Seq<Seq<char>> {
        match self.lookup(k) {
            Some(vs) => vs,
            None => Seq::empty(),
        }
    }

    /// The value under `k` at position `idx`, or the empty string when the
    /// key is absent or the position is out of range.
    pub open spec fn value_at(self, k: Seq<char>, idx: int) -> Seq<char> {
        if 0 <= idx < self.values_of(k).len() {
            self.values_of(k)[idx]
        } else {
            Seq::empty()
        }
    }

    pub fn new() -> (r: MultiValueTable)
        ensures
            r.wf(),
            r.entries@.len() == 0,
            forall|k: Seq<char>| r.lookup(k) is None,
    {
        MultiValueTable { entries: Vec::new() }
    }

    /// Index of the entry holding `key`, if one exists.
    fn find_index(&self, key: &str) -> (r: Option<usize>)
        ensures
            match r {
                Some(i) => i < self.entries@.len() && self.entries@[i as int].0@ == key@
                    && self.lookup(key@) == Some(self.entries@[i as int].1.deep_view()) && forall|
                    j: int,
                | 0 <= j < i ==> (#[trigger] self.entries@[j].0@) != key@,
                None => self.lookup(key@) is None,
            },
    {
        let n = self.entries.len();
        let mut i: usize = 0;
        while i < n
            invariant
                n == self.entries@.len(),
                i <= n,
                forall|j: int| 0 <= j < i ==> (#[trigger] self.entries@[j].0@) != key@,
            decreases n - i,
        {
            if crate::text::str_eq(self.entries[i].0.as_str(), key) {
                proof {
                    lemma_table_lookup_found(self.entries@, i as int, key@);
                }
                return Some(i);
            }
            i = i + 1;
        }
        proof {
            lemma_table_lookup_absent(self.entries@, key@);
        }
        None
    }

    /// Append `value` under `key`: extends the key's value list, or adds the
    /// key at the end if it is new. Every other key's values are unchanged.
    pub fn append(&mut self, key: String, value: String)
        requires
            old(self).wf(),
        ensures
            final(self).wf(),
            final(self).lookup(key@) == Some(old(self).values_of(key@).push(value@)),
            forall|k2: Seq<char>| k2 != key@ ==> final(self).lookup(k2) == old(self).lookup(k2),
    {
        let index_option = self.find_index(key.as_str());
        match index_option {
            Some(i) => {
                let mut entry = self.entries.remove(i);
                let ghost old_entries = old(self).entries@;
                entry.1.push(value);
                self.entries.insert(i, entry);
                proof {
                    assert(self.entries@ =~= old_entries.update(
                        i as int,
                        (old_entries[i as int].0, self.entries@[i as int].1),
                    ));
                    assert(self.entries@[i as int].1.deep_view() =~= old_entries[
                        i as int
                    ].1.deep_view().push(value@));
                    lemma_table_lookup_found(old_entries, i as int, key@);
                    lemma_table_lookup_update(old_entries, self.entries@, i as int, key@);
                    assert forall|x: int, y: int|
                        0 <= x < y < self.entries@.len() implies #[trigger] self.entries@[x].0@
                        != #[trigger] self.entries@[y].0@ by {
                        assert(self.entries@[x].0@ == old_entries[x].0@);
                        assert(self.entries@[y].0@ == old_entries[y].0@);
                    }
                }
            },
            None => {
                let mut values: Vec<String> = Vec::new();
                values.push(value);
                let ghost old_entries = old(self).entries@;
                self.entries.push((key, values));
                proof {
                    assert(values.deep_view() =~= Seq::empty().push(value@));
                    lemma_table_lookup_none_implies_absent(old_entries, key@);
                    lemma_table_lookup_append(old_entries, self.entries@, key@, values);
                    assert(old(self).values_of(key@) =~= Seq::empty());
                    assert forall|x: int, y: int|
                        0 <= x < y < self.entries@.len() implies #[trigger] self.entries@[x].0@
                        != #[trigger] self.entries@[y].0@ by {
                        assert(self.entries@[x].0@ == old_entries[x].0@);
                        if y < old_entries.len() {
                            assert(self.entries@[y].0@ == old_entries[y].0@);
                        }
                    }
                }
            },
        }
    }

    pub fn len(&self) -> (r: usize)
        ensures
            r == self.entries@.len(),
    {
        self.entries.len()
    }

    /// The most recently appended value under `key`, if the key is present
    /// with at least one value.
    pub fn last_value(&self, key: &str) -> (r: Option<String>)
        ensures
            match r {
                Some(v) => self.lookup(key@) is Some && self.values_of(key@).len() > 0 && v@
                    == self.values_of(key@).last(),
                None => self.lookup(key@) is None || self.values_of(key@).len() == 0,
            },
    {
        let index_option = self.find_index(key);
        match index_option {
            Some(i) => {
                let values = &self.entries[i].1;
                let n = values.len();
                if n > 0 {
                    proof {
                        assert(values.deep_view()[n - 1] == values@[n - 1]@);
                    }
                    Some(values[n - 1].clone())
                } else {
                    None
                }
            },
            None => None,
        }
    }

    /// The value under `key` at `index`, or the empty string when absent;
    /// mirrors header access: missing key and missing position both read as
    /// empty.
    pub fn value_at_index(&self, key: &str, index: usize) -> (r: String)
        ensures
            r@ == self.value_at(key@, index as int),
    {
        let index_option = self.find_index(key);
        match index_option {
            Some(i) => {
                let values = &self.entries[i].1;
                if index < values.len() {
                    proof {
                        assert(values.deep_view()[index as int] == values@[index as int]@);
                    }
                    values[index].clone()
                } else {
                    String::new()
                }
            },
            None => String::new(),
        }
    }
}

/// The values carried by the pairs whose key is `k`, in order.
pub open spec fn pairs_values(pairs: Seq<(Seq<char>, Seq<char>)>, k: Seq<char>) -> Seq<Seq<char>>
    decreases pairs.len(),
{
    if pairs.len() == 0 {
        Seq::empty()
    } else {
        let rest = pairs_values(pairs.drop_last(), k);
        if pairs.last().0 == k {
            rest.push(pairs.last().1)
        } else {
            rest
        }
    }
}

/// What a table built by appending `pairs` in order answers for `k`: the
/// key's values when it occurs, nothing when it does not.
pub open spec fn accumulated_lookup(
    pairs: Seq<(Seq<char>, Seq<char>)>,
    k: Seq<char>,
) -> Option<Seq<Seq<char>>> {
    if pairs_values(pairs, k).len() > 0 {
        Some(pairs_values(pairs, k))
    } else {
        None
    }
}

pub proof fn lemma_pairs_values_push(
    pairs: Seq<(Seq<char>, Seq<char>)>,
    p: (Seq<char>, Seq<char>),
    k: Seq<char>,
)
    ensures
        pairs_values(pairs.push(p), k) == if p.0 == k {
            pairs_values(pairs, k).push(p.1)
        } else {
            pairs_values(pairs, k)
        },
{
    assert(pairs.push(p).drop_last() =~= pairs);
    assert(pairs.push(p).last() == p);
}

/// Appending one pair to a table that answers like `done` makes it answer
/// like `done.push(p)`.
pub proof fn lemma_accumulate_step(
    t_old: MultiValueTable,
    t_new: MultiValueTable,
    done: Seq<(Seq<char>, Seq<char>)>,
    p: (Seq<char>, Seq<char>),
)
    requires
        forall|k: Seq<char>| #[trigger] t_old.lookup(k) == accumulated_lookup(done, k),
        t_new.lookup(p.0) == Some(t_old.values_of(p.0).push(p.1)),
        forall|k: Seq<char>| k != p.0 ==> #[trigger] t_new.lookup(k) == t_old.lookup(k),
    ensures
        forall|k: Seq<char>| #[trigger] t_new.lookup(k) == accumulated_lookup(done.push(p), k),
{
    assert forall|k: Seq<char>| #[trigger] t_new.lookup(k) == accumulated_lookup(done.push(p), k)
        by {
        lemma_pairs_values_push(done, p, k);
        if k == p.0 {
            assert(t_old.lookup(k) == accumulated_lookup(done, k));
            if pairs_values(done, k).len() > 0 {
                assert(t_old.values_of(k) == pairs_values(done, k));
            } else {
                assert(t_old.values_of(k) =~= Seq::<Seq<char>>::empty());
                assert(t_old.values_of(k).push(p.1) =~= pairs_values(done, k).push(p.1));
            }
        } else {
            assert(t_new.lookup(k) == t_old.lookup(k));
        }
    }
}

/// When no entry holds `k`, lookup yields nothing.
proof fn lemma_table_lookup_absent(entries: Seq<(String, Vec<String>)>, k: Seq<char>)
    requires
        forall|j: int| 0 <= j < entries.len() ==> (#[trigger] entries[j].0@) != k,
    ensures
        table_lookup(entries, k) is None,
    decreases entries.len(),
{
    if entries.len() > 0 {
        lemma_table_lookup_absent(entries.drop_first(), k);
    }
}

/// When lookup yields nothing, no entry holds `k`.
proof fn lemma_table_lookup_none_implies_absent(entries: Seq<(String, Vec<String>)>, k: Seq<char>)
    requires
        table_lookup(entries, k) is None,
    ensures
        forall|j: int| 0 <= j < entries.len() ==> (#[trigger] entries[j].0@) != k,
    decreases entries.len(),
{
    if entries.len() > 0 {
        lemma_table_lookup_none_implies_absent(entries.drop_first(), k);
        assert forall|j: int| 0 <= j < entries.len() implies (#[trigger] entries[j].0@) != k by {
            if j > 0 {
                assert(entries.drop_first()[j - 1] == entries[j]);
            }
        }
    }
}

/// When entry `i` is the first holding `k`, lookup yields its values.
proof fn lemma_table_lookup_found(entries: Seq<(String, Vec<String>)>, i: int, k: Seq<char>)
    requires
        0 <= i < entries.len(),
        entries[i].0@ == k,
        forall|j: int| 0 <= j < i ==> entries[j].0@ != k,
    ensures
        table_lookup(entries, k) == Some(entries[i].1.deep_view()),
    decreases i,
{
    if i > 0 {
        lemma_table_lookup_found(entries.drop_first(), i - 1, k);
    }
}

/// Updating the value list of the entry at `i` changes lookup only for its
/// key.
proof fn lemma_table_lookup_update(
    a: Seq<(String, Vec<String>)>,
    b: Seq<(String, Vec<String>)>,
    i: int,
    k: Seq<char>,
)
    requires
        0 <= i < a.len(),
        b.len() == a.len(),
        forall|j: int| 0 <= j < a.len() && j != i ==> b[j] == a[j],
        b[i].0@ == a[i].0@,
        a[i].0@ == k,
        forall|j: int| 0 <= j < i ==> a[j].0@ != k,
    ensures
        table_lookup(b, k) == Some(b[i].1.deep_view()),
        forall|k2: Seq<char>| k2 != k ==> table_lookup(b, k2) == table_lookup(a, k2),
    decreases a.len(),
{
    lemma_table_lookup_found(b, i, k);
    assert forall|k2: Seq<char>| k2 != k implies table_lookup(b, k2) == table_lookup(a, k2) by {
        lemma_table_lookup_skip_update(a, b, i, k2);
    }
}

proof fn lemma_table_lookup_skip_update(
    a: Seq<(String, Vec<String>)>,
    b: Seq<(String, Vec<String>)>,
    i: int,
    k2: Seq<char>,
)
    requires
        0 <= i < a.len(),
        b.len() == a.len(),
        forall|j: int| 0 <= j < a.len() && j != i ==> b[j] == a[j],
        b[i].0@ == a[i].0@,
        a[i].0@ != k2,
    ensures
        table_lookup(b, k2) == table_lookup(a, k2),
    decreases a.len(),
{
    if a.len() > 0 {
        if i == 0 {
            lemma_table_lookup_same(a.drop_first(), b.drop_first(), k2);
        } else {
            assert(a[0] == b[0]);
            if a[0].0@ != k2 {
                lemma_table_lookup_skip_update(a.drop_first(), b.drop_first(), i - 1, k2);
            }
        }
    }
}

proof fn lemma_table_lookup_same(
    a: Seq<(String, Vec<String>)>,
    b: Seq<(String, Vec<String>)>,
    k: Seq<char>,
)
    requires
        a =~= b,
    ensures
        table_lookup(b, k) == table_lookup(a, k),
{
}

/// Pushing a fresh key to the end adds it and leaves other keys unchanged.
proof fn lemma_table_lookup_append(
    a: Seq<(String, Vec<String>)>,
    b: Seq<(String, Vec<String>)>,
    k: Seq<char>,
    values: Vec<String>,
)
    requires
        b.len() == a.len() + 1,
        forall|j: int| 0 <= j < a.len() ==> b[j] == a[j],
        b[a.len() as int].0@ == k,
        b[a.len() as int].1 == values,
        forall|j: int| 0 <= j < a.len() ==> a[j].0@ != k,
    ensures
        table_lookup(b, k) == Some(values.deep_view()),
        forall|k2: Seq<char>| k2 != k ==> table_lookup(b, k2) == table_lookup(a, k2),
    decreases a.len(),
{
    lemma_table_lookup_found(b, a.len() as int, k);
    assert forall|k2: Seq<char>| k2 != k implies table_lookup(b, k2) == table_lookup(a, k2) by {
        lemma_table_lookup_push_other(a, b, k2);
    }
}

proof fn lemma_table_lookup_push_other(
    a: Seq<(String, Vec<String>)>,
    b: Seq<(String, Vec<String>)>,
    k2: Seq<char>,
)
    requires
        b.len() == a.len() + 1,
        forall|j: int| 0 <= j < a.len() ==> b[j] == a[j],
        b[a.len() as int].0@ != k2,
    ensures
        table_lookup(b, k2) == table_lookup(a, k2),
    decreases a.len(),
{
    if a.len() == 0 {
    } else {
        assert(a[0] == b[0]);
        if a[0].0@ != k2 {
            lemma_table_lookup_push_other(a.drop_first(), b.drop_first(), k2);
        }
    }
}

} // verus!
