//! A map keyed by strings, kept as a list of entries with distinct keys.
use vstd::prelude::*;
use vstd::string::*;
use crate::json::string_views;
use crate::text::str_eq;

verus! {

/// A finite map from strings to values; its view maps each key's characters to the
/// view of its value.
pub struct StrMap<V: DeepView> {
    entries: Vec<(String, V)>,
}

/// The map that a list of entries stands for; later entries win (with distinct keys
/// no entry is shadowed).
pub open spec fn entries_view<V: DeepView>(s: Seq<(String, V)>) -> Map<Seq<char>, V::V>
    decreases s.len(),
{
    if s.len() == 0 {
        Map::empty()
    } else {
        entries_view(s.drop_last()).insert(s.last().0@, s.last().1.deep_view())
    }
}

/// No two entries share a key.
pub open spec fn keys_distinct<V>(s: Seq<(String, V)>) -> bool {
    forall|i: int, j: int| 0 <= i < s.len() && 0 <= j < s.len() && i != j ==> s[i].0@ != s[j].0@
}

proof fn lemma_dom_has<V: DeepView>(s: Seq<(String, V)>, i: int)
    requires
        0 <= i < s.len(),
    ensures
        entries_view(s).dom().contains(s[i].0@),
    decreases s.len(),
{
    if i < s.len() - 1 {
        lemma_dom_has(s.drop_last(), i);
    }
}

proof fn lemma_dom_only<V: DeepView>(s: Seq<(String, V)>, k: Seq<char>)
    requires
        entries_view(s).dom().contains(k),
    ensures
        exists|i: int| 0 <= i < s.len() && s[i].0@ == k,
    decreases s.len(),
{
    if s.last().0@ != k {
        lemma_dom_only(s.drop_last(), k);
        let i = choose|i: int| 0 <= i < s.drop_last().len() && s.drop_last()[i].0@ == k;
        assert(s[i].0@ == k);
    } else {
        assert(s[s.len() - 1].0@ == k);
    }
}

proof fn lemma_value_at<V: DeepView>(s: Seq<(String, V)>, i: int)
    requires
        0 <= i < s.len(),
        keys_distinct(s),
    ensures
        entries_view(s)[s[i].0@] == s[i].1.deep_view(),
    decreases s.len(),
{
    if i < s.len() - 1 {
        assert(s[i].0@ != s[s.len() - 1].0@);
        lemma_value_at(s.drop_last(), i);
    }
}

proof fn lemma_len<V: DeepView>(s: Seq<(String, V)>)
    requires
        keys_distinct(s),
    ensures
        entries_view(s).dom().finite(),
        entries_view(s).dom().len() == s.len(),
    decreases s.len(),
{
    if s.len() > 0 {
        let d = s.drop_last();
        lemma_len(d);
        if entries_view(d).dom().contains(s.last().0@) {
            lemma_dom_only(d, s.last().0@);
            let i = choose|i: int| 0 <= i < d.len() && d[i].0@ == s.last().0@;
            assert(s[i].0@ == s[s.len() - 1].0@);
        }
    }
}

/// The entries `s` with entry `i` replaced by one of the same key stand for the old
/// map with that key bound to the new value.
proof fn lemma_update<V: DeepView>(s: Seq<(String, V)>, i: int, e: (String, V))
    requires
        0 <= i < s.len(),
        keys_distinct(s),
        e.0@ == s[i].0@,
    ensures
        keys_distinct(s.update(i, e)),
        entries_view(s.update(i, e)) == entries_view(s).insert(e.0@, e.1.deep_view()),
{
    let t = s.update(i, e);
    assert(keys_distinct(t)) by {
        assert forall|a: int, b: int| 0 <= a < t.len() && 0 <= b < t.len() && a != b implies t[a].0@
            != t[b].0@ by {
            assert(t[a].0@ == s[a].0@);
            assert(t[b].0@ == s[b].0@);
        }
    }
    let m = entries_view(s).insert(e.0@, e.1.deep_view());
    assert forall|k: Seq<char>| #[trigger] entries_view(t).dom().contains(k) == m.dom().contains(k) by {
        if entries_view(t).dom().contains(k) {
            lemma_dom_only(t, k);
            let j = choose|j: int| 0 <= j < t.len() && t[j].0@ == k;
            lemma_dom_has(s, j);
        }
        if m.dom().contains(k) {
            if k == e.0@ {
                lemma_dom_has(t, i);
            } else {
                lemma_dom_only(s, k);
                let j = choose|j: int| 0 <= j < s.len() && s[j].0@ == k;
                lemma_dom_has(t, j);
            }
        }
    }
    assert forall|k: Seq<char>| #[trigger] entries_view(t).dom().contains(k) implies entries_view(
        t,
    )[k] == m[k] by {
        lemma_dom_only(t, k);
        let j = choose|j: int| 0 <= j < t.len() && t[j].0@ == k;
        lemma_value_at(t, j);
        if j != i {
            lemma_value_at(s, j);
        }
    }
    assert(entries_view(t) =~= m);
}

/// Removing entry `i` removes its key from the map.
proof fn lemma_remove<V: DeepView>(s: Seq<(String, V)>, i: int)
    requires
        0 <= i < s.len(),
        keys_distinct(s),
    ensures
        keys_distinct(s.remove(i)),
        entries_view(s.remove(i)) == entries_view(s).remove(s[i].0@),
{
    let t = s.remove(i);
    let k0 = s[i].0@;
    assert forall|j: int| 0 <= j < t.len() implies #[trigger] t[j] == s[if j < i {
        j
    } else {
        j + 1
    }] by {}
    assert(keys_distinct(t)) by {
        assert forall|a: int, b: int| 0 <= a < t.len() && 0 <= b < t.len() && a != b implies t[a].0@
            != t[b].0@ by {
            let a2 = if a < i {
                a
            } else {
                a + 1
            };
            let b2 = if b < i {
                b
            } else {
                b + 1
            };
            assert(t[a] == s[a2]);
            assert(t[b] == s[b2]);
        }
    }
    let m = entries_view(s).remove(k0);
    assert forall|k: Seq<char>| #[trigger] entries_view(t).dom().contains(k) == m.dom().contains(k) by {
        if entries_view(t).dom().contains(k) {
            lemma_dom_only(t, k);
            let j = choose|j: int| 0 <= j < t.len() && t[j].0@ == k;
            let j2 = if j < i {
                j
            } else {
                j + 1
            };
            assert(t[j] == s[j2]);
            lemma_dom_has(s, j2);
        }
        if m.dom().contains(k) {
            lemma_dom_only(s, k);
            let j = choose|j: int| 0 <= j < s.len() && s[j].0@ == k;
            let j2 = if j < i {
                j
            } else {
                j - 1
            };
            assert(t[j2] == s[j]);
            lemma_dom_has(t, j2);
        }
    }
    assert forall|k: Seq<char>| #[trigger] entries_view(t).dom().contains(k) implies entries_view(
        t,
    )[k] == m[k] by {
        lemma_dom_only(t, k);
        let j = choose|j: int| 0 <= j < t.len() && t[j].0@ == k;
        let j2 = if j < i {
            j
        } else {
            j + 1
        };
        assert(t[j] == s[j2]);
        lemma_value_at(t, j);
        lemma_value_at(s, j2);
    }
    assert(entries_view(t) =~= m);
}

impl<V: DeepView> View for StrMap<V> {
    type V = Map<Seq<char>, V::V>;

    closed spec fn view(&self) -> Map<Seq<char>, V::V> {
        entries_view(self.entries@)
    }
}

impl<V: DeepView> DeepView for StrMap<V> {
    type V = Map<Seq<char>, V::V>;

    open spec fn deep_view(&self) -> Map<Seq<char>, V::V> {
        self@
    }
}

impl<V: DeepView> StrMap<V> {
    #[verifier::type_invariant]
    closed spec fn well_formed(self) -> bool {
        keys_distinct(self.entries@)
    }

    /// The empty map.
    pub fn new() -> (r: Self)
        ensures
            r@ == Map::<Seq<char>, V::V>::empty(),
    {
        StrMap { entries: Vec::new() }
    }

    fn find(&self, k: &str) -> (r: Option<usize>)
        ensures
            r matches Some(i) ==> i < self.entries@.len() && self.entries@[i as int].0@ == k@
                && self@.dom().contains(k@),
            r is None ==> !self@.dom().contains(k@),
    {
        let n = self.entries.len();
        let mut i: usize = 0;
        while i < n
            invariant
                n == self.entries@.len(),
                i <= n,
                forall|j: int| 0 <= j < i ==> self.entries@[j].0@ != k@,
            decreases n - i,
        {
            if str_eq(self.entries[i].0.as_str(), k) {
                proof {
                    lemma_dom_has(self.entries@, i as int);
                }
                return Some(i);
            }
            i = i + 1;
        }
        proof {
            if self@.dom().contains(k@) {
                lemma_dom_only(self.entries@, k@);
            }
        }
        None
    }

    /// The number of keys.
    pub fn len(&self) -> (r: usize)
        ensures
            r == self@.len(),
            self@.dom().finite(),
    {
        proof {
            use_type_invariant(self);
            lemma_len(self.entries@);
        }
        self.entries.len()
    }

    /// Whether `k` is a key.
    pub fn contains_key(&self, k: &str) -> (r: bool)
        ensures
            r == self@.dom().contains(k@),
    {
        self.find(k).is_some()
    }

    /// The value bound to `k`, if any.
    pub fn get(&self, k: &str) -> (r: Option<&V>)
        ensures
            r matches Some(v) ==> self@.dom().contains(k@) && v.deep_view() == self@[k@],
            r is None ==> !self@.dom().contains(k@),
    {
        proof {
            use_type_invariant(self);
        }
        match self.find(k) {
            Some(i) => {
                proof {
                    lemma_value_at(self.entries@, i as int);
                }
                Some(&self.entries[i].1)
            },
            None => None,
        }
    }

    /// Binds `k` to `v`, replacing any earlier value.
    pub fn insert(&mut self, k: String, v: V)
        ensures
            final(self)@ == old(self)@.insert(k@, v.deep_view()),
    {
        proof {
            use_type_invariant(&*self);
        }
        match self.find(k.as_str()) {
            Some(i) => {
                proof {
                    lemma_update(self.entries@, i as int, (k, v));
                }
                let mut entries: Vec<(String, V)> = Vec::new();
                std::mem::swap(&mut entries, &mut self.entries);
                entries.set(i, (k, v));
                self.entries = entries;
            },
            None => {
                let ghost old_entries = self.entries@;
                proof {
                    assert forall|j: int| 0 <= j < old_entries.len() implies old_entries[j].0@ != k@ by {
                        lemma_dom_has(old_entries, j);
                    }
                }
                let mut entries: Vec<(String, V)> = Vec::new();
                std::mem::swap(&mut entries, &mut self.entries);
                entries.push((k, v));
                assert(entries@.drop_last() =~= old_entries);
                self.entries = entries;
            },
        }
    }

    /// Removes `k` and hands back its value, if it was bound.
    pub fn remove(&mut self, k: &str) -> (r: Option<V>)
        ensures
            final(self)@ == old(self)@.remove(k@),
            r matches Some(v) ==> old(self)@.dom().contains(k@) && v.deep_view() == old(self)@[k@],
            r is None ==> !old(self)@.dom().contains(k@),
    {
        proof {
            use_type_invariant(&*self);
        }
        match self.find(k) {
            Some(i) => {
                proof {
                    lemma_remove(self.entries@, i as int);
                    lemma_value_at(self.entries@, i as int);
                }
                let mut entries: Vec<(String, V)> = Vec::new();
                std::mem::swap(&mut entries, &mut self.entries);
                let (_key, v) = entries.remove(i);
                self.entries = entries;
                Some(v)
            },
            None => {
                assert(old(self)@.remove(k@) =~= old(self)@);
                None
            },
        }
    }

    /// The keys, each once, in no promised order.
    pub fn keys(&self) -> (r: Vec<String>)
        ensures
            string_views(r@).no_duplicates(),
            string_views(r@).to_set() == self@.dom(),
            r@.len() == self@.len(),
    {
        proof {
            use_type_invariant(self);
            lemma_len(self.entries@);
        }
        let n = self.entries.len();
        let mut out: Vec<String> = Vec::new();
        let mut i: usize = 0;
        while i < n
            invariant
                n == self.entries@.len(),
                keys_distinct(self.entries@),
                i <= n,
                out@.len() == i,
                forall|j: int| 0 <= j < i ==> #[trigger] out@[j]@ == self.entries@[j].0@,
            decreases n - i,
        {
            out.push(self.entries[i].0.clone());
            i = i + 1;
        }
        let ghost views = string_views(out@);
        assert(views.no_duplicates()) by {
            assert forall|a: int, b: int|
                0 <= a < views.len() && 0 <= b < views.len() && a != b implies views[a] != views[b] by {
                assert(views[a] == self.entries@[a].0@);
                assert(views[b] == self.entries@[b].0@);
            }
        }
        assert forall|k: Seq<char>| #[trigger] views.to_set().contains(k) == self@.dom().contains(k) by {
            if views.to_set().contains(k) {
                let j = choose|j: int| 0 <= j < views.len() && views[j] == k;
                assert(views[j] == self.entries@[j].0@);
                lemma_dom_has(self.entries@, j);
            }
            if self@.dom().contains(k) {
                lemma_dom_only(self.entries@, k);
                let j = choose|j: int| 0 <= j < self.entries@.len() && self.entries@[j].0@ == k;
                assert(views[j] == k);
            }
        }
        assert(views.to_set() =~= self@.dom());
        out
    }
}

} // verus!
