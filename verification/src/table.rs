//! A table from text keys to values.

use vstd::prelude::*;

use crate::text::same;

verus! {

/// A finite map from text to `V`. Each key occurs once.
#[derive(Debug)]
pub struct Table<V> {
    entries: Vec<(String, V)>,
}

spec fn distinct<V>(entries: Seq<(String, V)>) -> bool {
    forall|i: int, j: int|
        #![trigger entries[i], entries[j]]
        0 <= i < j < entries.len() ==> entries[i].0@ != entries[j].0@
}

spec fn as_map<V>(entries: Seq<(String, V)>) -> Map<Seq<char>, V>
    decreases entries.len(),
{
    if entries.len() == 0 {
        Map::empty()
    } else {
        as_map(entries.drop_last()).insert(entries.last().0@, entries.last().1)
    }
}

proof fn lemma_as_map<V>(entries: Seq<(String, V)>)
    requires
        distinct(entries),
    ensures
        forall|i: int|
            0 <= i < entries.len() ==> {
                &&& as_map(entries).contains_key((#[trigger] entries[i]).0@)
                &&& as_map(entries)[entries[i].0@] == entries[i].1
            },
        forall|k: Seq<char>|
            as_map(entries).contains_key(k) ==> exists|i: int|
                0 <= i < entries.len() && (#[trigger] entries[i]).0@ == k,
        as_map(entries).dom().finite(),
        as_map(entries).dom().len() == entries.len(),
    decreases entries.len(),
{
    if entries.len() > 0 {
        let front = entries.drop_last();
        let n = front.len() as int;
        assert(forall|i: int| 0 <= i < n ==> front[i] == entries[i]);
        lemma_as_map(front);
        assert(entries.last() == entries[n]);
        assert forall|i: int| 0 <= i < entries.len() implies {
            &&& as_map(entries).contains_key((#[trigger] entries[i]).0@)
            &&& as_map(entries)[entries[i].0@] == entries[i].1
        } by {
            if i < n {
                assert(front[i] == entries[i]);
                assert(entries[i].0@ != entries[n].0@);
            }
        }
        assert forall|k: Seq<char>| as_map(entries).contains_key(k) implies exists|i: int|
            0 <= i < entries.len() && (#[trigger] entries[i]).0@ == k by {
            if k == entries[n].0@ {
                assert(entries[n].0@ == k);
            } else {
                assert(as_map(front).contains_key(k));
                let i = choose|i: int| 0 <= i < front.len() && (#[trigger] front[i]).0@ == k;
                assert(entries[i].0@ == k);
            }
        }
        assert(!as_map(front).contains_key(entries[n].0@)) by {
            if as_map(front).contains_key(entries[n].0@) {
                let i = choose|i: int|
                    0 <= i < front.len() && (#[trigger] front[i]).0@ == entries[n].0@;
                assert(entries[i].0@ == entries[n].0@);
            }
        }
    }
}

impl<V> View for Table<V> {
    type V = Map<Seq<char>, V>;

    closed spec fn view(&self) -> Map<Seq<char>, V> {
        as_map(self.entries@)
    }
}

impl<V> Table<V> {
    #[verifier::type_invariant]
    spec fn well_formed(self) -> bool {
        distinct(self.entries@)
    }

    /// A table without entries.
    pub fn new() -> (r: Self)
        ensures
            r@ == Map::<Seq<char>, V>::empty(),
    {
        Table { entries: Vec::new() }
    }

    /// The index of the entry of `key`, or the number of entries.
    fn index_of(&self, key: &str) -> (r: usize)
        ensures
            r <= self.entries@.len(),
            r < self.entries@.len() ==> self.entries@[r as int].0@ == key@,
            r < self.entries@.len() <==> self@.contains_key(key@),
            r < self.entries@.len() ==> self@[key@] == self.entries@[r as int].1,
    {
        proof {
            use_type_invariant(self);
            lemma_as_map(self.entries@);
        }
        let mut i: usize = 0;
        while i < self.entries.len()
            invariant
                i <= self.entries.len(),
                forall|k: int| 0 <= k < i ==> (#[trigger] self.entries@[k]).0@ != key@,
            decreases self.entries.len() - i,
        {
            if same(self.entries[i].0.as_str(), key) {
                proof {
                    use_type_invariant(self);
                    lemma_as_map(self.entries@);
                }
                return i;
            }
            i = i + 1;
        }
        i
    }

    /// The value of `key`, where the table has one.
    pub fn get(&self, key: &str) -> (r: Option<&V>)
        ensures
            r == (if self@.contains_key(key@) {
                Some(&self@[key@])
            } else {
                None::<&V>
            }),
    {
        let i: usize = self.index_of(key);
        if i < self.entries.len() {
            Some(&self.entries[i].1)
        } else {
            None
        }
    }

    /// Whether the table has an entry for `key`.
    pub fn contains_key(&self, key: &str) -> (r: bool)
        ensures
            r == self@.contains_key(key@),
    {
        self.index_of(key) < self.entries.len()
    }

    /// The number of entries.
    pub fn len(&self) -> (r: usize)
        ensures
            self@.dom().finite(),
            r == self@.dom().len(),
    {
        proof {
            use_type_invariant(self);
            lemma_as_map(self.entries@);
        }
        self.entries.len()
    }

    /// Makes `value` the value of `key` and hands back the one it replaces.
    pub fn insert(&mut self, key: String, value: V) -> (r: Option<V>)
        ensures
            final(self)@ == old(self)@.insert(key@, value),
            r == (if old(self)@.contains_key(key@) {
                Some(old(self)@[key@])
            } else {
                None::<V>
            }),
    {
        let previous: Option<V> = self.remove(key.as_str());
        proof {
            use_type_invariant(&*self);
            lemma_as_map(self.entries@);
        }
        let mut entries: Vec<(String, V)> = Vec::new();
        std::mem::swap(&mut entries, &mut self.entries);
        let ghost before = entries@;
        entries.push((key, value));
        proof {
            assert(entries@.drop_last() =~= before);
            assert(distinct(entries@)) by {
                assert forall|i: int, j: int|
                    #![trigger entries@[i], entries@[j]]
                    0 <= i < j < entries@.len() implies entries@[i].0@ != entries@[j].0@ by {
                    assert(entries@[i] == before[i]);
                    if j < before.len() {
                        assert(entries@[j] == before[j]);
                    }
                }
            }
            assert(as_map(before).insert(key@, value) =~= old(self)@.insert(key@, value));
        }
        self.entries = entries;
        previous
    }

    /// Takes the entry of `key` out and hands back its value.
    pub fn remove(&mut self, key: &str) -> (r: Option<V>)
        ensures
            final(self)@ == old(self)@.remove(key@),
            r == (if old(self)@.contains_key(key@) {
                Some(old(self)@[key@])
            } else {
                None::<V>
            }),
    {
        proof {
            use_type_invariant(&*self);
            lemma_as_map(self.entries@);
        }
        let at: usize = self.index_of(key);
        if at >= self.entries.len() {
            assert(old(self)@.remove(key@) =~= old(self)@);
            return None;
        }
        let mut entries: Vec<(String, V)> = Vec::new();
        std::mem::swap(&mut entries, &mut self.entries);
        let ghost before = entries@;
        let taken: (String, V) = entries.remove(at);
        proof {
            lemma_remove(before, at as int);
        }
        self.entries = entries;
        Some(taken.1)
    }

    /// The keys, each once, in no stated order.
    pub fn keys(&self) -> (r: Vec<String>)
        ensures
            forall|k: Seq<char>| #[trigger]
                self@.contains_key(k) <==> exists|i: int|
                    0 <= i < r@.len() && (#[trigger] r@[i])@ == k,
            forall|i: int, j: int|
                #![trigger r@[i], r@[j]]
                0 <= i < j < r@.len() ==> r@[i]@ != r@[j]@,
            r@.len() == self@.dom().len(),
    {
        proof {
            use_type_invariant(self);
            lemma_as_map(self.entries@);
        }
        let mut out: Vec<String> = Vec::new();
        let mut i: usize = 0;
        while i < self.entries.len()
            invariant
                i <= self.entries.len(),
                out@.len() == i,
                forall|k: int| 0 <= k < i ==> (#[trigger] out@[k])@ == self.entries@[k].0@,
            decreases self.entries.len() - i,
        {
            out.push(self.entries[i].0.clone());
            i = i + 1;
        }
        proof {
            assert forall|k: Seq<char>| #[trigger] self@.contains_key(k) implies exists|i: int|
                0 <= i < out@.len() && (#[trigger] out@[i])@ == k by {
                let i = choose|i: int|
                    0 <= i < self.entries@.len() && (#[trigger] self.entries@[i]).0@ == k;
                assert(out@[i]@ == k);
            }
            assert forall|k: Seq<char>|
                (exists|i: int| 0 <= i < out@.len() && (#[trigger] out@[i])@ == k)
                implies #[trigger] self@.contains_key(k) by {
                let i = choose|i: int| 0 <= i < out@.len() && (#[trigger] out@[i])@ == k;
                assert(self.entries@[i].0@ == k);
            }
            assert forall|i: int, j: int|
                #![trigger out@[i], out@[j]]
                0 <= i < j < out@.len() implies out@[i]@ != out@[j]@ by {
                assert(self.entries@[i].0@ != self.entries@[j].0@);
            }
        }
        out
    }
}

/// `m` without the entries whose values are in `gone`.
pub open spec fn dropped<V>(m: Map<Seq<char>, V>, gone: spec_fn(V) -> bool) -> Map<Seq<char>, V> {
    Map::new(|k: Seq<char>| m.contains_key(k) && !gone(m[k]), |k: Seq<char>| m[k])
}

/// Whether `taken` lists the entries of `m` whose values are in `gone`, each once.
pub open spec fn lists<V>(
    taken: Seq<(String, V)>,
    m: Map<Seq<char>, V>,
    gone: spec_fn(V) -> bool,
) -> bool {
    &&& forall|i: int|
        0 <= i < taken.len() ==> {
            &&& m.contains_key((#[trigger] taken[i]).0@)
            &&& m[taken[i].0@] == taken[i].1
            &&& gone(taken[i].1)
        }
    &&& forall|i: int, j: int|
        #![trigger taken[i], taken[j]]
        0 <= i < j < taken.len() ==> taken[i].0@ != taken[j].0@
    &&& forall|k: Seq<char>|
        m.contains_key(k) && gone(m[k]) ==> exists|i: int|
            0 <= i < taken.len() && (#[trigger] taken[i]).0@ == k
}

impl<V> Table<V> {
    /// Takes out the entries whose values `f` picks and hands them out, in no
    /// stated order. `gone` says which values those are.
    pub(crate) fn extract_if<F: Fn(&V) -> bool>(
        &mut self,
        f: F,
        Ghost(gone): Ghost<spec_fn(V) -> bool>,
    ) -> (r: Vec<(String, V)>)
        requires
            forall|v: V| #[trigger] f.requires((&v,)),
            forall|v: V, b: bool| #[trigger] f.ensures((&v,), b) ==> b == gone(v),
        ensures
            final(self)@ == dropped(old(self)@, gone),
            lists(r@, old(self)@, gone),
            final(self)@.dom().finite(),
            old(self)@.dom().finite(),
            r@.len() + final(self)@.dom().len() == old(self)@.dom().len(),
    {
        let _n: usize = self.len();
        let keys: Vec<String> = self.keys();
        let ghost m = self@;
        let mut out: Vec<(String, V)> = Vec::new();
        let mut i: usize = 0;
        while i < keys.len()
            invariant
                forall|v: V| #[trigger] f.requires((&v,)),
                forall|v: V, b: bool| #[trigger] f.ensures((&v,), b) ==> b == gone(v),
                i <= keys.len(),
                m == old(self)@,
                m.dom().finite(),
                self@.dom().finite(),
                out@.len() + self@.dom().len() == m.dom().len(),
                forall|k: Seq<char>| #[trigger]
                    m.contains_key(k) <==> exists|j: int|
                        0 <= j < keys@.len() && (#[trigger] keys@[j])@ == k,
                forall|a: int, b: int|
                    #![trigger keys@[a], keys@[b]]
                    0 <= a < b < keys@.len() ==> keys@[a]@ != keys@[b]@,
                forall|k: Seq<char>| #[trigger] self@.contains_key(k) ==> m.contains_key(k),
                forall|k: Seq<char>| #[trigger] self@.contains_key(k) ==> self@[k] == m[k],
                forall|j: int|
                    i <= j < keys@.len() ==> self@.contains_key((#[trigger] keys@[j])@),
                forall|j: int|
                    0 <= j < i ==> self@.contains_key((#[trigger] keys@[j])@) == !gone(
                        m[keys@[j]@],
                    ),
                forall|j: int|
                    0 <= j < out@.len() ==> {
                        &&& m.contains_key((#[trigger] out@[j]).0@)
                        &&& m[out@[j].0@] == out@[j].1
                        &&& gone(out@[j].1)
                        &&& !self@.contains_key(out@[j].0@)
                    },
                forall|a: int, b: int|
                    #![trigger out@[a], out@[b]]
                    0 <= a < b < out@.len() ==> out@[a].0@ != out@[b].0@,
                forall|j: int|
                    0 <= j < i && gone(m[keys@[j]@]) ==> exists|a: int|
                        0 <= a < out@.len() && (#[trigger] out@[a]).0@ == (#[trigger] keys@[j])@,
            decreases keys.len() - i,
        {
            let ghost k0 = keys@[i as int]@;
            assert(self@.contains_key(k0));
            let pick: bool = match self.get(keys[i].as_str()) {
                Some(v) => f(v),
                None => false,
            };
            assert(pick == gone(m[k0]));
            if pick {
                let ghost before = out@;
                if let Some(v) = self.remove(keys[i].as_str()) {
                    out.push((keys[i].clone(), v));
                    proof {
                        assert forall|j: int|
                            0 <= j <= i && gone(m[keys@[j]@]) implies exists|a: int|
                            0 <= a < out@.len() && (#[trigger] out@[a]).0@ == (
                            #[trigger] keys@[j])@ by {
                            if j < i {
                                let a = choose|a: int|
                                    0 <= a < before.len() && (#[trigger] before[a]).0@
                                        == keys@[j]@;
                                assert(out@[a].0@ == keys@[j]@);
                            } else {
                                assert(out@[before.len() as int].0@ == keys@[j]@);
                            }
                        }
                    }
                }
            }
            i = i + 1;
        }
        proof {
            assert forall|k: Seq<char>|
                m.contains_key(k) && gone(m[k]) implies exists|a: int|
                0 <= a < out@.len() && (#[trigger] out@[a]).0@ == k by {
                let j = choose|j: int| 0 <= j < keys@.len() && (#[trigger] keys@[j])@ == k;
                assert(gone(m[keys@[j]@]));
            }
            assert forall|k: Seq<char>| #[trigger]
                self@.contains_key(k) == dropped(m, gone).contains_key(k) by {
                if m.contains_key(k) {
                    let j = choose|j: int| 0 <= j < keys@.len() && (#[trigger] keys@[j])@ == k;
                    assert(self@.contains_key(keys@[j]@) == !gone(m[keys@[j]@]));
                }
            }
            assert(self@ =~= dropped(m, gone));
        }
        out
    }
}

proof fn lemma_remove<V>(entries: Seq<(String, V)>, at: int)
    requires
        distinct(entries),
        0 <= at < entries.len(),
    ensures
        distinct(entries.remove(at)),
        as_map(entries.remove(at)) == as_map(entries).remove(entries[at].0@),
{
    let rest = entries.remove(at);
    assert forall|i: int, j: int|
        #![trigger rest[i], rest[j]]
        0 <= i < j < rest.len() implies rest[i].0@ != rest[j].0@ by {
        let x = if i < at {
            i
        } else {
            i + 1
        };
        let y = if j < at {
            j
        } else {
            j + 1
        };
        assert(rest[i] == entries[x]);
        assert(rest[j] == entries[y]);
    }
    lemma_as_map(entries);
    lemma_as_map(rest);
    let want = as_map(entries).remove(entries[at].0@);
    assert forall|k: Seq<char>| as_map(rest).contains_key(k) == want.contains_key(k) by {
        if as_map(rest).contains_key(k) {
            let i = choose|i: int| 0 <= i < rest.len() && (#[trigger] rest[i]).0@ == k;
            let x = if i < at {
                i
            } else {
                i + 1
            };
            assert(rest[i] == entries[x]);
            assert(entries[x].0@ != entries[at].0@);
        }
        if want.contains_key(k) {
            let x = choose|x: int| 0 <= x < entries.len() && (#[trigger] entries[x]).0@ == k;
            let i = if x < at {
                x
            } else {
                x - 1
            };
            assert(rest[i] == entries[x]);
        }
    }
    assert forall|k: Seq<char>| as_map(rest).contains_key(k) implies as_map(rest)[k] == want[k] by {
        let i = choose|i: int| 0 <= i < rest.len() && (#[trigger] rest[i]).0@ == k;
        let x = if i < at {
            i
        } else {
            i + 1
        };
        assert(rest[i] == entries[x]);
    }
    assert(as_map(rest) =~= want);
}

/// What is left once some entries were taken out: exactly the others, unchanged.
pub proof fn law_dropping_spares_the_others<V>(
    m: Map<Seq<char>, V>,
    gone: spec_fn(V) -> bool,
    k: Seq<char>,
)
    ensures
        dropped(m, gone).contains_key(k) <==> m.contains_key(k) && !gone(m[k]),
        dropped(m, gone).contains_key(k) ==> dropped(m, gone)[k] == m[k],
{
}

/// What is listed as taken out is what was taken out: each listed entry was there and is
/// left no more, and each entry that is left no more is listed.
pub proof fn law_listed_entries_are_the_dropped_ones<V>(
    taken: Seq<(String, V)>,
    m: Map<Seq<char>, V>,
    gone: spec_fn(V) -> bool,
    k: Seq<char>,
)
    requires
        lists(taken, m, gone),
    ensures
        (exists|i: int| 0 <= i < taken.len() && (#[trigger] taken[i]).0@ == k) <==> m.contains_key(k)
            && !dropped(m, gone).contains_key(k),
        forall|i: int|
            0 <= i < taken.len() && (#[trigger] taken[i]).0@ == k ==> m[k] == taken[i].1,
{
}

} // verus!
