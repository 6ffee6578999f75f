//! Named counters.

use vstd::prelude::*;
use crate::error::Error;
use crate::text::{int_text, render_int};

verus! {

/// One line of a counter listing: the name, a colon and a space, the count,
/// and a line end.
pub open spec fn entry_line(name: Seq<char>, count: i64) -> Seq<char> {
    name + seq![':', ' '] + int_text(count as int) + seq!['\n']
}

/// The lines of the first `n` entries of a listing, one after the other.
pub open spec fn lines_text(entries: Seq<(Seq<char>, i64)>, n: nat) -> Seq<char>
    decreases n,
{
    if n == 0 {
        Seq::empty()
    } else {
        lines_text(entries, (n - 1) as nat) + entry_line(entries[n - 1].0, entries[n - 1].1)
    }
}

/// `entries` lists the counters of `counters`: each counter once, with its
/// count, in some order.
pub open spec fn lists(entries: Seq<(Seq<char>, i64)>, counters: Map<Seq<char>, i64>) -> bool {
    &&& forall|i: int|
        0 <= i < entries.len() ==> counters.contains_key((#[trigger] entries[i]).0)
            && counters[entries[i].0] == entries[i].1
    &&& forall|i: int, j: int|
        0 <= i < entries.len() && 0 <= j < entries.len() && i != j ==> (#[trigger] entries[i]).0
            != (#[trigger] entries[j]).0
    &&& forall|name: Seq<char>| #[trigger]
        counters.contains_key(name) ==> exists|i: int|
            0 <= i < entries.len() && (#[trigger] entries[i]).0 == name
}

/// The names among the first `n` of `names`, each once, in the order in
/// which they first occur.
pub open spec fn first_occurrences(names: Seq<Seq<char>>, n: nat) -> Seq<Seq<char>>
    decreases n,
{
    if n == 0 {
        Seq::empty()
    } else {
        let before = first_occurrences(names, (n - 1) as nat);
        if before.contains(names[n - 1]) {
            before
        } else {
            before.push(names[n - 1])
        }
    }
}

/// The names that were given, as sequences of characters.
pub open spec fn names_of(given: Seq<&'static str>) -> Seq<Seq<char>> {
    Seq::new(given.len(), |i: int| given[i]@)
}

/// A counter at zero under each of `names`.
pub open spec fn zeroed(names: Seq<Seq<char>>) -> Seq<(Seq<char>, i64)> {
    Seq::new(names.len(), |i: int| (names[i], 0i64))
}

/// The count that follows `count`. It wraps round at the end of the range.
pub open spec fn next_count(count: i64) -> i64 {
    count.wrapping_add(1)
}

fn append_line(out: &mut String, name: &str, count: i64)
    ensures
        final(out)@ == old(out)@ + entry_line(name@, count),
{
    proof {
        reveal_strlit(": ");
        reveal_strlit("\n");
    }
    let digits = render_int(count as i128);
    out.append(name);
    out.append(": ");
    out.append(digits.as_str());
    out.append("\n");
    assert(out@ =~= old(out)@ + entry_line(name@, count));
}

/// Counters under a fixed set of names, each starting at zero.
pub struct AmapMetrics {
    names: Vec<String>,
    counts: Vec<i64>,
}

impl AmapMetrics {
    #[verifier::type_invariant]
    spec fn well_formed(self) -> bool {
        &&& self.names@.len() == self.counts@.len()
        &&& forall|i: int, j: int|
            0 <= i < self.names@.len() && 0 <= j < self.names@.len() && i != j
                ==> self.names@[i]@ != self.names@[j]@
    }

    /// The counters in the order in which the store keeps them.
    pub closed spec fn entries(&self) -> Seq<(Seq<char>, i64)> {
        Seq::new(self.names@.len(), |i: int| (self.names@[i]@, self.counts@[i]))
    }

    /// Whether the store holds a counter under `name`.
    pub open spec fn has(&self, name: Seq<char>) -> bool {
        exists|i: int| 0 <= i < self.entries().len() && (#[trigger] self.entries()[i]).0 == name
    }

    /// The count under `name`.
    pub open spec fn count(&self, name: Seq<char>) -> i64 {
        let i = choose|i: int| 0 <= i < self.entries().len() && (#[trigger] self.entries()[i]).0 == name;
        self.entries()[i].1
    }

    /// No name is listed twice.
    pub open spec fn names_differ(&self) -> bool {
        forall|i: int, j: int|
            0 <= i < self.entries().len() && 0 <= j < self.entries().len() && i != j ==> (
            #[trigger] self.entries()[i]).0 != (#[trigger] self.entries()[j]).0
    }

    proof fn lemma_entries(self)
        requires
            self.well_formed(),
        ensures
            self.names_differ(),
            self.entries().len() == self.names@.len(),
            forall|name: Seq<char>, i: int|
                0 <= i < self.entries().len() && (#[trigger] self.entries()[i]).0 == name
                    ==> self.has(name) && #[trigger] self.count(name) == self.entries()[i].1,
    {
        assert forall|name: Seq<char>, i: int|
            0 <= i < self.entries().len() && (#[trigger] self.entries()[i]).0
                == name implies self.has(name) && #[trigger] self.count(name)
            == self.entries()[i].1 by {
            let c = choose|c: int|
                0 <= c < self.entries().len() && (#[trigger] self.entries()[c]).0 == name;
            if c != i {
                assert(self.names@[c]@ != self.names@[i]@);
            }
        }
    }

    fn position(&self, key: &String) -> (found: Option<usize>)
        ensures
            self.names_differ(),
            match found {
                Some(i) => i < self.entries().len() && self.entries()[i as int].0 == key@
                    && self.has(key@) && self.count(key@) == self.entries()[i as int].1,
                None => !self.has(key@),
            },
    {
        proof {
            use_type_invariant(self);
            self.lemma_entries();
        }
        let mut i: usize = 0;
        while i < self.names.len()
            invariant
                i <= self.names.len(),
                self.well_formed(),
                forall|t: int| 0 <= t < i ==> self.names@[t]@ != key@,
            decreases self.names.len() - i,
        {
            if self.names[i] == *key {
                proof {
                    self.lemma_entries();
                    assert(self.entries()[i as int].0 == key@);
                }
                return Some(i);
            }
            i = i + 1;
        }
        assert forall|t: int| 0 <= t < self.entries().len() implies (#[trigger] self.entries()[t]).0
            != key@ by {}
        None
    }

    /// A store with one counter at zero for each of the given names, kept in
    /// the order in which the names first occur. A name given twice gets one
    /// counter.
    pub fn new(metric_names: &[&'static str]) -> (store: Self)
        ensures
            store.entries() == zeroed(
                first_occurrences(names_of(metric_names@), metric_names@.len()),
            ),
            store.names_differ(),
            forall|name: Seq<char>|
                store.has(name) <==> exists|i: int|
                    0 <= i < metric_names@.len() && (#[trigger] metric_names@[i])@ == name,
            forall|i: int|
                0 <= i < store.entries().len() ==> (#[trigger] store.entries()[i]).1 == 0,
    {
        let mut store = AmapMetrics { names: Vec::new(), counts: Vec::new() };
        let mut k: usize = 0;
        assert(store.entries() =~= zeroed(first_occurrences(names_of(metric_names@), 0)));
        while k < metric_names.len()
            invariant
                k <= metric_names@.len(),
                store.entries() == zeroed(first_occurrences(names_of(metric_names@), k as nat)),
                store.names_differ(),
                forall|name: Seq<char>|
                    store.has(name) <==> exists|i: int|
                        0 <= i < k && (#[trigger] metric_names@[i])@ == name,
                forall|i: int|
                    0 <= i < store.entries().len() ==> (#[trigger] store.entries()[i]).1 == 0,
            decreases metric_names.len() - k,
        {
            let name: String = metric_names[k].to_owned();
            let ghost before = store;
            let found = store.position(&name);
            if found.is_none() {
                proof {
                    use_type_invariant(&store);
                    assert forall|t: int| 0 <= t < store.names@.len() implies store.names@[t]@
                        != name@ by {
                        assert(store.entries()[t].0 == store.names@[t]@);
                    }
                }
                let AmapMetrics { names, counts } = store;
                let mut names = names;
                let mut counts = counts;
                names.push(name);
                counts.push(0);
                store = AmapMetrics { names, counts };
                proof {
                    let n = before.entries().len() as int;
                    let given = names_of(metric_names@);
                    let kept = first_occurrences(given, k as nat);
                    assert(given[k as int] == metric_names@[k as int]@);
                    if kept.contains(given[k as int]) {
                        let t = choose|t: int| 0 <= t < kept.len() && kept[t] == given[k as int];
                        assert(before.entries()[t].0 == given[k as int]);
                        assert(before.has(given[k as int]));
                    }
                    assert(before.entries().len() == kept.len());
                    assert(store.entries().len() == n + 1);
                    assert(store.entries()[n].0 == metric_names@[k as int]@);
                    assert forall|i: int| 0 <= i < n implies store.entries()[i]
                        == before.entries()[i] by {}
                    assert(store.entries()[n] == (given[k as int], 0i64));
                    assert forall|i: int| 0 <= i < n + 1 implies store.entries()[i] == zeroed(
                        kept.push(given[k as int]),
                    )[i] by {
                        if i < n {
                            assert(before.entries()[i] == zeroed(kept)[i]);
                        }
                    }
                    assert(store.entries() =~= zeroed(kept.push(given[k as int])));
                    assert forall|name: Seq<char>| store.has(name) implies exists|i: int|
                        0 <= i < k + 1 && (#[trigger] metric_names@[i])@ == name by {
                        let t = choose|t: int|
                            0 <= t < store.entries().len() && (#[trigger] store.entries()[t]).0
                                == name;
                        if t < n {
                            assert(before.entries()[t].0 == name);
                            assert(before.has(name));
                        } else {
                            assert(metric_names@[k as int]@ == name);
                        }
                    }
                    assert forall|name: Seq<char>|
                        (exists|i: int|
                            0 <= i < k + 1 && (#[trigger] metric_names@[i])@ == name) implies store.has(
                        name,
                    ) by {
                        let i = choose|i: int|
                            0 <= i < k + 1 && (#[trigger] metric_names@[i])@ == name;
                        if i < k {
                            assert(before.has(name));
                            let t = choose|t: int|
                                0 <= t < before.entries().len() && (
                                #[trigger] before.entries()[t]).0 == name;
                            assert(store.entries()[t].0 == name);
                        } else {
                            assert(store.entries()[n].0 == name);
                        }
                    }
                    assert(store.names_differ()) by {
                        assert forall|i: int, j: int|
                            0 <= i < store.entries().len() && 0 <= j < store.entries().len() && i
                                != j implies (#[trigger] store.entries()[i]).0 != (
                        #[trigger] store.entries()[j]).0 by {
                            if i < n && j < n {
                                assert(before.entries()[i].0 != before.entries()[j].0);
                            } else if i < n {
                                assert(before.entries()[i].0 != metric_names@[k as int]@);
                            } else {
                                assert(before.entries()[j].0 != metric_names@[k as int]@);
                            }
                        }
                    }
                }
            } else {
                proof {
                    let given = names_of(metric_names@);
                    let kept = first_occurrences(given, k as nat);
                    assert(given[k as int] == metric_names@[k as int]@);
                    let t = found->0 as int;
                    assert(store.entries()[t].0 == given[k as int]);
                    assert(kept[t] == given[k as int]);
                    assert(kept.contains(given[k as int]));
                    assert forall|name: Seq<char>|
                        (exists|i: int|
                            0 <= i < k + 1 && (#[trigger] metric_names@[i])@ == name) implies store.has(
                        name,
                    ) by {
                        let i = choose|i: int|
                            0 <= i < k + 1 && (#[trigger] metric_names@[i])@ == name;
                        if i < k {
                        } else {
                            assert(store.has(metric_names@[k as int]@));
                        }
                    }
                }
            }
            k = k + 1;
        }
        store
    }

    /// Raises the counter under `key` by one, or reports `KeyNotFound` and
    /// leaves the store as it is when there is no such counter.
    pub fn inc(&mut self, key: &str) -> (r: Result<(), Error>)
        ensures
            final(self).names_differ(),
            final(self).entries().len() == old(self).entries().len(),
            old(self).has(key@) ==> r is Ok && final(self).has(key@) && final(self).count(key@)
                == next_count(old(self).count(key@)),
            !old(self).has(key@) ==> (r matches Err(e) && e == Error::KeyNotFound)
                && final(self).entries() == old(self).entries(),
            forall|i: int|
                0 <= i < old(self).entries().len() && (#[trigger] old(self).entries()[i]).0 != key@
                    ==> final(self).entries()[i] == old(self).entries()[i],
            forall|i: int|
                0 <= i < old(self).entries().len() ==> (#[trigger] final(self).entries()[i]).0
                    == old(self).entries()[i].0,
    {
        proof {
            use_type_invariant(&*self);
        }
        let owned = key.to_owned();
        match self.position(&owned) {
            Some(i) => {
                let raised = self.counts[i].wrapping_add(1);
                let mut taken = AmapMetrics { names: Vec::new(), counts: Vec::new() };
                core::mem::swap(self, &mut taken);
                let AmapMetrics { names, counts } = taken;
                let mut counts = counts;
                counts.set(i, raised);
                *self = AmapMetrics { names, counts };
                proof {
                    use_type_invariant(&*self);
                    self.lemma_entries();
                    assert(self.entries()[i as int].0 == key@);
                }
                Ok(())
            },
            None => Err(Error::KeyNotFound),
        }
    }

    /// One line for each counter, in the order in which the store keeps them.
    pub fn render(&self) -> (s: String)
        ensures
            s@ == lines_text(self.entries(), self.entries().len()),
    {
        proof {
            use_type_invariant(self);
        }
        let mut s = String::new();
        let mut i: usize = 0;
        while i < self.names.len()
            invariant
                i <= self.names.len(),
                self.names@.len() == self.counts@.len(),
                s@ == lines_text(self.entries(), i as nat),
            decreases self.names.len() - i,
        {
            append_line(&mut s, self.names[i].as_str(), self.counts[i]);
            i = i + 1;
        }
        s
    }
}

/// `dashmap::DashMap`, a hash map that several threads may share.
#[verifier::external_type_specification]
#[verifier::external_body]
#[verifier::reject_recursive_types(K)]
#[verifier::reject_recursive_types(V)]
#[verifier::reject_recursive_types(S)]
pub struct ExDashMap<K, V, S>(dashmap::DashMap<K, V, S>);

/// The counters that a map holds: the count under each name.
pub uninterp spec fn counters(held: dashmap::DashMap<String, i64>) -> Map<Seq<char>, i64>;

/// No counter under any name.
pub open spec fn no_counters() -> Map<Seq<char>, i64> {
    Map::empty()
}

/// The names and counts of `entries`, in their order.
pub open spec fn listing(entries: Seq<(String, i64)>) -> Seq<(Seq<char>, i64)> {
    Seq::new(entries.len(), |i: int| (entries[i].0@, entries[i].1))
}

/// `DashMap::new`: a map that holds nothing.
#[verifier::external_body]
fn empty_counters() -> (fresh: dashmap::DashMap<String, i64>)
    ensures
        counters(fresh) == no_counters(),
{
    dashmap::DashMap::new()
}

/// `DashMap::get`: the count under `key`, if the map holds one.
#[verifier::external_body]
fn read_counter(map: &dashmap::DashMap<String, i64>, key: &String) -> (count: Option<i64>)
    ensures
        count == if counters(*map).contains_key(key@) {
            Some(counters(*map)[key@])
        } else {
            None
        },
{
    map.get(key).map(|entry| *entry.value())
}

/// `DashMap::insert`: afterwards the map holds `count` under `key`, and
/// under every other name what it held before.
#[verifier::external_body]
fn write_counter(map: &mut dashmap::DashMap<String, i64>, key: String, count: i64)
    ensures
        counters(*final(map)) == counters(*old(map)).insert(key@, count),
{
    map.insert(key, count);
}

/// `DashMap::iter`: every entry of the map once, in an order that the map
/// chooses.
#[verifier::external_body]
fn list_counters(map: &dashmap::DashMap<String, i64>) -> (entries: Vec<(String, i64)>)
    ensures
        lists(listing(entries@), counters(*map)),
{
    map.iter().map(|entry| (entry.key().clone(), *entry.value())).collect()
}

/// Counters under names that come into being when they are first raised.
pub struct Metrics {
    data: dashmap::DashMap<String, i64>,
}

impl View for Metrics {
    type V = Map<Seq<char>, i64>;

    /// The count under each name that has been raised.
    closed spec fn view(&self) -> Map<Seq<char>, i64> {
        counters(self.data)
    }
}

impl Metrics {
    /// A store without counters.
    pub fn new() -> (store: Self)
        ensures
            store@ == no_counters(),
    {
        Metrics { data: empty_counters() }
    }

    /// Raises the counter under `key` by one. A counter that was not there
    /// starts at zero, so that it stands at one afterwards.
    pub fn inc(&mut self, key: &str) -> (r: Result<(), Error>)
        ensures
            r is Ok,
            final(self)@ == old(self)@.insert(
                key@,
                next_count(
                    if old(self)@.contains_key(key@) {
                        old(self)@[key@]
                    } else {
                        0
                    },
                ),
            ),
    {
        let owned = key.to_owned();
        let count = match read_counter(&self.data, &owned) {
            Some(count) => count,
            None => 0,
        };
        write_counter(&mut self.data, owned, count.wrapping_add(1));
        Ok(())
    }

    /// One line for each counter, in the order in which the map hands them
    /// out.
    pub fn render(&self) -> (s: String)
        ensures
            exists|entries: Seq<(Seq<char>, i64)>| #[trigger]
                lists(entries, self@) && s@ == lines_text(entries, entries.len()),
    {
        let entries = list_counters(&self.data);
        let mut s = String::new();
        let mut i: usize = 0;
        while i < entries.len()
            invariant
                i <= entries.len(),
                s@ == lines_text(listing(entries@), i as nat),
            decreases entries.len() - i,
        {
            append_line(&mut s, entries[i].0.as_str(), entries[i].1);
            i = i + 1;
        }
        assert(lists(listing(entries@), self@));
        s
    }
}

} // verus!
