//! The slave nodes that a master knows, by alias: a map from alias to address
//! that keeps the order in which aliases were first added.

use vstd::prelude::*;

verus! {

/// The map that a sequence of (key, value) pairs with distinct keys stands for.
pub open spec fn map_of<V>(pairs: Seq<(Seq<char>, V)>) -> Map<Seq<char>, V>
    decreases pairs.len(),
{
    if pairs.len() == 0 {
        Map::empty()
    } else {
        map_of(pairs.drop_last()).insert(pairs.last().0, pairs.last().1)
    }
}

/// No key occurs twice.
pub open spec fn keys_distinct<V>(pairs: Seq<(Seq<char>, V)>) -> bool {
    forall|i: int, j: int|
        0 <= i < pairs.len() && 0 <= j < pairs.len() && i != j ==> #[trigger] pairs[i].0
            != #[trigger] pairs[j].0
}

pub proof fn lemma_map_of<V>(pairs: Seq<(Seq<char>, V)>, key: Seq<char>)
    requires
        keys_distinct(pairs),
    ensures
        map_of(pairs).contains_key(key) <==> exists|i: int| 0 <= i < pairs.len() && pairs[i].0 == key,
        forall|i: int| 0 <= i < pairs.len() && pairs[i].0 == key ==> map_of(pairs)[key] == pairs[i].1,
    decreases pairs.len(),
{
    if pairs.len() > 0 {
        let t = pairs.drop_last();
        assert(keys_distinct(t)) by {
            assert forall|i: int, j: int|
                0 <= i < t.len() && 0 <= j < t.len() && i != j implies #[trigger] t[i].0
                != #[trigger] t[j].0 by {
                assert(t[i] == pairs[i] && t[j] == pairs[j]);
            }
        }
        lemma_map_of(t, key);
        if exists|i: int| 0 <= i < pairs.len() && pairs[i].0 == key {
            let i = choose|i: int| 0 <= i < pairs.len() && pairs[i].0 == key;
            if i < pairs.len() - 1 {
                assert(t[i] == pairs[i]);
            }
        }
        assert forall|i: int| 0 <= i < pairs.len() && pairs[i].0 == key implies map_of(
            pairs,
        )[key] == pairs[i].1 by {
            if i < pairs.len() - 1 {
                assert(t[i] == pairs[i]);
                assert(pairs[i].0 != pairs[pairs.len() - 1].0);
            }
        }
        if exists|i: int| 0 <= i < t.len() && t[i].0 == key {
            let i = choose|i: int| 0 <= i < t.len() && t[i].0 == key;
            assert(pairs[i] == t[i]);
        }
    }
}

/// The views of (key, value) entries.
pub open spec fn entry_views<V: View>(v: Seq<(String, V)>) -> Seq<(Seq<char>, V::V)> {
    v.map_values(|e: (String, V)| (e.0@, e.1@))
}

/// The index of `key` among the entries, where it occurs.
pub(crate) fn find_key<V: View>(entries: &Vec<(String, V)>, key: &String) -> (res: Option<usize>)
    ensures
        match res {
            Some(i) => i < entries@.len() && entry_views(entries@)[i as int].0 == key@,
            None => forall|i: int|
                0 <= i < entries@.len() ==> entry_views(entries@)[i].0 != key@,
        },
{
    let mut i: usize = 0;
    while i < entries.len()
        invariant
            i <= entries@.len(),
            forall|j: int| 0 <= j < i ==> entry_views(entries@)[j].0 != key@,
        decreases entries@.len() - i,
    {
        if entries[i].0 == *key {
            return Some(i);
        }
        i = i + 1;
    }
    None
}

/// Adding a key that is not among the pairs keeps the keys distinct and adds
/// it to the map.
pub proof fn lemma_push_new_key<V>(pairs: Seq<(Seq<char>, V)>, k: Seq<char>, v: V)
    requires
        keys_distinct(pairs),
        forall|i: int| 0 <= i < pairs.len() ==> pairs[i].0 != k,
    ensures
        keys_distinct(pairs.push((k, v))),
        map_of(pairs.push((k, v))) == map_of(pairs).insert(k, v),
{
    let np = pairs.push((k, v));
    assert(np.drop_last() =~= pairs);
    assert forall|a: int, b: int|
        0 <= a < np.len() && 0 <= b < np.len() && a != b implies #[trigger] np[a].0
        != #[trigger] np[b].0 by {
        if a < pairs.len() && b < pairs.len() {
            assert(np[a] == pairs[a] && np[b] == pairs[b]);
        } else if a < pairs.len() {
            assert(np[a] == pairs[a]);
        } else {
            assert(np[b] == pairs[b]);
        }
    }
}

/// Gives `key` the value `value` among entries with distinct keys: in place
/// where the key is present, at the end otherwise.
pub(crate) fn put_entry<V: View>(entries: &mut Vec<(String, V)>, key: String, value: V)
    requires
        keys_distinct(entry_views(old(entries)@)),
    ensures
        keys_distinct(entry_views(final(entries)@)),
        map_of(entry_views(final(entries)@)) == map_of(entry_views(old(entries)@)).insert(
            key@,
            value@,
        ),
        map_of(entry_views(old(entries)@)).contains_key(key@) ==> entry_views(
            final(entries)@,
        ).len() == entry_views(old(entries)@).len(),
        !map_of(entry_views(old(entries)@)).contains_key(key@) ==> entry_views(final(entries)@)
            == entry_views(old(entries)@).push((key@, value@)),
{
    let ghost old_pairs = entry_views(entries@);
    let ghost kv = key@;
    let ghost vv = value@;
    proof {
        lemma_map_of(old_pairs, kv);
    }
    match find_key(entries, &key) {
        Some(i) => {
            entries.set(i, (key, value));
            proof {
                assert(entry_views(entries@) =~= old_pairs.update(i as int, (old_pairs[i as int].0, vv)));
                lemma_update_keeps_map(old_pairs, i as int, vv);
            }
        },
        None => {
            entries.push((key, value));
            proof {
                assert(entry_views(entries@) =~= old_pairs.push((kv, vv)));
                lemma_push_new_key(old_pairs, kv, vv);
            }
        },
    }
}

/// The slave nodes of a master: alias and address of each.
pub struct SlaveRegistry {
    entries: Vec<(String, String)>,
}

impl SlaveRegistry {
    /// The (alias, address) pairs, in the order the aliases were first added.
    pub closed spec fn pairs(&self) -> Seq<(Seq<char>, Seq<char>)> {
        entry_views(self.entries@)
    }

    /// No alias occurs twice.
    #[verifier::type_invariant]
    pub open spec fn wf(&self) -> bool {
        keys_distinct(self.pairs())
    }

    /// An empty registry.
    pub fn new() -> (r: Self)
        ensures
            r.pairs() == Seq::<(Seq<char>, Seq<char>)>::empty(),
            r@ == Map::<Seq<char>, Seq<char>>::empty(),
    {
        let r = SlaveRegistry { entries: Vec::new() };
        assert(r.pairs() =~= Seq::empty());
        r
    }

    /// The number of slaves.
    pub fn len(&self) -> (n: usize)
        ensures
            n == self.pairs().len(),
    {
        self.entries.len()
    }

    /// The alias and the address of the `i`-th slave.
    pub fn entry(&self, i: usize) -> (e: (&String, &String))
        requires
            i < self.pairs().len(),
        ensures
            (e.0@, e.1@) == self.pairs()[i as int],
    {
        let p = &self.entries[i];
        (&p.0, &p.1)
    }

    /// The address of the slave named `alias`.
    pub fn get(&self, alias: &String) -> (res: Option<&String>)
        ensures
            match res {
                Some(a) => self@.contains_key(alias@) && a@ == self@[alias@],
                None => !self@.contains_key(alias@),
            },
    {
        proof {
            use_type_invariant(self);
            lemma_map_of(self.pairs(), alias@);
        }
        match find_key(&self.entries, alias) {
            Some(i) => Some(&self.entries[i].1),
            None => None,
        }
    }

    /// Adds a slave, or gives an alias already present a new address (its
    /// place in the order stays).
    pub fn insert(&mut self, alias: String, addr: String)
        ensures
            final(self)@ == old(self)@.insert(alias@, addr@),
            old(self)@.contains_key(alias@) ==> final(self).pairs().len() == old(self).pairs().len(),
            !old(self)@.contains_key(alias@) ==> final(self).pairs() == old(self).pairs().push(
                (alias@, addr@),
            ),
    {
        proof {
            use_type_invariant(&*self);
        }
        let mut entries: Vec<(String, String)> = Vec::new();
        std::mem::swap(&mut entries, &mut self.entries);
        put_entry(&mut entries, alias, addr);
        self.entries = entries;
    }
}

pub proof fn lemma_update_keeps_map<V>(pairs: Seq<(Seq<char>, V)>, i: int, v: V)
    requires
        keys_distinct(pairs),
        0 <= i < pairs.len(),
    ensures
        keys_distinct(pairs.update(i, (pairs[i].0, v))),
        map_of(pairs.update(i, (pairs[i].0, v))) == map_of(pairs).insert(pairs[i].0, v),
    decreases pairs.len(),
{
    let u = pairs.update(i, (pairs[i].0, v));
    assert(keys_distinct(u)) by {
        assert forall|a: int, b: int|
            0 <= a < u.len() && 0 <= b < u.len() && a != b implies #[trigger] u[a].0
            != #[trigger] u[b].0 by {
            assert(u[a].0 == pairs[a].0 && u[b].0 == pairs[b].0);
        }
    }
    let t = pairs.drop_last();
    assert(keys_distinct(t)) by {
        assert forall|a: int, b: int|
            0 <= a < t.len() && 0 <= b < t.len() && a != b implies #[trigger] t[a].0
            != #[trigger] t[b].0 by {
            assert(t[a] == pairs[a] && t[b] == pairs[b]);
        }
    }
    if i == pairs.len() - 1 {
        assert(u.drop_last() =~= t);
        lemma_map_of(t, pairs[i].0);
        assert forall|j: int| 0 <= j < t.len() implies t[j].0 != pairs[i].0 by {
            assert(t[j] == pairs[j]);
        }
        assert(!map_of(t).contains_key(pairs[i].0));
        assert(map_of(u) =~= map_of(pairs).insert(pairs[i].0, v));
    } else {
        assert(u.drop_last() =~= t.update(i, (t[i].0, v)));
        lemma_update_keeps_map(t, i, v);
        assert(pairs.last().0 != pairs[i].0);
        assert(map_of(u) =~= map_of(pairs).insert(pairs[i].0, v));
    }
}

impl View for SlaveRegistry {
    type V = Map<Seq<char>, Seq<char>>;

    open spec fn view(&self) -> Map<Seq<char>, Seq<char>> {
        map_of(self.pairs())
    }
}

/// After an alias is added with an address, looking it up gives that
/// address, and every other alias keeps what it had.
pub proof fn lemma_insert_then_lookup(
    before: Map<Seq<char>, Seq<char>>,
    after: Map<Seq<char>, Seq<char>>,
    alias: Seq<char>,
    addr: Seq<char>,
    other: Seq<char>,
)
    requires
        after == before.insert(alias, addr),
    ensures
        after.contains_key(alias) && after[alias] == addr,
        other != alias ==> (after.contains_key(other) == before.contains_key(other)),
        other != alias && before.contains_key(other) ==> after[other] == before[other],
{
}

} // verus!
