//! A keyed table: rows found by a text key, each key held at most once.

use vstd::prelude::*;

verus! {

struct Row<V> {
    key: String,
    value: V,
}

/// Rows keyed by text. No two rows share a key; that is the table's type
/// invariant, so every table a caller can hold is a finite map.
pub struct Table<V> {
    rows: Vec<Row<V>>,
}

impl<V: View> View for Table<V> {
    type V = Map<Seq<char>, V::V>;

    /// The table as a map from key to the view of the row's value.
    closed spec fn view(&self) -> Map<Seq<char>, V::V> {
        Map::new(
            |k: Seq<char>| self.keys().contains(k),
            |k: Seq<char>| self.rows@[self.keys().index_of(k)].value@,
        )
    }
}

/// The keys of a list that are in a set, in the order of the list.
pub open spec fn chosen(keys: Seq<Seq<char>>, wanted: Set<Seq<char>>) -> Seq<Seq<char>>
    decreases keys.len(),
{
    if keys.len() == 0 {
        Seq::empty()
    } else {
        let rest = chosen(keys.drop_last(), wanted);
        if wanted.contains(keys.last()) {
            rest.push(keys.last())
        } else {
            rest
        }
    }
}

/// Choosing from one key more either adds that key at the end or changes
/// nothing.
pub proof fn lemma_chosen_step(keys: Seq<Seq<char>>, wanted: Set<Seq<char>>, i: int)
    requires
        0 <= i < keys.len(),
    ensures
        chosen(keys.take(i + 1), wanted) == if wanted.contains(keys[i]) {
            chosen(keys.take(i), wanted).push(keys[i])
        } else {
            chosen(keys.take(i), wanted)
        },
        chosen(keys.take(0), wanted) == Seq::<Seq<char>>::empty(),
{
    assert(keys.take(i + 1).drop_last() =~= keys.take(i));
    assert(keys.take(i + 1).last() == keys[i]);
}

/// What is chosen from distinct keys is distinct, and holds exactly the
/// listed keys that are wanted.
pub proof fn lemma_chosen(keys: Seq<Seq<char>>, wanted: Set<Seq<char>>)
    requires
        keys.no_duplicates(),
    ensures
        chosen(keys, wanted).no_duplicates(),
        forall|k: Seq<char>|
            chosen(keys, wanted).contains(k) <==> (keys.contains(k) && wanted.contains(k)),
    decreases keys.len(),
{
    if keys.len() > 0 {
        let head = keys.drop_last();
        let last = keys.last();
        assert forall|a: int, b: int| 0 <= a < head.len() && 0 <= b < head.len() && a != b implies head[a]
            != head[b] by {
            assert(head[a] == keys[a] && head[b] == keys[b]);
        }
        lemma_chosen(head, wanted);
        let rest = chosen(head, wanted);
        let out = chosen(keys, wanted);
        assert(!head.contains(last)) by {
            if head.contains(last) {
                let a = choose|a: int| 0 <= a < head.len() && head[a] == last;
                assert(keys[a] == keys[keys.len() - 1]);
            }
        }
        assert forall|k: Seq<char>| out.contains(k) <==> (keys.contains(k) && wanted.contains(k)) by {
            if keys.contains(k) {
                let a = choose|a: int| 0 <= a < keys.len() && keys[a] == k;
                if a < head.len() {
                    assert(head[a] == k);
                }
            }
            if head.contains(k) {
                let a = choose|a: int| 0 <= a < head.len() && head[a] == k;
                assert(keys[a] == k);
            }
            assert(keys[keys.len() - 1] == last);
            if wanted.contains(last) {
                assert(out == rest.push(last));
                assert(out[rest.len() as int] == last);
                if rest.contains(k) {
                    let a = choose|a: int| 0 <= a < rest.len() && rest[a] == k;
                    assert(out[a] == k);
                }
                if out.contains(k) {
                    let a = choose|a: int| 0 <= a < out.len() && out[a] == k;
                    if a < rest.len() {
                        assert(rest[a] == k);
                    }
                }
            }
        }
        if wanted.contains(last) {
            assert forall|a: int, b: int| 0 <= a < out.len() && 0 <= b < out.len() && a != b implies out[a]
                != out[b] by {
                if a < rest.len() {
                    assert(rest[a] == out[a]);
                    assert(rest.contains(out[a]));
                }
                if b < rest.len() {
                    assert(rest[b] == out[b]);
                    assert(rest.contains(out[b]));
                }
            }
        }
    }
}

proof fn lemma_remove_keeps_distinct(keys: Seq<Seq<char>>, i: int)
    requires
        keys.no_duplicates(),
        0 <= i < keys.len(),
    ensures
        keys.remove(i).no_duplicates(),
        !keys.remove(i).contains(keys[i]),
{
    let rest = keys.remove(i);
    assert forall|a: int, b: int| 0 <= a < rest.len() && 0 <= b < rest.len() && a != b implies rest[a]
        != rest[b] by {
        let a0 = if a < i { a } else { a + 1 };
        let b0 = if b < i { b } else { b + 1 };
        assert(rest[a] == keys[a0] && rest[b] == keys[b0]);
    }
    if rest.contains(keys[i]) {
        let a = choose|a: int| 0 <= a < rest.len() && rest[a] == keys[i];
        let a0 = if a < i { a } else { a + 1 };
        assert(rest[a] == keys[a0]);
    }
}

impl<V> Table<V> {
    /// The keys in row order.
    pub closed spec fn keys(&self) -> Seq<Seq<char>> {
        Seq::new(self.rows@.len(), |i: int| self.rows@[i].key@)
    }

    #[verifier::type_invariant]
    spec fn distinct_keys(&self) -> bool {
        self.keys().no_duplicates()
    }
}

impl<V: View> Table<V> {
    proof fn lemma_row(&self, i: int)
        requires
            self.keys().no_duplicates(),
            0 <= i < self.rows@.len(),
        ensures
            self.keys().index_of(self.rows@[i].key@) == i,
            self@.contains_key(self.rows@[i].key@),
            self@[self.rows@[i].key@] == self.rows@[i].value@,
    {
        let keys = self.keys();
        assert(keys[i] == self.rows@[i].key@);
        let j = keys.index_of(keys[i]);
        assert(0 <= j < keys.len() && keys[j] == keys[i]);
    }

    proof fn lemma_absent(&self, k: Seq<char>)
        requires
            forall|i: int| 0 <= i < self.rows@.len() ==> self.rows@[i].key@ != k,
        ensures
            !self@.contains_key(k),
    {
        if self.keys().contains(k) {
            let i = choose|i: int| 0 <= i < self.keys().len() && self.keys()[i] == k;
            assert(self.rows@[i].key@ == k);
        }
    }

    /// An empty table.
    pub fn new() -> (t: Self)
        ensures
            t@ == Map::<Seq<char>, V::V>::empty(),
            t.keys() == Seq::<Seq<char>>::empty(),
    {
        let t = Table { rows: Vec::new() };
        assert(t.keys() =~= Seq::<Seq<char>>::empty());
        assert(t@ =~= Map::<Seq<char>, V::V>::empty());
        t
    }

    /// The number of rows. The keys in row order are distinct and are exactly
    /// the keys of the map.
    pub fn len(&self) -> (n: usize)
        ensures
            n == self.keys().len(),
            self.keys().no_duplicates(),
            forall|k: Seq<char>| self.keys().contains(k) <==> self@.contains_key(k),
    {
        proof {
            use_type_invariant(self);
        }
        self.rows.len()
    }

    /// The key of the row at a position.
    pub fn key_at(&self, i: usize) -> (k: &String)
        requires
            i < self.keys().len(),
        ensures
            k@ == self.keys()[i as int],
            self@.contains_key(k@),
    {
        proof {
            use_type_invariant(self);
            self.lemma_row(i as int);
        }
        &self.rows[i].key
    }

    /// The value of the row at a position.
    pub fn value_at(&self, i: usize) -> (v: &V)
        requires
            i < self.keys().len(),
        ensures
            self@.contains_key(self.keys()[i as int]),
            v@ == self@[self.keys()[i as int]],
    {
        proof {
            use_type_invariant(self);
            self.lemma_row(i as int);
        }
        &self.rows[i].value
    }

    fn take_rows(&mut self) -> (rows: Vec<Row<V>>)
        ensures
            rows == old(self).rows,
            final(self).rows@.len() == 0,
    {
        let mut rows: Vec<Row<V>> = Vec::new();
        assert(Seq::new(0, |i: int| rows@[i].key@).no_duplicates());
        core::mem::swap(&mut self.rows, &mut rows);
        rows
    }

    fn position(&self, key: &str) -> (r: Option<usize>)
        ensures
            match r {
                Some(i) => i < self.rows@.len() && self.rows@[i as int].key@ == key@,
                None => forall|i: int| 0 <= i < self.rows@.len() ==> self.rows@[i].key@ != key@,
            },
    {
        let wanted = key.to_owned();
        let mut i: usize = 0;
        while i < self.rows.len()
            invariant
                i <= self.rows@.len(),
                wanted@ == key@,
                forall|j: int| 0 <= j < i ==> self.rows@[j].key@ != key@,
            decreases self.rows@.len() - i,
        {
            if self.rows[i].key == wanted {
                return Some(i);
            }
            i = i + 1;
        }
        None
    }

    /// Whether a row with this key exists.
    pub fn contains_key(&self, key: &str) -> (r: bool)
        ensures
            r == self@.contains_key(key@),
    {
        match self.position(key) {
            Some(i) => {
                proof {
                    use_type_invariant(self);
                    self.lemma_row(i as int);
                }
                true
            },
            None => {
                proof {
                    self.lemma_absent(key@);
                }
                false
            },
        }
    }

    /// The value stored under a key, if any.
    pub fn get(&self, key: &str) -> (r: Option<&V>)
        ensures
            match r {
                Some(v) => self@.contains_key(key@) && v@ == self@[key@],
                None => !self@.contains_key(key@),
            },
    {
        match self.position(key) {
            Some(i) => {
                proof {
                    use_type_invariant(self);
                    self.lemma_row(i as int);
                }
                Some(&self.rows[i].value)
            },
            None => {
                proof {
                    self.lemma_absent(key@);
                }
                None
            },
        }
    }

    /// Adds a row under a key that is not yet present. Where the key is
    /// present the table is left as it is and `false` is returned.
    pub fn insert(&mut self, key: String, value: V) -> (added: bool)
        ensures
            added == !old(self)@.contains_key(key@),
            added ==> final(self)@ == old(self)@.insert(key@, value@),
            added ==> final(self).keys() == old(self).keys().push(key@),
            !added ==> final(self)@ == old(self)@ && final(self).keys() == old(self).keys(),
    {
        proof {
            use_type_invariant(&*self);
        }
        match self.position(key.as_str()) {
            Some(i) => {
                proof {
                    self.lemma_row(i as int);
                }
                false
            },
            None => {
                proof {
                    self.lemma_absent(key@);
                }
                let ghost before = *self;
                let mut rows = self.take_rows();
                rows.push(Row { key, value });
                assert(Seq::new(rows@.len(), |i: int| rows@[i].key@) =~= before.keys().push(key@));
                self.rows = rows;
                proof {
                    assert(self.keys() =~= before.keys().push(key@));
                    assert forall|k: Seq<char>| #[trigger]
                        self@.contains_key(k) <==> before@.insert(key@, value@).contains_key(
                            k,
                        ) by {
                        if before.keys().contains(k) {
                            let i = before.keys().index_of(k);
                            assert(self.keys()[i] == k);
                        }
                        if self.keys().contains(k) {
                            let i = self.keys().index_of(k);
                            if i < before.keys().len() {
                                assert(before.keys()[i] == k);
                            }
                        }
                        assert(self.keys()[before.keys().len() as int] == key@);
                    }
                    assert forall|k: Seq<char>| #[trigger] self@.contains_key(k) implies self@[k]
                        == before@.insert(key@, value@)[k] by {
                        let i = self.keys().index_of(k);
                        self.lemma_row(i);
                        if i < before.rows@.len() {
                            before.lemma_row(i);
                        }
                    }
                    assert(self@ =~= before@.insert(key@, value@));
                }
                true
            },
        }
    }

    /// Puts a new value under a key that is present and hands back the
    /// previous one; the row keeps its position. Where the key is absent the
    /// table is left as it is.
    pub fn replace(&mut self, key: &str, value: V) -> (previous: Option<V>)
        ensures
            match previous {
                Some(p) => old(self)@.contains_key(key@) && p@ == old(self)@[key@] && final(self)@
                    == old(self)@.insert(key@, value@),
                None => !old(self)@.contains_key(key@) && final(self)@ == old(self)@,
            },
            final(self).keys() == old(self).keys(),
    {
        proof {
            use_type_invariant(&*self);
        }
        match self.position(key) {
            Some(i) => {
                let ghost before = *self;
                proof {
                    before.lemma_row(i as int);
                }
                let mut rows = self.take_rows();
                let row = rows.remove(i);
                rows.insert(i, Row { key: row.key, value });
                assert(Seq::new(rows@.len(), |j: int| rows@[j].key@) =~= before.keys());
                self.rows = rows;
                proof {
                    assert(self.keys() =~= before.keys());
                    assert forall|k: Seq<char>| #[trigger]
                        self@.contains_key(k) <==> before@.insert(key@, value@).contains_key(
                            k,
                        ) by {}
                    assert forall|k: Seq<char>| #[trigger] self@.contains_key(k) implies self@[k]
                        == before@.insert(key@, value@)[k] by {
                        let j = self.keys().index_of(k);
                        self.lemma_row(j);
                        before.lemma_row(j);
                    }
                    assert(self@ =~= before@.insert(key@, value@));
                }
                Some(row.value)
            },
            None => {
                proof {
                    self.lemma_absent(key@);
                }
                None
            },
        }
    }

    /// Removes the row under a key and hands back its value. Where the key is
    /// absent the table is left as it is.
    pub fn remove(&mut self, key: &str) -> (previous: Option<V>)
        ensures
            match previous {
                Some(p) => old(self)@.contains_key(key@) && p@ == old(self)@[key@],
                None => !old(self)@.contains_key(key@),
            },
            final(self)@ == old(self)@.remove(key@),
    {
        proof {
            use_type_invariant(&*self);
        }
        match self.position(key) {
            Some(i) => {
                let ghost before = *self;
                proof {
                    before.lemma_row(i as int);
                    lemma_remove_keeps_distinct(before.keys(), i as int);
                }
                let mut rows = self.take_rows();
                let row = rows.remove(i);
                assert(Seq::new(rows@.len(), |j: int| rows@[j].key@) =~= before.keys().remove(
                    i as int,
                ));
                self.rows = rows;
                proof {
                    assert(self.keys() =~= before.keys().remove(i as int));
                    assert forall|k: Seq<char>| #[trigger]
                        self@.contains_key(k) <==> before@.remove(key@).contains_key(k) by {
                        if self.keys().contains(k) {
                            let j = self.keys().index_of(k);
                            if j < i {
                                assert(before.keys()[j] == k);
                            } else {
                                assert(before.keys()[j + 1] == k);
                            }
                        }
                        if before.keys().contains(k) && k != key@ {
                            let j = before.keys().index_of(k);
                            if j < i {
                                assert(self.keys()[j] == k);
                            } else {
                                assert(self.keys()[j - 1] == k);
                            }
                        }
                    }
                    assert forall|k: Seq<char>| #[trigger] self@.contains_key(k) implies self@[k]
                        == before@.remove(key@)[k] by {
                        let j = self.keys().index_of(k);
                        self.lemma_row(j);
                        if j < i {
                            before.lemma_row(j);
                        } else {
                            before.lemma_row(j + 1);
                        }
                    }
                    assert(self@ =~= before@.remove(key@));
                }
                Some(row.value)
            },
            None => {
                proof {
                    self.lemma_absent(key@);
                    assert(self@ =~= self@.remove(key@));
                }
                None
            },
        }
    }
}

} // verus!
