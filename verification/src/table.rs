use vstd::prelude::*;

verus! {

/// A value that can key a table: it comes with a test that decides equality.
pub trait Key: Copy {
    fn same(&self, other: &Self) -> (r: bool)
        ensures
            r == (*self == *other),
    ;
}

impl Key for i32 {
    fn same(&self, other: &Self) -> (r: bool) {
        *self == *other
    }
}

impl Key for i64 {
    fn same(&self, other: &Self) -> (r: bool) {
        *self == *other
    }
}

/// One row of a table.
pub struct Row<K, V> {
    pub key: K,
    pub value: V,
}

/// The key of row `i`.
pub open spec fn key_at<K, V>(rows: Seq<Row<K, V>>, i: int) -> K {
    rows[i].key
}

/// No two rows carry the same key.
pub open spec fn distinct_keys<K, V>(rows: Seq<Row<K, V>>) -> bool {
    forall|i: int, j: int|
        0 <= i < rows.len() && 0 <= j < rows.len() && i != j ==> #[trigger] key_at(rows, i)
            != #[trigger] key_at(rows, j)
}

/// Some row carries the key.
pub open spec fn has_key<K, V>(rows: Seq<Row<K, V>>, key: K) -> bool {
    exists|i: int| 0 <= i < rows.len() && #[trigger] key_at(rows, i) == key
}

/// The place of a row that carries the key.
pub open spec fn row_of<K, V>(rows: Seq<Row<K, V>>, key: K) -> int {
    choose|i: int| 0 <= i < rows.len() && #[trigger] key_at(rows, i) == key
}

/// The map from each key among the rows to the value of its row.
pub open spec fn contents<K, V>(rows: Seq<Row<K, V>>) -> Map<K, V> {
    Map::new(|k: K| has_key(rows, k), |k: K| rows[row_of(rows, k)].value)
}

/// What a map holds under a key, if anything.
pub open spec fn lookup<K, V>(m: Map<K, V>, key: K) -> Option<V> {
    if m.contains_key(key) {
        Some(m[key])
    } else {
        None
    }
}

/// With distinct keys the key of a row leads to the value of that row.
pub proof fn lemma_row<K, V>(rows: Seq<Row<K, V>>, i: int)
    requires
        distinct_keys(rows),
        0 <= i < rows.len(),
    ensures
        contents(rows).contains_key(rows[i].key),
        contents(rows)[rows[i].key] == rows[i].value,
{
    let k = rows[i].key;
    assert(key_at(rows, i) == k);
    let j = row_of(rows, k);
    assert(key_at(rows, j) == k);
}

/// A row with a new key, put behind the others, adds its key and value to the contents.
pub proof fn lemma_push<K, V>(rows: Seq<Row<K, V>>, key: K, value: V)
    requires
        distinct_keys(rows),
        !has_key(rows, key),
    ensures
        distinct_keys(rows.push(Row { key, value })),
        contents(rows.push(Row { key, value })) == contents(rows).insert(key, value),
{
    let after = rows.push(Row { key, value });
    assert forall|i: int, j: int|
        0 <= i < after.len() && 0 <= j < after.len() && i != j implies #[trigger] key_at(after, i)
        != #[trigger] key_at(after, j) by {
        if i < rows.len() {
            assert(key_at(rows, i) == key_at(after, i));
        }
        if j < rows.len() {
            assert(key_at(rows, j) == key_at(after, j));
        }
    }
    assert forall|k: K| has_key(after, k) <==> (k == key || has_key(rows, k)) by {
        if has_key(after, k) {
            let i = row_of(after, k);
            if i < rows.len() {
                assert(key_at(rows, i) == k);
            }
        }
        if has_key(rows, k) {
            let i = row_of(rows, k);
            assert(key_at(after, i) == k);
        }
        if k == key {
            assert(key_at(after, rows.len() as int) == k);
        }
    }
    assert forall|k: K| has_key(after, k) implies #[trigger] contents(after)[k] == contents(
        rows,
    ).insert(key, value)[k] by {
        let i = row_of(after, k);
        lemma_row(after, i);
        if i < rows.len() {
            assert(key_at(rows, i) == k);
            lemma_row(rows, i);
        }
    }
    assert(contents(after) =~= contents(rows).insert(key, value));
}

/// A new value in a row replaces the value under the key of that row.
pub proof fn lemma_update<K, V>(rows: Seq<Row<K, V>>, i: int, value: V)
    requires
        distinct_keys(rows),
        0 <= i < rows.len(),
    ensures
        distinct_keys(rows.update(i, Row { key: rows[i].key, value })),
        contents(rows.update(i, Row { key: rows[i].key, value })) == contents(rows).insert(
            rows[i].key,
            value,
        ),
{
    let key = rows[i].key;
    let after = rows.update(i, Row { key, value });
    assert forall|a: int| 0 <= a < rows.len() implies key_at(after, a) == key_at(rows, a) by {}
    assert forall|a: int, b: int|
        0 <= a < after.len() && 0 <= b < after.len() && a != b implies #[trigger] key_at(after, a)
        != #[trigger] key_at(after, b) by {
        assert(key_at(rows, a) != key_at(rows, b));
    }
    assert forall|k: K| has_key(after, k) <==> has_key(rows, k) by {
        if has_key(after, k) {
            let a = row_of(after, k);
            assert(key_at(rows, a) == k);
        }
        if has_key(rows, k) {
            let a = row_of(rows, k);
            assert(key_at(after, a) == k);
        }
    }
    assert(key_at(rows, i) == key);
    assert forall|k: K| has_key(after, k) implies #[trigger] contents(after)[k] == contents(
        rows,
    ).insert(key, value)[k] by {
        let a = row_of(after, k);
        lemma_row(after, a);
        lemma_row(rows, a);
    }
    assert(contents(after) =~= contents(rows).insert(key, value));
}

/// A table of rows, each found by its key. No two rows have the same key.
pub struct Table<K, V> {
    rows: Vec<Row<K, V>>,
}

impl<K, V> View for Table<K, V> {
    type V = Map<K, V>;

    closed spec fn view(&self) -> Map<K, V> {
        contents(self.rows@)
    }
}

impl<K, V> Table<K, V> {
    #[verifier::type_invariant]
    closed spec fn inv(&self) -> bool {
        distinct_keys(self.rows@)
    }
}

impl<K: Key, V: Copy> Table<K, V> {
    /// A table without rows.
    pub fn new() -> (r: Self)
        ensures
            r@ == Map::<K, V>::empty(),
    {
        let r = Table { rows: Vec::new() };
        assert(r@ =~= Map::<K, V>::empty());
        r
    }

    fn position(&self, key: &K) -> (r: Option<usize>)
        ensures
            r matches Some(i) ==> i < self.rows.len() && self.rows[i as int].key == *key,
            r is None ==> !has_key(self.rows@, *key),
    {
        let mut i: usize = 0;
        while i < self.rows.len()
            invariant
                i <= self.rows.len(),
                forall|j: int| 0 <= j < i ==> key_at(self.rows@, j) != *key,
            decreases self.rows.len() - i,
        {
            if self.rows[i].key.same(key) {
                return Some(i);
            }
            i = i + 1;
        }
        None
    }

    /// The value of the row with this key, if there is one.
    pub fn get(&self, key: &K) -> (r: Option<V>)
        ensures
            r == lookup(self@, *key),
    {
        proof {
            use_type_invariant(self);
        }
        match self.position(key) {
            Some(i) => {
                proof {
                    lemma_row(self.rows@, i as int);
                }
                Some(self.rows[i].value)
            },
            None => None,
        }
    }

    /// Whether there is a row with this key.
    pub fn contains(&self, key: &K) -> (r: bool)
        ensures
            r == self@.contains_key(*key),
    {
        proof {
            use_type_invariant(self);
        }
        match self.position(key) {
            Some(i) => {
                proof {
                    lemma_row(self.rows@, i as int);
                }
                true
            },
            None => false,
        }
    }

    /// Sets the value of the row with this key, adding the row where there is none.
    pub fn put(&mut self, key: K, value: V)
        ensures
            final(self)@ == old(self)@.insert(key, value),
    {
        proof {
            use_type_invariant(&*self);
        }
        let found = self.position(&key);
        let mut rows: Vec<Row<K, V>> = Vec::new();
        core::mem::swap(&mut self.rows, &mut rows);
        match found {
            Some(i) => {
                proof {
                    lemma_update(rows@, i as int, value);
                }
                rows.set(i, Row { key, value });
            },
            None => {
                proof {
                    lemma_push(rows@, key, value);
                }
                rows.push(Row { key, value });
            },
        }
        self.rows = rows;
    }

    /// A copy of the table.
    pub fn duplicate(&self) -> (r: Self)
        ensures
            r@ == self@,
    {
        proof {
            use_type_invariant(self);
        }
        let mut rows: Vec<Row<K, V>> = Vec::new();
        let mut i: usize = 0;
        while i < self.rows.len()
            invariant
                i <= self.rows.len(),
                rows@ == self.rows@.take(i as int),
            decreases self.rows.len() - i,
        {
            let row = Row { key: self.rows[i].key, value: self.rows[i].value };
            rows.push(row);
            assert(self.rows@.take(i as int).push(self.rows@[i as int]) =~= self.rows@.take(
                i + 1,
            ));
            i = i + 1;
        }
        assert(self.rows@.take(self.rows.len() as int) =~= self.rows@);
        Table { rows }
    }
}

} // verus!
