//! Keyed tables that remember what was done to them.
//!
//! A [`Table`] holds rows under a primary key. It also records every change
//! since it was loaded, so that the store behind it can be brought to the same
//! contents by performing the recorded changes in order.

use vstd::prelude::*;

verus! {

/// A row of a table: a value with a primary key.
pub trait Row: View + Sized {
    /// The type of the primary key.
    type Key;

    /// The primary key of a row.
    spec fn key(row: <Self as View>::V) -> Self::Key;

    /// Whether this row is stored under `key`.
    fn has_key(&self, key: &Self::Key) -> (b: bool)
        ensures
            b == (Self::key(self@) == *key),
    ;

    /// This row's primary key.
    fn primary_key(&self) -> (key: Self::Key)
        ensures
            key == Self::key(self@),
    ;

    /// A copy of this row.
    fn duplicate(&self) -> (copy: Self)
        ensures
            copy@ == self@,
    ;
}

/// One change made to a table.
pub enum Change<R: Row> {
    /// A row was added under a key that was not in use.
    Insert(R),
    /// The row with this row's key was replaced.
    Update(R),
    /// The row under this key was removed.
    Delete(R::Key),
}

/// What a table holds after one more change.
pub open spec fn applied<R: Row>(
    contents: Map<R::Key, <R as View>::V>,
    change: Change<R>,
) -> Map<R::Key, <R as View>::V> {
    match change {
        Change::Insert(row) => contents.insert(R::key(row@), row@),
        Change::Update(row) => contents.insert(R::key(row@), row@),
        Change::Delete(key) => contents.remove(key),
    }
}

/// Whether a change can be made: an insertion needs a key that is free, an
/// update or a deletion one that is in use.
pub open spec fn permitted<R: Row>(
    contents: Map<R::Key, <R as View>::V>,
    change: Change<R>,
) -> bool {
    match change {
        Change::Insert(row) => !contents.contains_key(R::key(row@)),
        Change::Update(row) => contents.contains_key(R::key(row@)),
        Change::Delete(key) => contents.contains_key(key),
    }
}

/// What a table holds after a series of changes, made in order.
pub open spec fn replayed<R: Row>(
    contents: Map<R::Key, <R as View>::V>,
    changes: Seq<Change<R>>,
) -> Map<R::Key, <R as View>::V>
    decreases changes.len(),
{
    if changes.len() == 0 {
        contents
    } else {
        applied(replayed(contents, changes.drop_last()), changes.last())
    }
}

/// Whether a series of changes can be made in order, each one permitted where
/// it stands.
pub open spec fn replayable<R: Row>(
    contents: Map<R::Key, <R as View>::V>,
    changes: Seq<Change<R>>,
) -> bool
    decreases changes.len(),
{
    changes.len() > 0 ==> {
        &&& replayable(contents, changes.drop_last())
        &&& permitted(replayed(contents, changes.drop_last()), changes.last())
    }
}

/// Changes are made one after the other. One more insertion or update puts its
/// row under the row's own key and leaves all other keys alone, one more deletion
/// takes out its key and nothing else. The first needs a key that is free, the
/// others one that is in use.
pub proof fn law_one_more_change<R: Row>(
    contents: Map<R::Key, <R as View>::V>,
    changes: Seq<Change<R>>,
    change: Change<R>,
)
    ensures
        replayed(contents, Seq::<Change<R>>::empty()) == contents,
        replayable(contents, Seq::<Change<R>>::empty()),
        ({
            let before = replayed(contents, changes);
            let next = replayed(contents, changes.push(change));
            let can = replayable(contents, changes.push(change));
            match change {
                Change::Insert(row) => {
                    &&& next == before.insert(R::key(row@), row@)
                    &&& can <==> replayable(contents, changes) && !before.contains_key(
                        R::key(row@),
                    )
                },
                Change::Update(row) => {
                    &&& next == before.insert(R::key(row@), row@)
                    &&& can <==> replayable(contents, changes) && before.contains_key(R::key(row@))
                },
                Change::Delete(key) => {
                    &&& next == before.remove(key)
                    &&& can <==> replayable(contents, changes) && before.contains_key(key)
                },
            }
        }),
{
    assert(changes.push(change).drop_last() =~= changes);
}

/// Rows with distinct keys are found by them: a key is in use exactly when some
/// row has it, and then leads to that row.
pub proof fn law_rows_are_found_by_key<R: Row>(rows: Seq<R>, key: R::Key)
    ensures
        keys_distinct(rows) <==> (forall|i: int, j: int|
            #![trigger rows[i], rows[j]]
            0 <= i < rows.len() && 0 <= j < rows.len() && R::key(rows[i]@) == R::key(rows[j]@)
                ==> i == j),
        by_key(rows).contains_key(key) <==> (exists|i: int|
            0 <= i < rows.len() && R::key(#[trigger] rows[i]@) == key),
        keys_distinct(rows) ==> forall|i: int|
            0 <= i < rows.len() && R::key(#[trigger] rows[i]@) == key ==> by_key(rows)[key]
                == rows[i]@,
{
    if keys_distinct(rows) {
        lemma_by_key(rows);
        assert forall|i: int, j: int|
            #![trigger rows[i], rows[j]]
            0 <= i < rows.len() && 0 <= j < rows.len() && R::key(rows[i]@) == R::key(
                rows[j]@,
            ) implies i == j by {
            assert(by_key(rows)[R::key(rows[i]@)] == rows[i]@);
            assert(by_key(rows)[R::key(rows[j]@)] == rows[j]@);
        }
    } else {
        let (i, j) = choose|i: int, j: int|
            0 <= i < j < rows.len() && R::key(#[trigger] rows[i]@) == R::key(#[trigger] rows[j]@);
        assert(rows[i] == rows[i] && rows[j] == rows[j]);
    }
}

/// Whether every inserted key is free among the rows that are not in the part.
pub open spec fn inserts_are_free<R: Row>(
    all: Map<R::Key, <R as View>::V>,
    part: Map<R::Key, <R as View>::V>,
    changes: Seq<Change<R>>,
) -> bool {
    forall|i: int|
        0 <= i < changes.len() ==> (#[trigger] changes[i] matches Change::Insert(row)
            ==> all.contains_key(R::key(row@)) ==> part.contains_key(R::key(row@)))
}

/// The rows of a table after a part of them was replaced.
pub open spec fn replaced<K, V>(all: Map<K, V>, part: Map<K, V>, by: Map<K, V>) -> Map<K, V> {
    all.remove_keys(part.dom()).union_prefer_right(by)
}

/// Changes that were made on a part of the rows can be made on all of them, and
/// then do to the part what they did before and leave every other row alone.
pub proof fn law_changes_keep_to_their_part<R: Row>(
    all: Map<R::Key, <R as View>::V>,
    part: Map<R::Key, <R as View>::V>,
    changes: Seq<Change<R>>,
)
    requires
        part.submap_of(all),
        replayable(part, changes),
        inserts_are_free(all, part, changes),
    ensures
        replayable(all, changes),
        replayed(all, changes) == replaced(all, part, replayed(part, changes)),
        forall|key: R::Key| #[trigger]
            replayed(part, changes).contains_key(key) && all.contains_key(key)
                ==> part.contains_key(key),
    decreases changes.len(),
{
    if changes.len() > 0 {
        let earlier = changes.drop_last();
        assert(inserts_are_free(all, part, earlier)) by {
            assert forall|i: int| 0 <= i < earlier.len() implies (
            #[trigger] earlier[i] matches Change::Insert(row) ==> all.contains_key(R::key(row@))
                ==> part.contains_key(R::key(row@))) by {
                assert(earlier[i] == changes[i]);
            }
        }
        law_changes_keep_to_their_part(all, part, earlier);
        assert(changes.last() == changes[changes.len() - 1]);
    }
    assert(replayed(all, changes) =~= replaced(all, part, replayed(part, changes)));
}

/// Whether some row of the sequence has this key.
pub open spec fn listed<R: Row>(rows: Seq<R>, key: R::Key) -> bool {
    exists|i: int| 0 <= i < rows.len() && R::key(#[trigger] rows[i]@) == key
}

/// Whether no two rows of the sequence share a key.
pub open spec fn keys_distinct<R: Row>(rows: Seq<R>) -> bool {
    forall|i: int, j: int|
        0 <= i < j < rows.len() ==> R::key(#[trigger] rows[i]@) != R::key(#[trigger] rows[j]@)
}

/// The rows of a sequence by their keys.
pub open spec fn by_key<R: Row>(rows: Seq<R>) -> Map<R::Key, <R as View>::V> {
    Map::new(
        |key: R::Key| listed(rows, key),
        |key: R::Key|
            rows[choose|i: int| 0 <= i < rows.len() && R::key(#[trigger] rows[i]@) == key]@,
    )
}

proof fn lemma_by_key_at<R: Row>(rows: Seq<R>, i: int)
    requires
        keys_distinct(rows),
        0 <= i < rows.len(),
    ensures
        by_key(rows).contains_key(R::key(rows[i]@)),
        by_key(rows)[R::key(rows[i]@)] == rows[i]@,
{
    let key = R::key(rows[i]@);
    assert(listed(rows, key));
    let j = choose|j: int| 0 <= j < rows.len() && R::key(#[trigger] rows[j]@) == key;
    assert(i == j);
}

proof fn lemma_by_key<R: Row>(rows: Seq<R>)
    requires
        keys_distinct(rows),
    ensures
        forall|i: int|
            0 <= i < rows.len() ==> {
                &&& by_key(rows).contains_key(R::key(#[trigger] rows[i]@))
                &&& by_key(rows)[R::key(rows[i]@)] == rows[i]@
            },
{
    assert forall|i: int| 0 <= i < rows.len() implies {
        &&& by_key(rows).contains_key(R::key(#[trigger] rows[i]@))
        &&& by_key(rows)[R::key(rows[i]@)] == rows[i]@
    } by {
        lemma_by_key_at(rows, i);
    }
}

/// A table: rows under distinct primary keys, and the changes made since the
/// table was loaded.
pub struct Table<R: Row> {
    rows: Vec<R>,
    changes: Vec<Change<R>>,
    origin: Ghost<Map<R::Key, <R as View>::V>>,
}

impl<R: Row> View for Table<R> {
    type V = Map<R::Key, <R as View>::V>;

    /// The rows by their keys.
    closed spec fn view(&self) -> Map<R::Key, <R as View>::V> {
        by_key(self.rows@)
    }
}

impl<R: Row> Table<R> {
    /// What the table held when it was loaded.
    pub closed spec fn origin(&self) -> Map<R::Key, <R as View>::V> {
        self.origin@
    }

    /// The changes made since the table was loaded.
    pub closed spec fn changes(&self) -> Seq<Change<R>> {
        self.changes@
    }

    /// The invariant of a table: keys are distinct, and the recorded changes,
    /// made in order on what was loaded, lead to what the table holds.
    pub closed spec fn wf(&self) -> bool {
        &&& keys_distinct(self.rows@)
        &&& replayable(self.origin@, self.changes@)
        &&& replayed(self.origin@, self.changes@) == by_key(self.rows@)
    }

    proof fn lemma_size(&self)
        requires
            self.wf(),
        ensures
            self@.dom().finite(),
            self@.dom().len() == self.rows@.len(),
    {
        let keys = self.rows@.map_values(|row: R| R::key(row@));
        assert(keys.no_duplicates()) by {
            assert forall|i: int, j: int|
                0 <= i < keys.len() && 0 <= j < keys.len() && i != j implies keys[i]
                != keys[j] by {
                assert(R::key(self.rows@[i]@) == keys[i]);
                assert(R::key(self.rows@[j]@) == keys[j]);
            }
        }
        keys.unique_seq_to_set();
        vstd::seq_lib::seq_to_set_is_finite(keys);
        assert(self@.dom() =~= keys.to_set()) by {
            assert forall|key: R::Key| self@.dom().contains(key) implies keys.contains(key) by {
                let i = choose|i: int|
                    0 <= i < self.rows@.len() && R::key(#[trigger] self.rows@[i]@) == key;
                assert(keys[i] == key);
            }
            assert forall|key: R::Key| keys.contains(key) implies self@.dom().contains(key) by {
                let i = choose|i: int| 0 <= i < keys.len() && keys[i] == key;
                assert(R::key(self.rows@[i]@) == key);
            }
        }
    }

    /// Every row of a table stands under its own key, and a table is finite.
    pub proof fn lemma_keyed(&self)
        requires
            self.wf(),
        ensures
            forall|key: R::Key| #[trigger] self@.contains_key(key) ==> R::key(self@[key]) == key,
            self@.dom().finite(),
    {
        self.lemma_size();
        assert forall|key: R::Key| #[trigger] self@.contains_key(key) implies R::key(self@[key])
            == key by {
            assert(listed(self.rows@, key));
        }
    }

    /// A table holds exactly what its recorded changes make of what was loaded,
    /// and each of them is permitted when its turn comes.
    pub proof fn law_replay(&self)
        requires
            self.wf(),
        ensures
            replayable(self.origin(), self.changes()),
            replayed(self.origin(), self.changes()) == self@,
    {
    }

    /// An empty table.
    pub fn new() -> (table: Self)
        ensures
            table.wf(),
            table@ == Map::<R::Key, <R as View>::V>::empty(),
            table.origin() == table@,
            table.changes().len() == 0,
    {
        let table = Table {
            rows: Vec::new(),
            changes: Vec::new(),
            origin: Ghost(Map::empty()),
        };
        assert(by_key(table.rows@) =~= Map::empty());
        table
    }

    /// A table that holds the given rows. `None` exactly when two of them share
    /// a key.
    pub fn load(rows: Vec<R>) -> (table: Option<Self>)
        ensures
            table is Some <==> keys_distinct(rows@),
            table matches Some(t) ==> {
                &&& t.wf()
                &&& t@ == by_key(rows@)
                &&& t.origin() == t@
                &&& t.changes().len() == 0
            },
    {
        let mut i: usize = 0;
        while i < rows.len()
            invariant
                i <= rows.len(),
                forall|a: int, b: int|
                    0 <= a < b < i ==> R::key(#[trigger] rows@[a]@) != R::key(
                        #[trigger] rows@[b]@,
                    ),
            decreases rows.len() - i,
        {
            let key = rows[i].primary_key();
            let mut j: usize = 0;
            while j < i
                invariant
                    j <= i < rows.len(),
                    key == R::key(rows@[i as int]@),
                    forall|a: int| 0 <= a < j ==> R::key(#[trigger] rows@[a]@) != key,
                decreases i - j,
            {
                if rows[j].has_key(&key) {
                    assert(R::key(rows@[j as int]@) == R::key(rows@[i as int]@));
                    return None;
                }
                j += 1;
            }
            i += 1;
        }
        let ghost contents = by_key(rows@);
        Some(Table { rows, changes: Vec::new(), origin: Ghost(contents) })
    }

    /// The position of the row under `key`.
    fn position(&self, key: &R::Key) -> (found: Option<usize>)
        requires
            self.wf(),
        ensures
            found is Some <==> self@.contains_key(*key),
            found matches Some(i) ==> {
                &&& i < self.rows@.len()
                &&& R::key(self.rows@[i as int]@) == *key
                &&& self@[*key] == self.rows@[i as int]@
            },
    {
        let mut i: usize = 0;
        while i < self.rows.len()
            invariant
                i <= self.rows@.len(),
                self.wf(),
                forall|j: int| 0 <= j < i ==> R::key(#[trigger] self.rows@[j]@) != *key,
            decreases self.rows.len() - i,
        {
            if self.rows[i].has_key(key) {
                proof {
                    lemma_by_key_at(self.rows@, i as int);
                }
                return Some(i);
            }
            i += 1;
        }
        None
    }

    /// A copy of the row under `key`.
    pub fn find(&self, key: &R::Key) -> (row: Option<R>)
        requires
            self.wf(),
        ensures
            row is Some <==> self@.contains_key(*key),
            row matches Some(r) ==> r@ == self@[*key] && R::key(r@) == *key,
    {
        match self.position(key) {
            Some(i) => Some(self.rows[i].duplicate()),
            None => None,
        }
    }

    /// Whether there is a row under `key`.
    pub fn contains(&self, key: &R::Key) -> (b: bool)
        requires
            self.wf(),
        ensures
            b == self@.contains_key(*key),
    {
        self.position(key).is_some()
    }

    /// The number of rows.
    pub fn count(&self) -> (n: usize)
        requires
            self.wf(),
        ensures
            self@.dom().finite(),
            n == self@.dom().len(),
    {
        proof {
            self.lemma_size();
        }
        self.rows.len()
    }

    /// The rows, in no particular order.
    pub fn rows(&self) -> (rows: &Vec<R>)
        requires
            self.wf(),
        ensures
            keys_distinct(rows@),
            forall|i: int|
                0 <= i < rows@.len() ==> {
                    &&& self@.contains_key(R::key(#[trigger] rows@[i]@))
                    &&& self@[R::key(rows@[i]@)] == rows@[i]@
                },
            forall|key: R::Key| #[trigger] self@.contains_key(key) ==> listed(rows@, key),
    {
        proof {
            lemma_by_key(self.rows@);
        }
        &self.rows
    }

    /// Records a change.
    fn record(&mut self, change: Change<R>)
        requires
            replayable(old(self).origin@, old(self).changes@),
            permitted(replayed(old(self).origin@, old(self).changes@), change),
        ensures
            final(self).rows == old(self).rows,
            final(self).origin == old(self).origin,
            final(self).changes@ == old(self).changes@.push(change),
            replayable(final(self).origin@, final(self).changes@),
            replayed(final(self).origin@, final(self).changes@) == applied(
                replayed(old(self).origin@, old(self).changes@),
                change,
            ),
    {
        self.changes.push(change);
        assert(self.changes@.drop_last() =~= old(self).changes@);
    }

    /// Adds a row under a key that is not in use.
    pub fn insert(&mut self, row: R)
        requires
            old(self).wf(),
            !old(self)@.contains_key(R::key(row@)),
        ensures
            final(self).wf(),
            final(self)@ == old(self)@.insert(R::key(row@), row@),
            final(self).origin() == old(self).origin(),
    {
        let ghost before = self.rows@;
        self.record(Change::Insert(row.duplicate()));
        self.rows.push(row);
        proof {
            let after = self.rows@;
            let key = R::key(row@);
            assert forall|i: int, j: int| 0 <= i < j < after.len() implies R::key(
                #[trigger] after[i]@,
            ) != R::key(#[trigger] after[j]@) by {
                assert(after[i] == before[i]);
                if j < before.len() {
                    assert(after[j] == before[j]);
                } else {
                    assert(listed(before, R::key(before[i]@)));
                }
            }
            lemma_by_key(before);
            lemma_by_key(after);
            assert(by_key(after) =~= by_key(before).insert(key, row@)) by {
                assert forall|k: R::Key| listed(after, k) <==> (k == key || listed(before, k)) by {
                    if listed(before, k) {
                        let i = choose|i: int|
                            0 <= i < before.len() && R::key(#[trigger] before[i]@) == k;
                        assert(after[i] == before[i]);
                    }
                    if listed(after, k) {
                        let i = choose|i: int|
                            0 <= i < after.len() && R::key(#[trigger] after[i]@) == k;
                        if i < before.len() {
                            assert(after[i] == before[i]);
                        }
                    }
                    assert(R::key(after[before.len() as int]@) == key);
                }
                assert forall|k: R::Key| listed(after, k) implies by_key(after)[k] == by_key(
                    before,
                ).insert(key, row@)[k] by {
                    let i = choose|i: int| 0 <= i < after.len() && R::key(#[trigger] after[i]@) == k;
                    if i < before.len() {
                        assert(after[i] == before[i]);
                    }
                }
            }
        }
    }

    /// Replaces the row that has the given row's key.
    pub fn update(&mut self, row: R)
        requires
            old(self).wf(),
            old(self)@.contains_key(R::key(row@)),
        ensures
            final(self).wf(),
            final(self)@ == old(self)@.insert(R::key(row@), row@),
            final(self).origin() == old(self).origin(),
    {
        let key = row.primary_key();
        match self.position(&key) {
            Some(at) => {
                let ghost before = self.rows@;
                self.record(Change::Update(row.duplicate()));
                self.rows.set(at, row);
                proof {
                    let after = self.rows@;
                    assert forall|i: int| 0 <= i < after.len() implies R::key(
                        #[trigger] after[i]@,
                    ) == R::key(before[i]@) by {}
                    assert forall|i: int, j: int| 0 <= i < j < after.len() implies R::key(
                        #[trigger] after[i]@,
                    ) != R::key(#[trigger] after[j]@) by {
                        assert(R::key(before[i]@) != R::key(before[j]@));
                    }
                    lemma_by_key(before);
                    lemma_by_key(after);
                    assert(by_key(after) =~= by_key(before).insert(key, row@)) by {
                        assert forall|k: R::Key| listed(after, k) <==> listed(before, k) by {
                            if listed(before, k) {
                                let i = choose|i: int|
                                    0 <= i < before.len() && R::key(#[trigger] before[i]@) == k;
                                assert(R::key(after[i]@) == k);
                            }
                            if listed(after, k) {
                                let i = choose|i: int|
                                    0 <= i < after.len() && R::key(#[trigger] after[i]@) == k;
                                assert(R::key(before[i]@) == k);
                            }
                        }
                        assert forall|k: R::Key| listed(after, k) implies by_key(after)[k]
                            == by_key(before).insert(key, row@)[k] by {
                            let i = choose|i: int|
                                0 <= i < after.len() && R::key(#[trigger] after[i]@) == k;
                            assert(R::key(before[i]@) == k);
                            assert(R::key(before[at as int]@) == key);
                        }
                    }
                }
            },
            None => {},
        }
    }

    /// Removes the row under `key`. Says whether there was one.
    pub fn delete(&mut self, key: R::Key) -> (found: bool)
        requires
            old(self).wf(),
        ensures
            final(self).wf(),
            final(self)@ == old(self)@.remove(key),
            final(self).origin() == old(self).origin(),
            found == old(self)@.contains_key(key),
    {
        match self.position(&key) {
            Some(at) => {
                let ghost before = self.rows@;
                self.record(Change::Delete(key));
                self.rows.remove(at);
                proof {
                    let after = self.rows@;
                    assert(after =~= before.remove(at as int));
                    assert forall|i: int| 0 <= i < after.len() implies #[trigger] after[i]
                        == before[if i < at { i } else { i + 1 }] by {}
                    assert forall|i: int, j: int| 0 <= i < j < after.len() implies R::key(
                        #[trigger] after[i]@,
                    ) != R::key(#[trigger] after[j]@) by {
                        let a = if i < at { i } else { i + 1 };
                        let b = if j < at { j } else { j + 1 };
                        assert(R::key(before[a]@) != R::key(before[b]@));
                    }
                    lemma_by_key(before);
                    lemma_by_key(after);
                    assert(by_key(after) =~= by_key(before).remove(key)) by {
                        assert forall|k: R::Key| listed(after, k) <==> (k != key && listed(
                            before,
                            k,
                        )) by {
                            if k != key && listed(before, k) {
                                let i = choose|i: int|
                                    0 <= i < before.len() && R::key(#[trigger] before[i]@) == k;
                                let a = if i < at { i } else { i - 1 };
                                assert(after[a] == before[i]);
                                assert(R::key(after[a]@) == k);
                            }
                            if listed(after, k) {
                                let i = choose|i: int|
                                    0 <= i < after.len() && R::key(#[trigger] after[i]@) == k;
                                let a = if i < at { i } else { i + 1 };
                                assert(R::key(before[a]@) == k);
                                assert(R::key(before[at as int]@) == key);
                            }
                        }
                        assert forall|k: R::Key| listed(after, k) implies by_key(after)[k]
                            == by_key(before).remove(key)[k] by {
                            let i = choose|i: int|
                                0 <= i < after.len() && R::key(#[trigger] after[i]@) == k;
                            let a = if i < at { i } else { i + 1 };
                            assert(R::key(before[a]@) == k);
                        }
                    }
                }
                true
            },
            None => {
                assert(self@.remove(key) =~= self@);
                false
            },
        }
    }

    /// The changes made since the table was loaded, in the order in which they
    /// were made.
    pub fn into_changes(self) -> (changes: Vec<Change<R>>)
        requires
            self.wf(),
        ensures
            changes@ == self.changes(),
            replayable(self.origin(), changes@),
            replayed(self.origin(), changes@) == self@,
    {
        self.changes
    }
}

} // verus!
