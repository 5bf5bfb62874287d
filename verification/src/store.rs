use crate::database::Change;
use crate::event::EventHandler;
use crate::seqs::distinct_by;
use crate::seqs::lemma_filter_distinct_by;
use crate::seqs::lemma_filter_push;
use vstd::prelude::*;

verus! {

/// What is kept of one log file: where it is, how far it has been read,
/// and the container that writes it.
#[derive(Debug, PartialEq)]
pub struct Row {
    pub uuid: String,
    pub offset: usize,
    pub inode: usize,
    pub namespace: String,
    pub pod: String,
    pub container: String,
}

/// A row as the contracts see it.
pub struct RowView {
    pub uuid: Seq<char>,
    pub offset: usize,
    pub inode: usize,
    pub namespace: Seq<char>,
    pub pod: Seq<char>,
    pub container: Seq<char>,
}

impl View for Row {
    type V = RowView;

    open spec fn view(&self) -> RowView {
        RowView {
            uuid: self.uuid@,
            offset: self.offset,
            inode: self.inode,
            namespace: self.namespace@,
            pod: self.pod@,
            container: self.container@,
        }
    }
}

impl Clone for Row {
    fn clone(&self) -> (r: Self)
        ensures
            r@ == self@,
    {
        Row {
            uuid: self.uuid.clone(),
            offset: self.offset,
            inode: self.inode,
            namespace: self.namespace.clone(),
            pod: self.pod.clone(),
            container: self.container.clone(),
        }
    }
}

/// A key with the row kept under it.
pub type Entry = (Seq<char>, RowView);

/// The key of an entry.
pub open spec fn entry_key() -> spec_fn(Entry) -> Seq<char> {
    |e: Entry| e.0
}

/// The row of an entry.
pub open spec fn entry_row() -> spec_fn(Entry) -> RowView {
    |e: Entry| e.1
}

/// The test for "is kept under another key than `key`".
pub open spec fn not_under(key: Seq<char>) -> spec_fn(Entry) -> bool {
    |e: Entry| e.0 != key
}

/// The least index at or after `from` of the entry with key `key`; the
/// length of `rows` where there is none.
pub open spec fn slot_from(rows: Seq<Entry>, key: Seq<char>, from: int) -> int
    decreases rows.len() - from,
{
    if from < 0 || from >= rows.len() {
        rows.len() as int
    } else if rows[from].0 == key {
        from
    } else {
        slot_from(rows, key, from + 1)
    }
}

/// The index of the entry with key `key`; the length of `rows` where
/// there is none.
pub open spec fn slot(rows: Seq<Entry>, key: Seq<char>) -> int {
    slot_from(rows, key, 0)
}

/// `slot_from` is the first entry with the key at or after `from`.
pub proof fn lemma_slot_from(rows: Seq<Entry>, key: Seq<char>, from: int)
    requires
        0 <= from <= rows.len(),
    ensures
        from <= slot_from(rows, key, from) <= rows.len(),
        slot_from(rows, key, from) < rows.len() ==> rows[slot_from(rows, key, from)].0 == key,
        forall|j: int| from <= j < slot_from(rows, key, from) ==> (#[trigger] rows[j]).0 != key,
    decreases rows.len() - from,
{
    if from < rows.len() && rows[from].0 != key {
        lemma_slot_from(rows, key, from + 1);
    }
}

/// The entries after `row` has been put under `key`: it takes the place of
/// the row that was there, or comes behind the others.
pub open spec fn put(rows: Seq<Entry>, key: Seq<char>, row: RowView) -> Seq<Entry> {
    if slot(rows, key) < rows.len() {
        rows.update(slot(rows, key), (key, row))
    } else {
        rows.push((key, row))
    }
}

/// The entries after what was under `key` has been taken out.
pub open spec fn dropped(rows: Seq<Entry>, key: Seq<char>) -> Seq<Entry> {
    rows.filter(not_under(key))
}

/// Putting a row under a key and taking a key out keep the keys apart.
pub proof fn lemma_keys_stay_apart(rows: Seq<Entry>, key: Seq<char>, row: RowView)
    requires
        distinct_by(rows, entry_key()),
    ensures
        distinct_by(put(rows, key, row), entry_key()),
        distinct_by(dropped(rows, key), entry_key()),
{
    lemma_slot_from(rows, key, 0);
    lemma_filter_distinct_by(rows, entry_key(), not_under(key));
    let next = put(rows, key, row);
    assert forall|i: int, j: int| 0 <= i < j < next.len() implies entry_key()(#[trigger] next[i])
        != entry_key()(#[trigger] next[j]) by {
        if slot(rows, key) < rows.len() {
            assert(entry_key()(next[i]) == entry_key()(rows[i]));
            assert(entry_key()(next[j]) == entry_key()(rows[j]));
        } else if j < rows.len() {
            assert(next[i] == rows[i] && next[j] == rows[j]);
        } else {
            assert(next[i] == rows[i]);
        }
    }
}

/// Rows under their keys as the contracts see them.
pub open spec fn entry_views(s: Seq<(String, Row)>) -> Seq<Entry> {
    s.map_values(|e: (String, Row)| (e.0@, e.1@))
}

/// Rows as the contracts see them.
pub open spec fn row_views(s: Seq<Row>) -> Seq<RowView> {
    s.map_values(|r: Row| r@)
}

/// A table of rows under keys, which tells its listeners of every row
/// that is added, updated or deleted.
pub struct Database {
    rows: Vec<(String, Row)>,
    event_handler: EventHandler<Row>,
}

impl View for Database {
    type V = Seq<Entry>;

    closed spec fn view(&self) -> Seq<Entry> {
        entry_views(self.rows@)
    }
}

impl Database {
    /// The invariant of the table: no two rows are kept under one key.
    pub open spec fn wf(&self) -> bool {
        distinct_by(self@, entry_key())
    }

    /// The event names of the listeners of the table.
    pub closed spec fn listeners(&self) -> Seq<Seq<char>> {
        self.event_handler.names()
    }

    /// An empty table with the listeners of `event_handler`.
    pub fn new(event_handler: EventHandler<Row>) -> (r: Self)
        ensures
            r@ == Seq::<Entry>::empty(),
            r.wf(),
            r.listeners() == event_handler.names(),
    {
        let r = Self { rows: Vec::new(), event_handler };
        assert(r@ =~= Seq::<Entry>::empty());
        r
    }

    /// The index of the entry with key `key`, or the number of entries.
    fn find(&self, key: &String) -> (i: usize)
        ensures
            i == slot(self@, key@),
            i <= self.rows@.len(),
    {
        let mut i: usize = 0;
        while i < self.rows.len() && self.rows[i].0 != *key
            invariant
                i <= self.rows@.len(),
                slot(self@, key@) == slot_from(self@, key@, i as int),
            decreases self.rows@.len() - i,
        {
            i = i + 1;
        }
        i
    }

    /// A copy of every row, in the order in which their keys came.
    pub fn all(&mut self) -> (r: Result<Vec<Row>, String>)
        ensures
            final(self)@ == old(self)@,
            final(self).listeners() == old(self).listeners(),
            r matches Ok(rows) && row_views(rows@) == old(self)@.map_values(entry_row()),
    {
        let mut result: Vec<Row> = Vec::new();
        let mut i: usize = 0;
        while i < self.rows.len()
            invariant
                i <= self.rows@.len(),
                row_views(result@) =~= self@.take(i as int).map_values(entry_row()),
            decreases self.rows@.len() - i,
        {
            let ghost seen = row_views(result@);
            result.push(self.rows[i].1.clone());
            assert(row_views(result@) =~= seen.push(entry_row()(self@[i as int])));
            i = i + 1;
        }
        assert(self@.take(i as int) =~= self@);
        Ok(result)
    }

    /// The row under `uuid`, if there is one.
    pub fn get_by_uuid(&self, uuid: String) -> (r: Option<&Row>)
        ensures
            r is Some == (slot(self@, uuid@) < self@.len()),
            r matches Some(row) ==> row@ == self@[slot(self@, uuid@)].1,
    {
        let i = self.find(&uuid);
        if i < self.rows.len() {
            Some(&self.rows[i].1)
        } else {
            None
        }
    }

    /// Puts `row` under `key`.
    fn insert(&mut self, key: String, row: Row)
        requires
            old(self).wf(),
        ensures
            final(self).wf(),
            final(self).listeners() == old(self).listeners(),
            final(self)@ == put(old(self)@, key@, row@),
    {
        proof {
            lemma_keys_stay_apart(self@, key@, row@);
        }
        let i = self.find(&key);
        if i < self.rows.len() {
            self.rows[i] = (key, row);
            assert(self@ =~= old(self)@.update(i as int, (key@, row@)));
        } else {
            self.rows.push((key, row));
            assert(self@ =~= old(self)@.push((key@, row@)));
        }
    }

    /// Tells the listeners of additions of `row`, and then puts it under
    /// `uuid`, in the place of the row that was there, if any.
    pub fn add_row(&mut self, uuid: String, row: Row) -> (r: Result<(), String>)
        requires
            old(self).wf(),
        ensures
            r is Ok,
            final(self).wf(),
            final(self).listeners() == old(self).listeners(),
            final(self)@ == put(old(self)@, uuid@, row@),
    {
        self.event_handler.publish(Change::Add.as_ref().to_owned(), row.clone());
        self.insert(uuid, row);
        Ok(())
    }

    /// Where there is a row under `uuid`: tells the listeners of
    /// deletions of it, and then takes it out.
    pub fn delete_row(&mut self, uuid: String) -> (r: Result<(), String>)
        requires
            old(self).wf(),
        ensures
            r is Ok,
            final(self).wf(),
            final(self).listeners() == old(self).listeners(),
            final(self)@ == dropped(old(self)@, uuid@),
    {
        let ghost all = self@;
        proof {
            lemma_keys_stay_apart(all, uuid@, arbitrary());
            lemma_slot_from(all, uuid@, 0);
            reveal(Seq::filter);
            assert(all.take(0).filter(not_under(uuid@)) =~= Seq::<Entry>::empty());
        }
        let i = self.find(&uuid);
        if i < self.rows.len() {
            self.event_handler.publish(Change::Delete.as_ref().to_owned(), self.rows[i].1.clone());
        }
        let mut kept: Vec<(String, Row)> = Vec::new();
        let mut k: usize = 0;
        while k < self.rows.len()
            invariant
                k <= self.rows@.len(),
                all == self@,
                entry_views(kept@) =~= all.take(k as int).filter(not_under(uuid@)),
            decreases self.rows@.len() - k,
        {
            let ghost held = entry_views(kept@);
            proof {
                assert(all.take(k + 1) =~= all.take(k as int).push(all[k as int]));
                lemma_filter_push(all.take(k as int), all[k as int], not_under(uuid@));
            }
            if self.rows[k].0 != uuid {
                kept.push((self.rows[k].0.clone(), self.rows[k].1.clone()));
                assert(entry_views(kept@) =~= held.push(all[k as int]));
            }
            k = k + 1;
        }
        assert(all.take(k as int) =~= all);
        self.rows = kept;
        Ok(())
    }

    /// Tells the listeners of updates of `row`, and then puts it under
    /// `uuid`, in the place of the row that was there, if any.
    pub fn update_row(&mut self, uuid: String, row: Row) -> (r: Result<(), String>)
        requires
            old(self).wf(),
        ensures
            r is Ok,
            final(self).wf(),
            final(self).listeners() == old(self).listeners(),
            final(self)@ == put(old(self)@, uuid@, row@),
    {
        self.event_handler.publish(Change::Update.as_ref().to_owned(), row.clone());
        self.insert(uuid, row);
        Ok(())
    }
}

} // verus!
