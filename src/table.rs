//! A table of rows keyed by id, walked in the order in which ids first
//! arrived.
use vstd::prelude::*;
use std::collections::HashMap;
use crate::record::{Row, RowView};

verus! {

broadcast use vstd::std_specs::hash::group_hash_axioms;

/// Rows keyed by their id; a later row with the same id replaces the
/// earlier one but keeps its place in the walk order.
pub struct Table {
    rows: HashMap<u32, Row>,
    order: Vec<u32>,
}

/// Mathematical form of a [`Table`]: its entries, and the ids in walk
/// order.
pub struct TableView {
    pub entries: Map<u32, RowView>,
    pub order: Seq<u32>,
}

/// Each id appears once in the walk order, and the walk visits exactly the
/// ids that have an entry, each entry being filed under its own id.
pub open spec fn table_wf(t: TableView) -> bool {
    &&& t.order.no_duplicates()
    &&& forall|k: u32| t.entries.contains_key(k) <==> t.order.contains(k)
    &&& forall|k: u32| #[trigger] t.entries.contains_key(k) ==> t.entries[k].id == k
}

/// The table after filing `r` under its id.
pub open spec fn table_insert(t: TableView, r: RowView) -> TableView {
    TableView {
        entries: t.entries.insert(r.id, r),
        order: if t.entries.contains_key(r.id) {
            t.order
        } else {
            t.order.push(r.id)
        },
    }
}

/// The empty table.
pub open spec fn empty_table() -> TableView {
    TableView { entries: Map::empty(), order: Seq::empty() }
}

impl View for Table {
    type V = TableView;

    closed spec fn view(&self) -> TableView {
        TableView {
            entries: self.rows@.map_values(|r: Row| r@),
            order: self.order@,
        }
    }
}

impl Table {
    pub fn new() -> (t: Table)
        ensures
            t@ == empty_table(),
    {
        let t = Table { rows: HashMap::new(), order: Vec::new() };
        assert(t@.entries =~= Map::empty());
        t
    }

    /// Files `row` under its id.
    pub fn insert(&mut self, row: Row)
        ensures
            final(self)@ == table_insert(old(self)@, row@),
    {
        let id = row.id;
        if !self.rows.contains_key(&id) {
            self.order.push(id);
        }
        self.rows.insert(id, row);
        assert(final(self)@.entries =~= old(self)@.entries.insert(id, row@));
    }

    /// The row filed under `id`.
    pub fn get(&self, id: u32) -> (r: Option<&Row>)
        ensures
            match r {
                Some(x) => self@.entries.contains_key(id) && x@ == self@.entries[id],
                None => !self@.entries.contains_key(id),
            },
    {
        self.rows.get(&id)
    }

    /// The number of ids in the walk order.
    pub fn len(&self) -> (n: usize)
        ensures
            n == self@.order.len(),
    {
        self.order.len()
    }

    /// The `i`-th id of the walk order.
    pub fn id_at(&self, i: usize) -> (id: u32)
        requires
            i < self@.order.len(),
        ensures
            id == self@.order[i as int],
    {
        self.order[i]
    }
}

/// Filing a row keeps a table well formed.
pub proof fn lemma_insert_keeps_table_wf(t: TableView, r: RowView)
    requires
        table_wf(t),
    ensures
        table_wf(table_insert(t, r)),
{
    let u = table_insert(t, r);
    if !t.entries.contains_key(r.id) {
        assert(!t.order.contains(r.id));
        assert forall|k: u32| u.entries.contains_key(k) <==> u.order.contains(k) by {
            if k == r.id {
                assert(u.order[t.order.len() as int] == k);
            } else if t.order.contains(k) {
                let j = choose|j: int| 0 <= j < t.order.len() && t.order[j] == k;
                assert(u.order[j] == k);
            } else if u.order.contains(k) {
                let j = choose|j: int| 0 <= j < u.order.len() && u.order[j] == k;
                assert(t.order[j] == k);
            }
        }
    }
}

} // verus!
