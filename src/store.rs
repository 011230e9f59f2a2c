use vstd::prelude::*;
use crate::column::{column_name, is_column_name, parse_column};
use crate::error::VehicleError;
use crate::qr_builder::{QrArtifact, create_qr_for_id, is_artifact_for};
use crate::repository::{
    FUZZY_LIMIT, find_by_id, has_id, lemma_absent_id_has_no_rows, lookup, result_view,
    rows_with_id, rows_without_id,
};
use crate::search::{distinct_values, fuzzy_search, lists_distinct_values, ranked_selection, texts};
use crate::vehicle::{Vehicle, VehicleView, views};

verus! {

/// The rows after every row with the given id took the given fields.
pub open spec fn updated(rows: Seq<VehicleView>, id: i32, fields: VehicleView) -> Seq<VehicleView> {
    rows.map_values(
        |r: VehicleView|
            if r.id == Some(id) {
                fields.with_id(Some(id))
            } else {
                r
            },
    )
}

/// The record store: the stored rows, and the id that the next insert will
/// issue. Ids are issued in increasing order and never reused.
///
/// This is an in-memory model of the vehicles table, on which the rules of
/// create, update, delete and lookup are stated and proved. The running
/// service keeps its records in the database instead and does not use this
/// type, so what is proved here of creates, updates and deletes says nothing
/// of the database's own behaviour.
pub struct VehicleStore {
    rows: Vec<Vehicle>,
    next_id: i64,
}

impl View for VehicleStore {
    type V = Seq<VehicleView>;

    closed spec fn view(&self) -> Seq<VehicleView> {
        views(self.rows@)
    }
}

impl VehicleStore {
    /// The id that the next insert will issue.
    pub closed spec fn next_id(&self) -> int {
        self.next_id as int
    }

    /// Every stored row has an id, issued before the next one, and no two rows
    /// share an id.
    pub open spec fn wf(&self) -> bool {
        &&& 1 <= self.next_id() <= i32::MAX + 1
        &&& forall|t: int|
            0 <= t < self@.len() ==> (#[trigger] self@[t].id matches Some(k) && 0 < k < self.next_id())
        &&& forall|s: int, t: int| 0 <= s < t < self@.len() ==> self@[s].id != self@[t].id
    }

    /// An empty store, whose first record will get id 1.
    pub fn new() -> (r: VehicleStore)
        ensures
            r.wf(),
            r@ == Seq::<VehicleView>::empty(),
            r.next_id() == 1,
    {
        let r = VehicleStore { rows: Vec::new(), next_id: 1 };
        assert(r@ =~= Seq::<VehicleView>::empty());
        r
    }

    /// Stores the fields of `v` under a fresh id, which it returns. The id of
    /// `v` itself is ignored. Fails with `StoreError` once the ids are spent.
    pub fn insert(&mut self, v: &Vehicle) -> (r: Result<i32, VehicleError>)
        requires
            old(self).wf(),
        ensures
            final(self).wf(),
            old(self).next_id() <= i32::MAX ==> {
                &&& r == Ok::<i32, VehicleError>(old(self).next_id() as i32)
                &&& final(self)@ == old(self)@.push(v@.with_id(Some(old(self).next_id() as i32)))
                &&& final(self).next_id() == old(self).next_id() + 1
            },
            old(self).next_id() > i32::MAX ==> {
                &&& r matches Err(VehicleError::StoreError(_))
                &&& final(self)@ == old(self)@
                &&& final(self).next_id() == old(self).next_id()
            },
    {
        if self.next_id > i32::MAX as i64 {
            return Err(VehicleError::StoreError("the id sequence is exhausted".to_string()));
        }
        let id = self.next_id as i32;
        let ghost before = self@;
        self.rows.push(v.with_id(Some(id)));
        self.next_id = self.next_id + 1;
        assert(self@ =~= before.push(v@.with_id(Some(id))));
        Ok(id)
    }

    /// Every stored record, in store order.
    pub fn get_vehicles(&self) -> (r: Vec<Vehicle>)
        ensures
            views(r@) == self@,
    {
        let mut out: Vec<Vehicle> = Vec::new();
        let mut i: usize = 0;
        while i < self.rows.len()
            invariant
                i <= self.rows@.len(),
                views(out@) == views(self.rows@).take(i as int),
            decreases self.rows@.len() - i,
        {
            let ghost before = views(out@);
            out.push(self.rows[i].duplicate());
            assert(views(out@) =~= before.push(self.rows@[i as int]@));
            i = i + 1;
            assert(views(out@) =~= views(self.rows@).take(i as int));
        }
        assert(views(self.rows@).take(i as int) =~= views(self.rows@));
        out
    }

    /// The record with the given id: `NotFound` when there is none, and
    /// `DataIntegrityFault` when more than one row carries it.
    pub fn get_vehicle_info(&self, id: i32) -> (r: Result<Vehicle, VehicleError>)
        ensures
            result_view(r) == lookup(self@, id),
    {
        find_by_id(&self.rows, id)
    }

    /// Whether a record with the given id is stored.
    pub fn contains_id(&self, id: i32) -> (r: bool)
        ensures
            r == has_id(self@, id),
    {
        let mut i: usize = 0;
        while i < self.rows.len()
            invariant
                i <= self.rows@.len(),
                forall|t: int| 0 <= t < i ==> self@[t].id != Some(id),
            decreases self.rows@.len() - i,
        {
            if self.rows[i].id == Some(id) {
                assert(self@[i as int].id == Some(id));
                return true;
            }
            i = i + 1;
        }
        false
    }

    /// Gives every row with the given id the fields of `v`, keeping the id,
    /// and returns how many rows changed. An absent id changes nothing and is
    /// no error.
    pub fn update(&mut self, id: i32, v: &Vehicle) -> (r: usize)
        requires
            old(self).wf(),
        ensures
            final(self).wf(),
            final(self)@ == updated(old(self)@, id, v@),
            final(self).next_id() == old(self).next_id(),
            r == rows_with_id(old(self)@, id).len(),
    {
        let ghost before = self@;
        let mut count: usize = 0;
        let mut i: usize = 0;
        while i < self.rows.len()
            invariant
                before.len() == self@.len(),
                self.next_id() == old(self).next_id(),
                i <= self@.len(),
                count == rows_with_id(before.take(i as int), id).len(),
                count <= i,
                forall|t: int| 0 <= t < i ==> self@[t] == updated(before, id, v@)[t],
                forall|t: int| i <= t < self@.len() ==> self@[t] == before[t],
            decreases self@.len() - i,
        {
            assert(before.take(i + 1).drop_last() =~= before.take(i as int));
            if self.rows[i].id == Some(id) {
                let row = v.with_id(Some(id));
                let ghost prior = self@;
                self.rows.set(i, row);
                assert(self@ =~= prior.update(i as int, v@.with_id(Some(id))));
                count = count + 1;
            }
            assert(self@[i as int] == updated(before, id, v@)[i as int]);
            i = i + 1;
        }
        assert(before.take(i as int) =~= before);
        assert(self@ =~= updated(before, id, v@));
        count
    }

    /// Removes every row with the given id and returns how many went. An
    /// absent id removes nothing and is no error.
    pub fn delete(&mut self, id: i32) -> (r: usize)
        requires
            old(self).wf(),
        ensures
            final(self).wf(),
            final(self)@ == rows_without_id(old(self)@, id),
            final(self).next_id() == old(self).next_id(),
            r == rows_with_id(old(self)@, id).len(),
    {
        let ghost before = self@;
        let mut kept: Vec<Vehicle> = Vec::new();
        let ghost mut from: Seq<int> = Seq::empty();
        let mut count: usize = 0;
        let mut i: usize = 0;
        while i < self.rows.len()
            invariant
                before == self@,
                self.wf(),
                i <= before.len(),
                count == rows_with_id(before.take(i as int), id).len(),
                count <= i,
                views(kept@) == rows_without_id(before.take(i as int), id),
                from.len() == kept@.len(),
                forall|k: int| 0 <= k < from.len() ==> 0 <= #[trigger] from[k] < i,
                forall|k: int| 0 <= k < from.len() ==> kept@[k]@ == before[#[trigger] from[k]],
                forall|k: int, l: int| 0 <= k < l < from.len() ==> from[k] < from[l],
            decreases before.len() - i,
        {
            assert(before.take(i + 1).drop_last() =~= before.take(i as int));
            if self.rows[i].id == Some(id) {
                count = count + 1;
            } else {
                let ghost old_kept = views(kept@);
                kept.push(self.rows[i].duplicate());
                proof {
                    from = from.push(i as int);
                    assert(views(kept@) =~= old_kept.push(before[i as int]));
                }
            }
            i = i + 1;
        }
        assert(before.take(i as int) =~= before);
        self.rows = kept;
        proof {
            assert forall|t: int| 0 <= t < self@.len() implies (#[trigger] self@[t].id matches Some(k) && 0 < k < self.next_id()) by {
                assert(self@[t] == before[from[t]]);
            }
            assert forall|s: int, t: int| 0 <= s < t < self@.len() implies self@[s].id != self@[t].id by {
                assert(self@[s] == before[from[s]]);
                assert(self@[t] == before[from[t]]);
            }
        }
        count
    }

    /// Stores a new record and returns every record, the new one included.
    pub fn add_vehicle(&mut self, v: &Vehicle) -> (r: Result<Vec<Vehicle>, VehicleError>)
        requires
            old(self).wf(),
        ensures
            final(self).wf(),
            old(self).next_id() <= i32::MAX ==> {
                &&& final(self)@ == old(self)@.push(v@.with_id(Some(old(self).next_id() as i32)))
                &&& r matches Ok(list) && views(list@) == final(self)@
            },
            old(self).next_id() > i32::MAX ==> {
                &&& r matches Err(VehicleError::StoreError(_))
                &&& final(self)@ == old(self)@
            },
    {
        match self.insert(v) {
            Ok(_) => Ok(self.get_vehicles()),
            Err(e) => Err(e),
        }
    }

    /// Updates the record with the given id and returns every record.
    pub fn update_vehicle(&mut self, id: i32, v: &Vehicle) -> (r: Vec<Vehicle>)
        requires
            old(self).wf(),
        ensures
            final(self).wf(),
            final(self)@ == updated(old(self)@, id, v@),
            views(r@) == final(self)@,
    {
        self.update(id, v);
        self.get_vehicles()
    }

    /// Deletes the record with the given id; there is nothing to return.
    pub fn delete_vehicle(&mut self, id: i32)
        requires
            old(self).wf(),
        ensures
            final(self).wf(),
            final(self)@ == rows_without_id(old(self)@, id),
    {
        self.delete(id);
    }

    /// The stored records whose model is closest to `model`, closest first,
    /// at most ten of them.
    pub fn fuzzy_search_vehicles(&self, model: &str) -> (r: Vec<Vehicle>)
        ensures
            exists|idx: Seq<int>| ranked_selection(self@, model@, FUZZY_LIMIT as nat, views(r@), idx),
    {
        let r = fuzzy_search(&self.rows, model, FUZZY_LIMIT);
        assert(views(self.rows@) == self@);
        r
    }

    /// The distinct values of a whitelisted column over the stored records.
    /// Any other column name fails with `InvalidColumn` before the records are
    /// read.
    pub fn search_unique_cols_vehicles(&self, column: &str) -> (r: Result<Vec<String>, VehicleError>)
        ensures
            r is Ok <==> is_column_name(column@),
            r matches Ok(values) ==> exists|c|
                column_name(c) == column@ && lists_distinct_values(self@, c, texts(values@)),
            r is Err ==> r matches Err(VehicleError::InvalidColumn),
    {
        match parse_column(column) {
            Ok(c) => Ok(distinct_values(&self.rows, c)),
            Err(e) => Err(e),
        }
    }

    /// The artifact of the record with the given id: `NotFound`, and nothing
    /// rendered, when no such record is stored.
    pub fn generate_qr_vehicle(&self, id: i32) -> (r: Result<QrArtifact, VehicleError>)
        ensures
            !has_id(self@, id) ==> r matches Err(VehicleError::NotFound),
            has_id(self@, id) ==> (r matches Ok(a) && is_artifact_for(a, id)),
    {
        if !self.contains_id(id) {
            return Err(VehicleError::NotFound);
        }
        create_qr_for_id(id)
    }
}

/// After a create, the list holds the records from before, unchanged, and
/// exactly one new record: it has the given fields and an id that no record
/// had before; and no two records in the list share an id.
pub proof fn law_create_lists_one_new_record(
    store: VehicleStore,
    fields: VehicleView,
    list: Seq<VehicleView>,
)
    requires
        store.wf(),
        store.next_id() <= i32::MAX,
        list == store@.push(fields.with_id(Some(store.next_id() as i32))),
    ensures
        ({
            let id = store.next_id() as i32;
            &&& id > 0
            &&& !has_id(store@, id)
            &&& list.len() == store@.len() + 1
            &&& list.take(store@.len() as int) == store@
            &&& rows_with_id(list, id) == seq![fields.with_id(Some(id))]
            &&& forall|s: int, t: int| 0 <= s < t < list.len() ==> list[s].id != list[t].id
        }),
{
    let id = store.next_id() as i32;
    let n = store@.len() as int;
    assert forall|t: int| 0 <= t < n implies store@[t].id != Some(id) by {
        assert(store@[t].id matches Some(k) && 0 < k < store.next_id());
    }
    lemma_absent_id_has_no_rows(store@, id);
    assert(list.drop_last() =~= store@);
    assert(list.take(n) =~= store@);
    assert(rows_with_id(list, id) =~= seq![fields.with_id(Some(id))]);
    assert forall|s: int, t: int| 0 <= s < t < list.len() implies list[s].id != list[t].id by {
        assert(list[s] == store@[s]);
        if t < n {
            assert(list[t] == store@[t]);
        } else {
            assert(store@[s].id != Some(id));
        }
    }
}

} // verus!
