use vstd::prelude::*;
use crate::error::VehicleError;
use crate::vehicle::{Vehicle, VehicleView, views};

verus! {

/// How many records a fuzzy search returns at most.
pub const FUZZY_LIMIT: usize = 10;

/// The rows that carry the given id, in their order.
pub open spec fn rows_with_id(rows: Seq<VehicleView>, id: i32) -> Seq<VehicleView>
    decreases rows.len(),
{
    if rows.len() == 0 {
        Seq::empty()
    } else {
        let before = rows_with_id(rows.drop_last(), id);
        if rows.last().id == Some(id) {
            before.push(rows.last())
        } else {
            before
        }
    }
}

/// The rows that do not carry the given id, in their order.
pub open spec fn rows_without_id(rows: Seq<VehicleView>, id: i32) -> Seq<VehicleView>
    decreases rows.len(),
{
    if rows.len() == 0 {
        Seq::empty()
    } else {
        let before = rows_without_id(rows.drop_last(), id);
        if rows.last().id == Some(id) {
            before
        } else {
            before.push(rows.last())
        }
    }
}

/// What a lookup makes of its candidate rows: none is `NotFound`, one is the
/// record, and more than one breaks the uniqueness of ids.
pub open spec fn selected(candidates: Seq<VehicleView>) -> Result<VehicleView, VehicleError> {
    if candidates.len() == 0 {
        Err(VehicleError::NotFound)
    } else if candidates.len() == 1 {
        Ok(candidates[0])
    } else {
        Err(VehicleError::DataIntegrityFault)
    }
}

/// What a lookup by id returns over the given rows.
pub open spec fn lookup(rows: Seq<VehicleView>, id: i32) -> Result<VehicleView, VehicleError> {
    selected(rows_with_id(rows, id))
}

/// The view of a lookup's result.
pub open spec fn result_view(r: Result<Vehicle, VehicleError>) -> Result<VehicleView, VehicleError> {
    match r {
        Ok(v) => Ok(v@),
        Err(e) => Err(e),
    }
}

/// Whether some row carries the id.
pub open spec fn has_id(rows: Seq<VehicleView>, id: i32) -> bool {
    exists|t: int| 0 <= t < rows.len() && #[trigger] rows[t].id == Some(id)
}

/// Picks the one record among the rows that a lookup by id returned.
pub fn single_record(rows: Vec<Vehicle>) -> (r: Result<Vehicle, VehicleError>)
    ensures
        result_view(r) == selected(views(rows@)),
{
    let n = rows.len();
    if n == 0 {
        Err(VehicleError::NotFound)
    } else if n == 1 {
        Ok(rows[0].duplicate())
    } else {
        Err(VehicleError::DataIntegrityFault)
    }
}

/// Looks a record up by id among the given rows.
pub fn find_by_id(rows: &Vec<Vehicle>, id: i32) -> (r: Result<Vehicle, VehicleError>)
    ensures
        result_view(r) == lookup(views(rows@), id),
{
    let mut candidates: Vec<Vehicle> = Vec::new();
    let mut i: usize = 0;
    while i < rows.len()
        invariant
            i <= rows@.len(),
            views(candidates@) == rows_with_id(views(rows@).take(i as int), id),
        decreases rows@.len() - i,
    {
        let ghost before = views(candidates@);
        assert(views(rows@).take(i + 1).drop_last() =~= views(rows@).take(i as int));
        if rows[i].id == Some(id) {
            candidates.push(rows[i].duplicate());
            assert(views(candidates@) =~= before.push(rows@[i as int]@));
        }
        i = i + 1;
    }
    assert(views(rows@).take(rows@.len() as int) =~= views(rows@));
    single_record(candidates)
}

/// Decides an existence check from the rows of an `EXISTS` query: the record
/// exists when the first row says so.
pub fn require_exists(flags: &Vec<bool>) -> (r: Result<(), VehicleError>)
    ensures
        r is Ok <==> (flags@.len() > 0 && flags@[0]),
        r is Err ==> r matches Err(VehicleError::NotFound),
{
    if flags.len() > 0 && flags[0] {
        Ok(())
    } else {
        Err(VehicleError::NotFound)
    }
}

/// When no row carries an id, none is a candidate for it.
pub proof fn lemma_absent_id_has_no_rows(rows: Seq<VehicleView>, id: i32)
    requires
        !has_id(rows, id),
    ensures
        rows_with_id(rows, id) == Seq::<VehicleView>::empty(),
    decreases rows.len(),
{
    if rows.len() > 0 {
        assert(rows.last() == rows[rows.len() - 1]);
        assert forall|t: int| 0 <= t < rows.drop_last().len() implies rows.drop_last()[t].id != Some(id) by {
            assert(rows.drop_last()[t] == rows[t]);
        }
        lemma_absent_id_has_no_rows(rows.drop_last(), id);
    }
}

/// Among rows whose ids are pairwise distinct, at most one carries a given id.
pub proof fn lemma_unique_ids_one_candidate(rows: Seq<VehicleView>, id: i32)
    requires
        forall|s: int, t: int| 0 <= s < t < rows.len() ==> rows[s].id != rows[t].id,
    ensures
        rows_with_id(rows, id).len() <= 1,
        has_id(rows, id) ==> rows_with_id(rows, id).len() == 1,
    decreases rows.len(),
{
    if rows.len() > 0 {
        let init = rows.drop_last();
        assert forall|s: int, t: int| 0 <= s < t < init.len() implies init[s].id != init[t].id by {
            assert(init[s] == rows[s] && init[t] == rows[t]);
        }
        lemma_unique_ids_one_candidate(init, id);
        if rows.last().id == Some(id) {
            assert forall|t: int| 0 <= t < init.len() implies init[t].id != Some(id) by {
                assert(init[t] == rows[t]);
                assert(rows[t].id != rows[rows.len() - 1].id);
            }
            lemma_absent_id_has_no_rows(init, id);
        } else if has_id(rows, id) {
            let t = choose|t: int| 0 <= t < rows.len() && #[trigger] rows[t].id == Some(id);
            assert(t < init.len());
            assert(init[t] == rows[t]);
        }
    }
}

/// A lookup of an id that no row carries fails with `NotFound`.
pub proof fn law_absent_id_not_found(rows: Seq<VehicleView>, id: i32)
    requires
        !has_id(rows, id),
    ensures
        lookup(rows, id) == Err::<VehicleView, VehicleError>(VehicleError::NotFound),
{
    lemma_absent_id_has_no_rows(rows, id);
}

/// A lookup succeeds only when exactly one row is a candidate, and then
/// returns that row; with several candidates it fails with
/// `DataIntegrityFault` instead of picking one.
pub proof fn law_lookup_single_candidate(rows: Seq<VehicleView>, id: i32)
    ensures
        lookup(rows, id) is Ok ==> rows_with_id(rows, id).len() == 1
            && lookup(rows, id) == Ok::<VehicleView, VehicleError>(rows_with_id(rows, id)[0]),
        rows_with_id(rows, id).len() > 1 ==> lookup(rows, id) == Err::<VehicleView, VehicleError>(
            VehicleError::DataIntegrityFault,
        ),
{
}

/// Over rows with pairwise distinct ids, a lookup of a stored id returns the
/// row that carries it.
pub proof fn law_unique_ids_lookup_found(rows: Seq<VehicleView>, id: i32)
    requires
        forall|s: int, t: int| 0 <= s < t < rows.len() ==> rows[s].id != rows[t].id,
        has_id(rows, id),
    ensures
        lookup(rows, id) matches Ok(v) && v.id == Some(id) && rows.contains(v),
{
    lemma_unique_ids_one_candidate(rows, id);
    lemma_candidates_carry_id(rows, id);
}

/// Every candidate of a lookup is a row that carries the id.
pub proof fn lemma_candidates_carry_id(rows: Seq<VehicleView>, id: i32)
    ensures
        forall|k: int| 0 <= k < rows_with_id(rows, id).len() ==> (#[trigger] rows_with_id(rows, id)[k]).id == Some(id)
            && rows.contains(rows_with_id(rows, id)[k]),
    decreases rows.len(),
{
    if rows.len() > 0 {
        let init = rows.drop_last();
        lemma_candidates_carry_id(init, id);
        assert forall|k: int| 0 <= k < rows_with_id(rows, id).len() implies (#[trigger] rows_with_id(rows, id)[k]).id == Some(id)
            && rows.contains(rows_with_id(rows, id)[k]) by {
            if k < rows_with_id(init, id).len() {
                assert(rows_with_id(rows, id)[k] == rows_with_id(init, id)[k]);
                let t = choose|t: int| 0 <= t < init.len() && init[t] == rows_with_id(init, id)[k];
                assert(rows[t] == init[t]);
            } else {
                assert(rows[rows.len() - 1] == rows.last());
            }
        }
    }
}

} // verus!
