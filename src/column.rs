use vstd::prelude::*;
use crate::error::VehicleError;
use crate::text::same_text;
use vstd::string::StringExecFns;
use crate::vehicle::{Vehicle, VehicleView};

verus! {

/// The text columns of the vehicles table: the closed whitelist of names that
/// may be substituted into a query as an identifier.
#[derive(Clone, Copy, Debug, PartialEq, Eq, Structural)]
pub enum Column {
    VehicleType,
    Manufacturer,
    Model,
    Price,
    Data,
}

/// The name of a column as it stands in the table.
pub open spec fn column_name(c: Column) -> Seq<char> {
    match c {
        Column::VehicleType => "vehicle_type"@,
        Column::Manufacturer => "manufacturer"@,
        Column::Model => "model"@,
        Column::Price => "price"@,
        Column::Data => "data"@,
    }
}

/// Whether a name is one of the whitelisted column names.
pub open spec fn is_column_name(name: Seq<char>) -> bool {
    exists|c: Column| column_name(c) == name
}

/// The value of a column in a record.
pub open spec fn field_of(c: Column, v: VehicleView) -> Seq<char> {
    match c {
        Column::VehicleType => v.vehicle_type,
        Column::Manufacturer => v.manufacturer,
        Column::Model => v.model,
        Column::Price => v.price,
        Column::Data => v.data,
    }
}

/// The query that lists the distinct values of a column.
pub open spec fn distinct_query_text(c: Column) -> Seq<char> {
    "SELECT DISTINCT "@ + column_name(c) + " FROM vehicles"@
}

impl Column {
    /// The name of the column as it stands in the table.
    pub fn as_str(&self) -> (r: &'static str)
        ensures
            r@ == column_name(*self),
    {
        match self {
            Column::VehicleType => "vehicle_type",
            Column::Manufacturer => "manufacturer",
            Column::Model => "model",
            Column::Price => "price",
            Column::Data => "data",
        }
    }

    /// The value of this column in a record.
    pub fn field<'a>(&self, v: &'a Vehicle) -> (r: &'a String)
        ensures
            r@ == field_of(*self, v@),
    {
        match self {
            Column::VehicleType => &v.vehicle_type,
            Column::Manufacturer => &v.manufacturer,
            Column::Model => &v.model,
            Column::Price => &v.price,
            Column::Data => &v.data,
        }
    }
}

/// Checks a requested column name against the whitelist. Any other name is
/// refused with `InvalidColumn`.
pub fn parse_column(name: &str) -> (r: Result<Column, VehicleError>)
    ensures
        r is Ok <==> is_column_name(name@),
        r matches Ok(c) ==> column_name(c) == name@,
        r is Err ==> r == Err::<Column, VehicleError>(VehicleError::InvalidColumn),
{
    let candidates = [Column::VehicleType, Column::Manufacturer, Column::Model, Column::Price, Column::Data];
    let mut i: usize = 0;
    while i < 5
        invariant
            0 <= i <= 5,
            candidates@ == seq![Column::VehicleType, Column::Manufacturer, Column::Model, Column::Price, Column::Data],
            forall|k: int| 0 <= k < i ==> column_name(candidates@[k]) != name@,
        decreases 5 - i,
    {
        let c = candidates[i];
        if same_text(c.as_str(), name) {
            return Ok(c);
        }
        i = i + 1;
    }
    assert forall|c: Column| column_name(c) != name@ by {
        match c {
            Column::VehicleType => assert(column_name(candidates@[0]) != name@),
            Column::Manufacturer => assert(column_name(candidates@[1]) != name@),
            Column::Model => assert(column_name(candidates@[2]) != name@),
            Column::Price => assert(column_name(candidates@[3]) != name@),
            Column::Data => assert(column_name(candidates@[4]) != name@),
        }
    }
    Err(VehicleError::InvalidColumn)
}

/// The query text for the distinct values of a named column. The name is
/// checked against the whitelist before any text is built, so nothing outside
/// it ever reaches the query.
pub fn distinct_query(col_name: &str) -> (r: Result<String, VehicleError>)
    ensures
        r is Ok <==> is_column_name(col_name@),
        r matches Ok(q) ==> exists|c: Column|
            column_name(c) == col_name@ && q@ == distinct_query_text(c),
        r is Err ==> r == Err::<String, VehicleError>(VehicleError::InvalidColumn),
{
    match parse_column(col_name) {
        Ok(c) => {
            let mut q = "SELECT DISTINCT ".to_string();
            q.append(c.as_str());
            q.append(" FROM vehicles");
            assert(q@ == distinct_query_text(c));
            Ok(q)
        },
        Err(e) => Err(e),
    }
}

} // verus!
