use vstd::prelude::*;

verus! {

/// A vehicle record. `id` is assigned by the store: it is `None` on a record
/// that has not been stored yet and `Some` on every stored one.
#[derive(Debug)]
pub struct Vehicle {
    pub id: Option<i32>,
    pub vehicle_type: String,
    pub manufacturer: String,
    pub model: String,
    pub price: String,
    pub data: String,
}

/// The mathematical value of a record: its id and the text of its five fields.
pub ghost struct VehicleView {
    pub id: Option<i32>,
    pub vehicle_type: Seq<char>,
    pub manufacturer: Seq<char>,
    pub model: Seq<char>,
    pub price: Seq<char>,
    pub data: Seq<char>,
}

impl View for Vehicle {
    type V = VehicleView;

    open spec fn view(&self) -> VehicleView {
        VehicleView {
            id: self.id,
            vehicle_type: self.vehicle_type@,
            manufacturer: self.manufacturer@,
            model: self.model@,
            price: self.price@,
            data: self.data@,
        }
    }
}

impl VehicleView {
    /// The same five fields under another id.
    pub open spec fn with_id(self, id: Option<i32>) -> VehicleView {
        VehicleView { id, ..self }
    }
}

/// The views of a sequence of records, one for one.
pub open spec fn views(rows: Seq<Vehicle>) -> Seq<VehicleView> {
    rows.map_values(|v: Vehicle| v@)
}

impl Vehicle {
    /// A record that has not been stored yet.
    pub fn new(
        vehicle_type: String,
        manufacturer: String,
        model: String,
        price: String,
        data: String,
    ) -> (r: Vehicle)
        ensures
            r.id is None,
            r.vehicle_type == vehicle_type,
            r.manufacturer == manufacturer,
            r.model == model,
            r.price == price,
            r.data == data,
    {
        Vehicle { id: None, vehicle_type, manufacturer, model, price, data }
    }

    /// A field-for-field copy.
    pub fn duplicate(&self) -> (r: Vehicle)
        ensures
            r == *self,
            r@ == self@,
    {
        Vehicle {
            id: self.id,
            vehicle_type: self.vehicle_type.clone(),
            manufacturer: self.manufacturer.clone(),
            model: self.model.clone(),
            price: self.price.clone(),
            data: self.data.clone(),
        }
    }

    /// A copy of the five fields under the given id.
    pub fn with_id(&self, id: Option<i32>) -> (r: Vehicle)
        ensures
            r@ == self@.with_id(id),
    {
        let mut r = self.duplicate();
        r.id = id;
        r
    }
}

} // verus!
