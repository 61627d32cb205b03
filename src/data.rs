use vstd::prelude::*;

verus! {

/// One page of the lead listing.
pub struct Record {
    pub _links: Links,
    pub _embedded: Embedded,
}

pub struct Links {
    pub next: Option<Link>,
}

/// A cursor to the next page: the address to request.
pub struct Link {
    pub href: String,
}

pub struct Embedded {
    pub leads: Vec<Lead>,
}

pub struct Lead {
    pub id: u64,
    pub name: String,
    pub created_at: i64,
    pub custom_fields_values: Vec<CustomField>,
}

pub struct CustomField {
    pub field_id: u64,
    pub field_name: String,
    pub values: Vec<Val>,
}

pub struct Val {
    pub value: FlexibleType,
    pub enum_id: Option<u64>,
}

/// A custom-field value: either a text or an integer.
pub enum FlexibleType {
    Str(String),
    Int(i64),
}

/// The enrichment backend's answer for one deal.
pub struct ProfitRecord {
    pub status: String,
    pub data: Vec<ProfitData>,
}

pub struct ProfitData {
    pub number: String,
    pub house_name: String,
    pub project_name: String,
    pub sold_at: String,
    pub attributes: Attributes,
}

/// Finish attributes of a property.
pub struct Attributes {
    pub facing: Option<String>,
}

pub struct HouseNumbers {
    pub house: i32,
}

pub struct ObjectNumbers {
    pub object: i32,
}

pub open spec fn flexible_eq(a: FlexibleType, b: FlexibleType) -> bool {
    match (a, b) {
        (FlexibleType::Str(x), FlexibleType::Str(y)) => x@ == y@,
        (FlexibleType::Int(x), FlexibleType::Int(y)) => x == y,
        _ => false,
    }
}

pub open spec fn val_eq(a: Val, b: Val) -> bool {
    flexible_eq(a.value, b.value) && a.enum_id == b.enum_id
}

pub open spec fn vals_eq(a: Seq<Val>, b: Seq<Val>) -> bool {
    a.len() == b.len() && forall|i: int| 0 <= i < a.len() ==> val_eq(#[trigger] a[i], b[i])
}

pub open spec fn field_eq(a: CustomField, b: CustomField) -> bool {
    a.field_id == b.field_id && a.field_name@ == b.field_name@ && vals_eq(a.values@, b.values@)
}

impl PartialEq for FlexibleType {
    fn eq(&self, other: &FlexibleType) -> (r: bool) {
        match self {
            FlexibleType::Str(x) => match other {
                FlexibleType::Str(y) => x.eq(y),
                FlexibleType::Int(_) => false,
            },
            FlexibleType::Int(x) => match other {
                FlexibleType::Str(_) => false,
                FlexibleType::Int(y) => *x == *y,
            },
        }
    }
}

impl vstd::std_specs::cmp::PartialEqSpecImpl for FlexibleType {
    open spec fn obeys_eq_spec() -> bool {
        true
    }

    open spec fn eq_spec(&self, other: &FlexibleType) -> bool {
        flexible_eq(*self, *other)
    }
}

impl PartialEq for Val {
    fn eq(&self, other: &Val) -> (r: bool) {
        let same_value = self.value == other.value;
        same_value && self.enum_id == other.enum_id
    }
}

impl vstd::std_specs::cmp::PartialEqSpecImpl for Val {
    open spec fn obeys_eq_spec() -> bool {
        true
    }

    open spec fn eq_spec(&self, other: &Val) -> bool {
        val_eq(*self, *other)
    }
}

impl PartialEq for CustomField {
    fn eq(&self, other: &CustomField) -> (r: bool) {
        if self.field_id != other.field_id || self.field_name != other.field_name {
            return false;
        }
        let n = self.values.len();
        if n != other.values.len() {
            return false;
        }
        let mut i: usize = 0;
        while i < n
            invariant
                n == self.values@.len(),
                n == other.values@.len(),
                0 <= i <= n,
                forall|k: int| 0 <= k < i ==> val_eq(#[trigger] self.values@[k], other.values@[k]),
            decreases n - i,
        {
            if !(self.values[i] == other.values[i]) {
                return false;
            }
            i = i + 1;
        }
        true
    }
}

impl vstd::std_specs::cmp::PartialEqSpecImpl for CustomField {
    open spec fn obeys_eq_spec() -> bool {
        true
    }

    open spec fn eq_spec(&self, other: &CustomField) -> bool {
        field_eq(*self, *other)
    }
}

} // verus!
