use vstd::prelude::*;
use crate::data::{
    field_eq, vals_eq, val_eq, flexible_eq, CustomField, FlexibleType, Lead, Record, Val,
};

verus! {

/// Identifier of the custom field that holds the contract type.
pub const CONTRACT_FIELD_ID: u64 = 1631153;

/// Enumeration id of the qualifying contract type.
pub const CONTRACT_ENUM_ID: u64 = 4661181;

pub open spec fn contract_field_name() -> Seq<char> {
    "Тип договора"@
}

pub open spec fn contract_value() -> Seq<char> {
    "ДКП"@
}

/// The field entry that marks a lead as a qualifying contract: the contract
/// field, holding exactly one value, the qualifying text with its enum id.
pub open spec fn is_contract_field(f: CustomField) -> bool {
    &&& f.field_id == CONTRACT_FIELD_ID
    &&& f.field_name@ == contract_field_name()
    &&& f.values@.len() == 1
    &&& f.values@[0].enum_id == Some(CONTRACT_ENUM_ID)
    &&& match f.values@[0].value {
        FlexibleType::Str(s) => s@ == contract_value(),
        FlexibleType::Int(_) => false,
    }
}

pub open spec fn lead_qualifies(lead: Lead) -> bool {
    exists|i: int|
        0 <= i < lead.custom_fields_values@.len() && is_contract_field(
            #[trigger] lead.custom_fields_values@[i],
        )
}

/// Ids of the qualifying leads, in listing order.
pub open spec fn qualifying_ids(leads: Seq<Lead>) -> Seq<u64>
    decreases leads.len(),
{
    if leads.len() == 0 {
        Seq::empty()
    } else {
        let before = qualifying_ids(leads.drop_last());
        if lead_qualifies(leads.last()) {
            before.push(leads.last().id)
        } else {
            before
        }
    }
}

/// The qualifying field entry, as a value to compare against.
pub fn qualifying_field() -> (r: CustomField)
    ensures
        is_contract_field(r),
{
    let mut values: Vec<Val> = Vec::new();
    values.push(
        Val { value: FlexibleType::Str(String::from_str("ДКП")), enum_id: Some(CONTRACT_ENUM_ID) },
    );
    CustomField {
        field_id: CONTRACT_FIELD_ID,
        field_name: String::from_str("Тип договора"),
        values,
    }
}

proof fn lemma_equal_to_contract_field(f: CustomField, c: CustomField)
    requires
        is_contract_field(c),
    ensures
        field_eq(f, c) <==> is_contract_field(f),
{
    if field_eq(f, c) {
        assert(val_eq(f.values@[0], c.values@[0]));
    }
    if is_contract_field(f) {
        assert(flexible_eq(f.values@[0].value, c.values@[0].value));
        assert(val_eq(f.values@[0], c.values@[0]));
        assert(vals_eq(f.values@, c.values@));
    }
}

/// Whether the lead carries the qualifying contract field.
pub fn is_qualifying(lead: &Lead) -> (r: bool)
    ensures
        r == lead_qualifies(*lead),
{
    let criterion = qualifying_field();
    let fields = &lead.custom_fields_values;
    let mut i: usize = 0;
    while i < fields.len()
        invariant
            is_contract_field(criterion),
            fields@ == lead.custom_fields_values@,
            0 <= i <= fields@.len(),
            forall|k: int| 0 <= k < i ==> !is_contract_field(#[trigger] fields@[k]),
        decreases fields@.len() - i,
    {
        let same = fields[i] == criterion;
        proof {
            lemma_equal_to_contract_field(fields@[i as int], criterion);
        }
        if same {
            return true;
        }
        i = i + 1;
    }
    false
}

/// Ids of the qualifying leads of one listing page, in listing order.
pub fn extract_deal_ids(record: Record) -> (r: Vec<u64>)
    ensures
        r@ == qualifying_ids(record._embedded.leads@),
{
    lead_ids(&record._embedded.leads)
}

/// Ids of the qualifying leads, in listing order.
pub fn lead_ids(leads: &Vec<Lead>) -> (r: Vec<u64>)
    ensures
        r@ == qualifying_ids(leads@),
{
    let mut ids: Vec<u64> = Vec::new();
    let mut i: usize = 0;
    while i < leads.len()
        invariant
            0 <= i <= leads@.len(),
            ids@ == qualifying_ids(leads@.subrange(0, i as int)),
        decreases leads@.len() - i,
    {
        proof {
            assert(leads@.subrange(0, i + 1).drop_last() =~= leads@.subrange(0, i as int));
        }
        if is_qualifying(&leads[i]) {
            ids.push(leads[i].id);
        }
        i = i + 1;
    }
    assert(leads@.subrange(0, leads@.len() as int) =~= leads@);
    ids
}

/// A lead is kept exactly when one of its field entries is the qualifying
/// one: a lead without the contract field, or whose contract field carries
/// another enum id, is left out, and a lead with the exact field, value and
/// enum id is kept.
pub proof fn law_filter_selects_exact_contract(lead: Lead, leads: Seq<Lead>)
    ensures
        (forall|i: int|
            0 <= i < lead.custom_fields_values@.len() ==> (#[trigger] lead.custom_fields_values@[
                i
            ]).field_id != CONTRACT_FIELD_ID) ==> !lead_qualifies(lead),
        (forall|i: int|
            0 <= i < lead.custom_fields_values@.len() ==> forall|j: int|
                0 <= j < (#[trigger] lead.custom_fields_values@[i]).values@.len() ==> (
                #[trigger] lead.custom_fields_values@[i].values@[j]).enum_id != Some(
                    CONTRACT_ENUM_ID,
                )) ==> !lead_qualifies(lead),
        (exists|i: int|
            0 <= i < lead.custom_fields_values@.len() && is_contract_field(
                #[trigger] lead.custom_fields_values@[i],
            )) ==> lead_qualifies(lead),
        qualifying_ids(leads.push(lead)) == (if lead_qualifies(lead) {
            qualifying_ids(leads).push(lead.id)
        } else {
            qualifying_ids(leads)
        }),
{
    assert(leads.push(lead).drop_last() =~= leads);
    if lead_qualifies(lead) {
        let i = choose|i: int|
            0 <= i < lead.custom_fields_values@.len() && is_contract_field(
                #[trigger] lead.custom_fields_values@[i],
            );
        assert(lead.custom_fields_values@[i].values@.len() == 1);
    }
}

} // verus!
