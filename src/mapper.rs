use vstd::prelude::*;
use vstd::string::*;
use crate::data::{ProfitData, ProfitRecord};
use crate::error::Error;
use crate::text::{contains_text, find_char, first_index_of, i32_of, occurs_in, parse_i32};

verus! {

/// A deal as it is written to the deal store. `created_on` is the moment of
/// sale in seconds since the epoch (UTC).
pub struct DealForAdd {
    pub deal_id: u64,
    pub project: String,
    pub house: i32,
    pub object_type: String,
    pub object: i32,
    pub facing: String,
    pub created_on: i64,
}

/// Seconds from the moment of sale to the transfer deadline: thirty days.
pub const TRANSFER_PERIOD_SECONDS: i64 = 2592000;

/// House number given when the house name holds no integer.
pub const INVALID_HOUSE: i32 = -1;

/// Delimiter between the house label and its number in a house name.
pub const HOUSE_DELIMITER: char = '№';

pub open spec fn storage_marker() -> Seq<char> {
    "Кладовк"@
}

pub open spec fn storage_label() -> Seq<char> {
    "Кладовки"@
}

pub open spec fn apartment_label() -> Seq<char> {
    "Квартиры"@
}

pub open spec fn sold_at_suffix() -> Seq<char> {
    " +0000"@
}

pub open spec fn sold_at_pattern() -> Seq<char> {
    "%Y-%m-%d %H:%M %z"@
}

/// Seconds since the epoch of the local date and time that `text` denotes
/// under the strftime `pattern`, as chrono reads it; `None` where it does
/// not parse.
pub uninterp spec fn parsed_date_time(text: Seq<char>, pattern: Seq<char>) -> Option<i64>;

/// Relies on chrono's `DateTime::parse_from_str`, which reads a date, a time
/// and an offset from a text by a strftime pattern; the result depends on
/// the two texts alone.
#[verifier::external_body]
fn parse_date_time(text: &str, pattern: &str) -> (r: Option<i64>)
    ensures
        r == parsed_date_time(text@, pattern@),
{
    chrono::DateTime::parse_from_str(text, pattern).ok().map(
        |d| d.naive_local().and_utc().timestamp(),
    )
}

/// The object type that a house name denotes.
pub open spec fn object_type_of(house_name: Seq<char>) -> Seq<char> {
    if occurs_in(house_name, storage_marker()) {
        storage_label()
    } else {
        apartment_label()
    }
}

/// The part of a house name after the delimiter, up to the next one; the
/// whole name where there is no delimiter.
pub open spec fn house_segment(s: Seq<char>) -> Seq<char> {
    match first_index_of(s, HOUSE_DELIMITER) {
        None => s,
        Some(k) => {
            let rest = s.subrange(k + 1, s.len() as int);
            match first_index_of(rest, HOUSE_DELIMITER) {
                None => rest,
                Some(j) => rest.subrange(0, j),
            }
        },
    }
}

/// The house number that a house name denotes, or the invalid sentinel.
pub open spec fn house_number_of(house_name: Seq<char>) -> i32 {
    match i32_of(house_segment(house_name)) {
        Some(v) => v,
        None => INVALID_HOUSE,
    }
}

/// The moment of sale: the parsed timestamp, or the epoch where the text did
/// not parse.
pub open spec fn created_on_of(parsed: Option<i64>) -> i64 {
    match parsed {
        Some(t) => t,
        None => 0,
    }
}

/// The facing text: the finish attribute, or empty when there is none.
pub open spec fn facing_of(facing: Option<String>) -> Seq<char> {
    match facing {
        Some(f) => f@,
        None => Seq::empty(),
    }
}

/// `d` is the deal that `p` maps to for `deal_id`, given the parsed moment
/// of sale.
pub open spec fn is_mapped_deal(d: DealForAdd, deal_id: u64, p: ProfitData, parsed: Option<i64>) -> bool {
    &&& d.deal_id == deal_id
    &&& d.project@ == p.project_name@
    &&& d.house == house_number_of(p.house_name@)
    &&& d.object_type@ == object_type_of(p.house_name@)
    &&& Some(d.object) == i32_of(p.number@)
    &&& d.facing@ == facing_of(p.attributes.facing)
    &&& d.created_on == created_on_of(parsed)
}

/// The object type label for a house name.
pub fn object_type(house_name: &str) -> (r: String)
    ensures
        r@ == object_type_of(house_name@),
{
    if contains_text(house_name, "Кладовк") {
        String::from_str("Кладовки")
    } else {
        String::from_str("Квартиры")
    }
}

/// The text that holds the house number.
pub fn house_part(house_name: &str) -> (r: String)
    ensures
        r@ == house_segment(house_name@),
{
    let n = house_name.unicode_len();
    match find_char(house_name, HOUSE_DELIMITER) {
        None => String::from_str(house_name),
        Some(k) => {
            proof {
                lemma_first_index_in_range(house_name@, HOUSE_DELIMITER);
            }
            let rest = house_name.substring_char(k + 1, n);
            proof {
                lemma_first_index_in_range(rest@, HOUSE_DELIMITER);
                let fk = first_index_of(house_name@, HOUSE_DELIMITER).unwrap();
                assert(fk == k as int);
            }
            match find_char(rest, HOUSE_DELIMITER) {
                None => String::from_str(rest),
                Some(j) => {
                    proof {
                        assert(j <= rest@.len()) by {
                            lemma_first_index_in_range(rest@, HOUSE_DELIMITER);
                        }
                    }
                    String::from_str(rest.substring_char(0, j))
                },
            }
        },
    }
}

proof fn lemma_first_index_in_range(s: Seq<char>, c: char)
    ensures
        match first_index_of(s, c) {
            Some(k) => 0 <= k < s.len() && s[k] == c,
            None => forall|i: int| 0 <= i < s.len() ==> s[i] != c,
        },
    decreases s.len(),
{
    if s.len() > 0 {
        let t = s.subrange(1, s.len() as int);
        lemma_first_index_in_range(t, c);
        if s[0] != c {
            match first_index_of(t, c) {
                Some(k) => {
                    assert(s[k + 1] == t[k]);
                },
                None => {
                    assert forall|i: int| 0 <= i < s.len() implies s[i] != c by {
                        if i > 0 {
                            assert(s[i] == t[i - 1]);
                        }
                    }
                },
            }
        }
    }
}

/// The house number of a house name: the integer after the delimiter (or the
/// whole name, without one), or the invalid sentinel where that is no integer.
pub fn house_number(house_name: &str) -> (r: i32)
    ensures
        r == house_number_of(house_name@),
{
    let part = house_part(house_name);
    match parse_i32(part.as_str()) {
        Some(v) => v,
        None => INVALID_HOUSE,
    }
}

/// The moment of sale that a sold-at text gives, in seconds since the epoch,
/// read with a zero offset.
pub fn sold_at_seconds(sold_at: &str) -> (r: Option<i64>)
    ensures
        r == parsed_date_time(sold_at@ + sold_at_suffix(), sold_at_pattern()),
{
    let mut text = String::from_str(sold_at);
    text.append(" +0000");
    parse_date_time(text.as_str(), "%Y-%m-%d %H:%M %z")
}

/// A house name without the delimiter is parsed whole; whatever the name,
/// where its number part is no integer the house number is the sentinel -1
/// rather than an error.
pub proof fn law_house_number_fallback(house_name: Seq<char>)
    ensures
        (forall|i: int| 0 <= i < house_name.len() ==> house_name[i] != HOUSE_DELIMITER) ==> (
        house_segment(house_name) == house_name && house_number_of(house_name) == match i32_of(
            house_name,
        ) {
            Some(v) => v,
            None => -1i32,
        }),
        i32_of(house_segment(house_name)) is None ==> house_number_of(house_name) == -1i32,
{
    lemma_first_index_in_range(house_name, HOUSE_DELIMITER);
}

/// Maps one property payload to the deal to store, given the moment of sale
/// already parsed from its sold-at text. Fails with `Parse` exactly when the
/// object number is not an integer.
pub fn map_profit_data(deal_id: u64, p: &ProfitData, parsed: Option<i64>) -> (r: Result<DealForAdd, Error>)
    ensures
        r is Ok <==> i32_of(p.number@) is Some,
        r matches Ok(d) ==> is_mapped_deal(d, deal_id, *p, parsed),
        r matches Err(e) ==> e is Parse,
{
    let object = match parse_i32(p.number.as_str()) {
        Some(v) => v,
        None => {
            return Err(Error::Parse);
        },
    };
    let facing = match &p.attributes.facing {
        Some(f) => f.clone(),
        None => String::new(),
    };
    let created_on = match parsed {
        Some(t) => t,
        None => 0,
    };
    Ok(
        DealForAdd {
            deal_id,
            project: p.project_name.clone(),
            house: house_number(p.house_name.as_str()),
            object_type: object_type(p.house_name.as_str()),
            object,
            facing,
            created_on,
        },
    )
}

/// The enrichment backend's payload is usable: its status is `success` and
/// it holds at least one property.
pub open spec fn is_usable_record(rec: ProfitRecord) -> bool {
    rec.status@ == "success"@ && rec.data@.len() > 0
}

/// Maps the enrichment payload for one deal, given the moment of sale parsed
/// from its first property. Fails with `ProfitGetDataFailed` when the payload
/// is not usable, and with `Parse` when the object number is no integer.
pub fn map_profit_record(deal_id: u64, rec: &ProfitRecord, parsed: Option<i64>) -> (r: Result<DealForAdd, Error>)
    ensures
        r is Ok <==> is_usable_record(*rec) && i32_of(rec.data@[0].number@) is Some,
        r matches Ok(d) ==> is_mapped_deal(d, deal_id, rec.data@[0], parsed),
        r matches Err(e) ==> (if is_usable_record(*rec) { e is Parse } else { e is ProfitGetDataFailed }),
{
    let success = String::from_str("success");
    if !(rec.status == success) || rec.data.len() == 0 {
        return Err(Error::ProfitGetDataFailed);
    }
    map_profit_data(deal_id, &rec.data[0], parsed)
}

/// Maps the enrichment payload for one deal into the deal to store.
pub fn to_deal(deal_id: u64, rec: &ProfitRecord) -> (r: Result<DealForAdd, Error>)
    ensures
        r is Ok <==> is_usable_record(*rec) && i32_of(rec.data@[0].number@) is Some,
        r matches Ok(d) ==> is_mapped_deal(
            d,
            deal_id,
            rec.data@[0],
            parsed_date_time(rec.data@[0].sold_at@ + sold_at_suffix(), sold_at_pattern()),
        ),
        r matches Err(e) ==> (if is_usable_record(*rec) { e is Parse } else { e is ProfitGetDataFailed }),
{
    let success = String::from_str("success");
    if !(rec.status == success) || rec.data.len() == 0 {
        return Err(Error::ProfitGetDataFailed);
    }
    let parsed = sold_at_seconds(rec.data[0].sold_at.as_str());
    map_profit_record(deal_id, rec, parsed)
}

} // verus!
