use vstd::prelude::*;
use vstd::string::*;
use crate::error::Error;
use crate::mapper::TRANSFER_PERIOD_SECONDS;
use crate::text::{int_text, int_to_text};

verus! {

/// A stored deal as the chat queries read it back. `created_on` is the
/// moment of sale in seconds since the epoch.
pub struct HouseData {
    pub id: i32,
    pub deal_id: u64,
    pub project: String,
    pub house: i32,
    pub object_type: String,
    pub object: i32,
    pub facing: String,
    pub created_on: i64,
    pub updated_on: String,
}

pub open spec fn day_pattern() -> Seq<char> {
    "%d.%m.%Y"@
}

/// The text that chrono writes for the UTC date and time `ts` seconds after
/// the epoch under the strftime `pattern`; `None` where `ts` is out of its
/// range.
pub uninterp spec fn formatted_date(ts: i64, pattern: Seq<char>) -> Option<Seq<char>>;

/// Relies on chrono's `DateTime::from_timestamp`, which gives `None` out of
/// its range, and on `format` with a valid strftime pattern; the text depends
/// on the two arguments alone.
#[verifier::external_body]
fn format_timestamp(ts: i64, pattern: &str) -> (r: Option<String>)
    requires
        pattern@ == day_pattern(),
    ensures
        match r {
            Some(t) => formatted_date(ts, pattern@) == Some(t@),
            None => formatted_date(ts, pattern@) is None,
        },
{
    chrono::DateTime::from_timestamp(ts, 0).map(|d| d.naive_utc().format(pattern).to_string())
}

/// The day of a moment as `dd.mm.yyyy`; empty where it is out of range.
pub open spec fn day_text(ts: int) -> Seq<char> {
    if i64::MIN <= ts <= i64::MAX {
        match formatted_date(ts as i64, day_pattern()) {
            Some(t) => t,
            None => Seq::empty(),
        }
    } else {
        Seq::empty()
    }
}

fn day(ts: i64) -> (r: String)
    ensures
        r@ == day_text(ts as int),
{
    match format_timestamp(ts, "%d.%m.%Y") {
        Some(t) => t,
        None => String::new(),
    }
}

pub open spec fn numbers_text(numbers: Seq<i32>) -> Seq<char>
    decreases numbers.len(),
{
    if numbers.len() == 0 {
        Seq::empty()
    } else {
        numbers_text(numbers.drop_last()) + "/"@ + int_text(numbers.last() as int) + ", "@
    }
}

/// The answer to a listing of object numbers.
pub open spec fn numbers_response(listed: Result<Seq<i32>, ()>) -> Seq<char> {
    match listed {
        Err(_) => "Ошибка при получении объектов"@,
        Ok(ns) => if ns.len() == 0 {
            "Объектов не найдено"@
        } else {
            "Найдены объекты с номерами:\n"@ + numbers_text(ns)
        },
    }
}

/// The chat answer listing the object numbers found, each as a command.
pub fn prepare_numbers_response(listed: Result<Vec<i32>, Error>) -> (r: String)
    ensures
        r@ == numbers_response(
            match listed {
                Ok(ns) => Ok(ns@),
                Err(_) => Err(()),
            },
        ),
{
    match listed {
        Err(_) => String::from_str("Ошибка при получении объектов"),
        Ok(numbers) => {
            if numbers.len() == 0 {
                String::from_str("Объектов не найдено")
            } else {
                let mut text = String::from_str("Найдены объекты с номерами:\n");
                let ghost head = text@;
                let mut i: usize = 0;
                while i < numbers.len()
                    invariant
                        0 <= i <= numbers@.len(),
                        text@ == head + numbers_text(numbers@.subrange(0, i as int)),
                    decreases numbers@.len() - i,
                {
                    assert(numbers@.subrange(0, i + 1).drop_last() =~= numbers@.subrange(
                        0,
                        i as int,
                    ));
                    text.append("/");
                    let n = int_to_text(numbers[i] as i64);
                    text.append(n.as_str());
                    text.append(", ");
                    i = i + 1;
                }
                assert(numbers@.subrange(0, numbers@.len() as int) =~= numbers@);
                text
            }
        },
    }
}

/// The numbers a listing gave, or none where it failed.
pub fn numbers_or_empty(listed: Result<Vec<i32>, Error>) -> (r: Vec<i32>)
    ensures
        match listed {
            Ok(ns) => r@ == ns@,
            Err(_) => r@.len() == 0,
        },
{
    match listed {
        Ok(ns) => ns,
        Err(_) => Vec::new(),
    }
}

/// The facing line: shown for apartments only.
pub open spec fn facing_line(b: HouseData) -> Seq<char> {
    if b.object_type@ == "Квартиры"@ {
        "Тип отделки: "@ + b.facing@ + "\n"@
    } else {
        Seq::empty()
    }
}

/// The report on one stored deal, given the day of sale and the day of the
/// transfer deadline as texts.
pub open spec fn report_text(b: HouseData, sold: Seq<char>, deadline: Seq<char>) -> Seq<char> {
    "Проект: "@ + b.project@ + "\nДом № "@ + int_text(b.house as int) + "\nТип объекта: "@
        + b.object_type@ + "\n№ "@ + int_text(b.object as int) + "\n"@ + facing_line(b)
        + "Дата регистрации: "@ + sold + "\nПередать объект до: "@ + deadline + "\n"@
}

/// The report on one stored deal; the transfer deadline is thirty days
/// after the moment of sale.
pub open spec fn deal_report(b: HouseData) -> Seq<char> {
    report_text(
        b,
        day_text(b.created_on as int),
        day_text(b.created_on + TRANSFER_PERIOD_SECONDS),
    )
}

/// The report on one stored deal, given the day of sale and the day of the
/// transfer deadline already written out.
pub fn report_with_days(b: &HouseData, sold: &str, deadline: &str) -> (r: String)
    ensures
        r@ == report_text(*b, sold@, deadline@),
{
    let apartments = String::from_str("Квартиры");
    let mut text = String::from_str("Проект: ");
    text.append(b.project.as_str());
    text.append("\nДом № ");
    let house = int_to_text(b.house as i64);
    text.append(house.as_str());
    text.append("\nТип объекта: ");
    text.append(b.object_type.as_str());
    text.append("\n№ ");
    let object = int_to_text(b.object as i64);
    text.append(object.as_str());
    text.append("\n");
    if b.object_type == apartments {
        text.append("Тип отделки: ");
        text.append(b.facing.as_str());
        text.append("\n");
    }
    text.append("Дата регистрации: ");
    text.append(sold);
    text.append("\nПередать объект до: ");
    text.append(deadline);
    text.append("\n");
    text
}

/// The chat answer for one deal looked up by project, type, house and
/// number, or the failure text where the lookup failed.
pub fn prepare_response(found: Result<HouseData, Error>) -> (r: String)
    ensures
        match found {
            Ok(b) => r@ == deal_report(b),
            Err(_) => r@ == "Ошибка чтения данных"@,
        },
{
    match found {
        Err(_) => String::from_str("Ошибка чтения данных"),
        Ok(b) => {
            let sold = day(b.created_on);
            let deadline = if b.created_on <= i64::MAX - TRANSFER_PERIOD_SECONDS {
                day(b.created_on + TRANSFER_PERIOD_SECONDS)
            } else {
                String::new()
            };
            report_with_days(&b, sold.as_str(), deadline.as_str())
        },
    }
}

} // verus!
