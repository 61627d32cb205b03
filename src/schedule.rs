use vstd::prelude::*;
use vstd::string::*;
use crate::error::Error;

verus! {

/// cron accepts the text as a schedule expression.
pub uninterp spec fn cron_accepts(expr: Seq<char>) -> bool;

/// The first fire time, in seconds since the epoch, that the schedule
/// `expr` gives after the moment `now`, with the schedule read at the fixed
/// offset `utc_offset` seconds east of UTC; `None` where there is none.
pub uninterp spec fn next_fire_time(expr: Seq<char>, now: i64, utc_offset: i32) -> Option<i64>;

/// Relies on `cron::Schedule::from_str`, which accepts or refuses the
/// expression by its text alone.
#[verifier::external_body]
fn cron_valid(expr: &str) -> (r: bool)
    ensures
        r == cron_accepts(expr@),
{
    <cron::Schedule as std::str::FromStr>::from_str(expr).is_ok()
}

/// Relies on `cron::Schedule::from_str`, chrono's `FixedOffset::east_opt`
/// (defined for offsets under a day) and `DateTime::from_timestamp`, and on
/// `cron::Schedule::after` with its iterator's `next`: the search starts one
/// second after the given moment, so what it yields is later than that
/// moment. An expression that does not parse gives no time.
#[verifier::external_body]
fn next_fire_after(expr: &str, now: i64, utc_offset: i32) -> (r: Option<i64>)
    requires
        0 <= now <= 253402300799,
        -86400 < utc_offset < 86400,
    ensures
        r == next_fire_time(expr@, now, utc_offset),
        r matches Some(t) ==> t > now,
        !cron_accepts(expr@) ==> r is None,
{
    let schedule = <cron::Schedule as std::str::FromStr>::from_str(expr).ok()?;
    let offset = chrono::FixedOffset::east_opt(utc_offset)?;
    let start = chrono::DateTime::from_timestamp(now, 0)?.with_timezone(&offset);
    schedule.after(&start).next().map(|t| t.timestamp())
}

/// Fires synchronisation runs at the times a cron expression gives.
pub struct Scheduler {
    expr: String,
}

/// Where a run's report goes.
pub enum Notice {
    /// To the group chat.
    Group(String),
    /// To the operator.
    Admin(String),
    /// Nowhere.
    Nothing,
}

/// Seconds to wait from `now` until `next`; none where the schedule has no
/// next time, nothing where that time is already past.
pub fn wait_seconds(now: i64, next: Option<i64>) -> (r: Option<u64>)
    ensures
        match next {
            None => r is None,
            Some(t) => r == Some(if t > now { (t - now) as u64 } else { 0u64 }),
        },
{
    match next {
        None => None,
        Some(t) => {
            if t > now {
                Some((t as i128 - now as i128) as u64)
            } else {
                Some(0)
            }
        },
    }
}

/// Where the outcome of a scheduled run goes: a run that stored deals
/// reports to the group, one that stored none to nobody, a failed one to
/// the operator.
pub fn route_run_result(result: Result<(bool, String), Error>) -> (r: Notice)
    ensures
        match result {
            Ok((true, text)) => (r matches Notice::Group(t) && t@ == text@),
            Ok((false, _)) => r is Nothing,
            Err(e) => (r matches Notice::Admin(t) && t@ == e.spec_message()),
        },
{
    match result {
        Ok((found, text)) => {
            if found {
                Notice::Group(text)
            } else {
                Notice::Nothing
            }
        },
        Err(e) => Notice::Admin(e.message()),
    }
}

impl Scheduler {
    /// The schedule expression.
    pub closed spec fn spec_expr(&self) -> Seq<char> {
        self.expr@
    }

    /// A scheduler for a cron expression, checked once here;
    /// `ConfigSchedule` exactly where cron refuses the expression.
    pub fn new(expr: &str) -> (r: Result<Scheduler, Error>)
        ensures
            r is Ok <==> cron_accepts(expr@),
            r matches Ok(s) ==> s.spec_expr() == expr@,
            r matches Err(e) ==> e is ConfigSchedule,
    {
        if cron_valid(expr) {
            Ok(Scheduler { expr: String::from_str(expr) })
        } else {
            Err(Error::ConfigSchedule)
        }
    }

    /// Seconds to wait from `now` to the next fire time, with the schedule
    /// read at `utc_offset` seconds east of UTC; recomputed from `now` each
    /// time, so that a late run skips fire times but never repeats one. None
    /// where the schedule has no further time.
    pub fn wait_from(&self, now: i64, utc_offset: i32) -> (r: Option<u64>)
        requires
            0 <= now <= 253402300799,
            -86400 < utc_offset < 86400,
        ensures
            match next_fire_time(self.spec_expr(), now, utc_offset) {
                None => r is None,
                Some(t) => t > now && r == Some((t - now) as u64),
            },
    {
        let next = next_fire_after(self.expr.as_str(), now, utc_offset);
        wait_seconds(now, next)
    }
}

} // verus!
