use vstd::prelude::*;

verus! {

/// One entry of the append-only run log.
pub struct SyncLogEntry {
    /// The moment the run started, in seconds since the epoch; the next run
    /// asks for leads created from then on.
    pub last_checked: i64,
    /// The number of deals the run stored.
    pub rows_found: u64,
    /// When the entry was written, in seconds since the epoch.
    pub created_at: i64,
}

/// The watermark used when the run log is empty.
pub const DEFAULT_WATERMARK: i64 = 1600437670;

/// The most recent entry of the log by creation time; of entries written at
/// the same time, the later one.
pub open spec fn latest_entry(log: Seq<SyncLogEntry>) -> Option<SyncLogEntry>
    decreases log.len(),
{
    if log.len() == 0 {
        None
    } else {
        let last = log.last();
        match latest_entry(log.drop_last()) {
            Some(e) => if last.created_at >= e.created_at { Some(last) } else { Some(e) },
            None => Some(last),
        }
    }
}

/// The watermark that the run log gives.
pub open spec fn watermark_of(log: Seq<SyncLogEntry>) -> i64 {
    match latest_entry(log) {
        Some(e) => e.last_checked,
        None => DEFAULT_WATERMARK,
    }
}

/// The watermark for the next run: the last-checked moment of the most recent
/// log entry, or the default where the log is empty.
pub fn get_watermark(log: &Vec<SyncLogEntry>) -> (r: i64)
    ensures
        r == watermark_of(log@),
{
    let mut best: Option<usize> = None;
    let mut i: usize = 0;
    while i < log.len()
        invariant
            0 <= i <= log@.len(),
            match best {
                Some(b) => b < i && latest_entry(log@.subrange(0, i as int)) == Some(log@[b as int]),
                None => i == 0,
            },
        decreases log@.len() - i,
    {
        assert(log@.subrange(0, i + 1).drop_last() =~= log@.subrange(0, i as int));
        match best {
            Some(b) => {
                if log[i].created_at >= log[b].created_at {
                    best = Some(i);
                }
            },
            None => {
                best = Some(i);
            },
        }
        i = i + 1;
    }
    assert(log@.subrange(0, log@.len() as int) =~= log@);
    match best {
        Some(b) => log[b].last_checked,
        None => DEFAULT_WATERMARK,
    }
}

/// The log entry that a run started at `now` writes when it stored `rows`
/// deals.
pub fn new_log_entry(now: i64, rows: u64) -> (r: SyncLogEntry)
    ensures
        r.last_checked == now,
        r.rows_found == rows,
        r.created_at == now,
{
    SyncLogEntry { last_checked: now, rows_found: rows, created_at: now }
}

/// The ids to enrich: those of `ids` not in the store, each once, in order.
pub open spec fn new_ids(ids: Seq<u64>, saved: Seq<u64>) -> Seq<u64>
    decreases ids.len(),
{
    if ids.len() == 0 {
        Seq::empty()
    } else {
        let before = new_ids(ids.drop_last(), saved);
        let x = ids.last();
        if saved.contains(x) || before.contains(x) {
            before
        } else {
            before.push(x)
        }
    }
}

fn contains_id(v: &Vec<u64>, x: u64) -> (r: bool)
    ensures
        r == v@.contains(x),
{
    let mut i: usize = 0;
    while i < v.len()
        invariant
            0 <= i <= v@.len(),
            forall|k: int| 0 <= k < i ==> v@[k] != x,
        decreases v@.len() - i,
    {
        if v[i] == x {
            return true;
        }
        i = i + 1;
    }
    false
}

/// The ids of `ids` that the store does not hold yet, without repeats, in
/// order of first appearance.
pub fn select_new_ids(ids: &Vec<u64>, saved: &Vec<u64>) -> (r: Vec<u64>)
    ensures
        r@ == new_ids(ids@, saved@),
{
    let mut out: Vec<u64> = Vec::new();
    let mut i: usize = 0;
    while i < ids.len()
        invariant
            0 <= i <= ids@.len(),
            out@ == new_ids(ids@.subrange(0, i as int), saved@),
        decreases ids@.len() - i,
    {
        assert(ids@.subrange(0, i + 1).drop_last() =~= ids@.subrange(0, i as int));
        let x = ids[i];
        if !contains_id(saved, x) && !contains_id(&out, x) {
            out.push(x);
        }
        i = i + 1;
    }
    assert(ids@.subrange(0, ids@.len() as int) =~= ids@);
    out
}

proof fn lemma_new_ids_members(ids: Seq<u64>, saved: Seq<u64>)
    ensures
        forall|x: u64| #[trigger] new_ids(ids, saved).contains(x) ==> ids.contains(x) && !saved.contains(x),
        forall|x: u64| ids.contains(x) ==> saved.contains(x) || #[trigger] new_ids(ids, saved).contains(x),
        forall|i: int, j: int|
            0 <= i < j < new_ids(ids, saved).len() ==> new_ids(ids, saved)[i] != new_ids(ids, saved)[j],
    decreases ids.len(),
{
    if ids.len() > 0 {
        let rest = ids.drop_last();
        lemma_new_ids_members(rest, saved);
        let before = new_ids(rest, saved);
        let x = ids.last();
        assert forall|y: u64| #[trigger] new_ids(ids, saved).contains(y) implies ids.contains(y) && !saved.contains(y) by {
            if before.contains(y) {
                assert(rest.contains(y));
                let k = choose|k: int| 0 <= k < rest.len() && rest[k] == y;
                assert(ids[k] == y);
            } else {
                assert(y == x);
                assert(ids[ids.len() - 1] == x);
            }
        }
        assert forall|y: u64| ids.contains(y) implies saved.contains(y) || #[trigger] new_ids(ids, saved).contains(y) by {
            let k = choose|k: int| 0 <= k < ids.len() && ids[k] == y;
            if k < ids.len() - 1 {
                assert(rest[k] == y);
                if before.contains(y) && !(saved.contains(x) || before.contains(x)) {
                    let m = choose|m: int| 0 <= m < before.len() && before[m] == y;
                    assert(before.push(x)[m] == y);
                }
            } else {
                if !(saved.contains(x) || before.contains(x)) {
                    assert(before.push(x)[before.len() as int] == x);
                }
            }
        }
    }
}

/// Every id of `ids` is in the store or among those picked, and every id
/// picked is one of `ids` that the store does not hold.
pub proof fn lemma_new_ids_cover(ids: Seq<u64>, saved: Seq<u64>)
    ensures
        forall|x: u64| #[trigger] new_ids(ids, saved).contains(x) ==> ids.contains(x) && !saved.contains(x),
        forall|x: u64| ids.contains(x) ==> saved.contains(x) || #[trigger] new_ids(ids, saved).contains(x),
{
    lemma_new_ids_members(ids, saved);
}

/// Running twice on the same leads persists nothing twice: the ids picked
/// for a run are never already in the store and never repeat, and once the
/// first run has stored what it picked, a second run on the same ids picks
/// nothing.
pub proof fn law_dedup_is_idempotent(ids: Seq<u64>, saved: Seq<u64>)
    ensures
        forall|x: u64| #[trigger] new_ids(ids, saved).contains(x) ==> !saved.contains(x),
        forall|i: int, j: int|
            0 <= i < j < new_ids(ids, saved).len() ==> new_ids(ids, saved)[i] != new_ids(ids, saved)[j],
        new_ids(ids, saved + new_ids(ids, saved)) == Seq::<u64>::empty(),
{
    lemma_new_ids_members(ids, saved);
    let first = new_ids(ids, saved);
    let both = saved + first;
    lemma_new_ids_members(ids, both);
    assert forall|x: u64| ids.contains(x) implies both.contains(x) by {
        if saved.contains(x) {
            let k = choose|k: int| 0 <= k < saved.len() && saved[k] == x;
            assert(both[k] == x);
        } else {
            assert(new_ids(ids, saved).contains(x));
            let k = choose|k: int| 0 <= k < first.len() && first[k] == x;
            assert(both[saved.len() + k] == x);
        }
    }
    let second = new_ids(ids, both);
    if second.len() > 0 {
        assert(second.contains(second[0]));
    }
    assert(second =~= Seq::<u64>::empty());
}

/// The watermark recorded by a run is the one the next run reads, whether or
/// not it found anything: once a run started at `now`, no earlier than any
/// entry of the log, appends its entry, the log gives `now`.
pub proof fn law_watermark_carries_to_next_run(log: Seq<SyncLogEntry>, now: i64, rows: u64)
    requires
        forall|i: int| 0 <= i < log.len() ==> (#[trigger] log[i]).created_at <= now,
    ensures
        watermark_of(log.push(SyncLogEntry { last_checked: now, rows_found: rows, created_at: now }))
            == now,
{
    let e = SyncLogEntry { last_checked: now, rows_found: rows, created_at: now };
    assert(log.push(e).drop_last() =~= log);
    lemma_latest_in_log(log);
}

proof fn lemma_latest_in_log(log: Seq<SyncLogEntry>)
    ensures
        match latest_entry(log) {
            Some(e) => exists|k: int| 0 <= k < log.len() && log[k] == e,
            None => log.len() == 0,
        },
    decreases log.len(),
{
    if log.len() > 0 {
        lemma_latest_in_log(log.drop_last());
        assert(log[log.len() - 1] == log.last());
        match latest_entry(log.drop_last()) {
            Some(e) => {
                let k = choose|k: int| 0 <= k < log.drop_last().len() && log.drop_last()[k] == e;
                assert(log[k] == e);
            },
            None => {},
        }
    }
}

} // verus!
