use vstd::prelude::*;
use vstd::string::*;
use crate::data::{Lead, ProfitRecord};
use crate::enrich::{property_url, property_url_text};
use crate::error::Error;
use crate::fetch::{
    cursor_of, cursor_repeats, listing_query, listing_url, visited_after, PageResponse, Pager,
    PagerStep,
};
use crate::filter::{lead_ids, qualifying_ids};
use crate::mapper::{
    is_mapped_deal, is_usable_record, parsed_date_time, sold_at_pattern, sold_at_suffix, to_deal,
    DealForAdd,
};
use crate::store::{get_watermark, new_ids, new_log_entry, select_new_ids, watermark_of, SyncLogEntry};
use crate::text::{int_text, int_to_text, i32_of};

verus! {

/// Where a run stands: the event it waits for next.
#[derive(PartialEq, Eq, Structural, Clone, Copy)]
pub enum Phase {
    ReadWatermark,
    FetchLeads,
    ReadSaved,
    Authenticate,
    Enrich,
    Store,
    Record,
    Done,
}

/// What the run asks its caller to do next.
pub enum SyncAction {
    /// Request this listing page and report the answer with `on_listing`.
    FetchPage(String),
    /// Read the ids of the stored deals and report them with `on_saved_ids`.
    ReadSavedIds,
    /// Log in to the enrichment backend and report the token with `on_token`.
    Authenticate,
    /// Request this address for the deal's property and report the payload
    /// with `on_property`.
    FetchProperty { deal_id: u64, url: String },
    /// Insert this deal and report the result with `on_stored`.
    StoreDeal(DealForAdd),
    /// Append this entry to the run log and report the result with
    /// `on_recorded`.
    RecordRun(SyncLogEntry),
    /// The run is over: whether new deals were stored and the text to send,
    /// or the error that ended it.
    Finish(Result<(bool, String), Error>),
}

pub open spec fn no_new_deals_text() -> Seq<char> {
    "Новых сделок не найдено"@
}

pub open spec fn sync_done_text() -> Seq<char> {
    "Синхронизация выполнена"@
}

pub open spec fn summary_header() -> Seq<char> {
    "Проект: Сити\n"@
}

/// One line of the run summary for a stored deal.
pub open spec fn deal_line(d: DealForAdd) -> Seq<char> {
    "Дом № "@ + int_text(d.house as int) + " "@ + d.object_type@ + " № "@ + int_text(
        d.object as int,
    ) + ", \n"@
}

pub open spec fn deal_lines(ds: Seq<DealForAdd>) -> Seq<char>
    decreases ds.len(),
{
    if ds.len() == 0 {
        Seq::empty()
    } else {
        deal_lines(ds.drop_last()) + deal_line(ds.last())
    }
}

/// The text sent when a run stored deals.
pub open spec fn summary_text(ds: Seq<DealForAdd>) -> Seq<char> {
    summary_header() + deal_lines(ds)
}

/// One line of the run summary.
pub fn deal_line_text(d: &DealForAdd) -> (r: String)
    ensures
        r@ == deal_line(*d),
{
    let mut line = String::from_str("Дом № ");
    let house = int_to_text(d.house as i64);
    line.append(house.as_str());
    line.append(" ");
    line.append(d.object_type.as_str());
    line.append(" № ");
    let object = int_to_text(d.object as i64);
    line.append(object.as_str());
    line.append(", \n");
    line
}

/// The text sent when a run stored `deals`.
pub fn summary(deals: &Vec<DealForAdd>) -> (r: String)
    ensures
        r@ == summary_text(deals@),
{
    let mut text = String::from_str("Проект: Сити\n");
    let mut i: usize = 0;
    while i < deals.len()
        invariant
            0 <= i <= deals@.len(),
            text@ == summary_header() + deal_lines(deals@.subrange(0, i as int)),
        decreases deals@.len() - i,
    {
        assert(deals@.subrange(0, i + 1).drop_last() =~= deals@.subrange(0, i as int));
        let line = deal_line_text(&deals[i]);
        text.append(line.as_str());
        i = i + 1;
    }
    assert(deals@.subrange(0, deals@.len() as int) =~= deals@);
    text
}

fn copy_deal(d: &DealForAdd) -> (r: DealForAdd)
    ensures
        r == *d,
{
    DealForAdd {
        deal_id: d.deal_id,
        project: d.project.clone(),
        house: d.house,
        object_type: d.object_type.clone(),
        object: d.object,
        facing: d.facing.clone(),
        created_on: d.created_on,
    }
}

/// The ids of deals, in order.
pub open spec fn stored_ids(ds: Seq<DealForAdd>) -> Seq<u64> {
    ds.map_values(|d: DealForAdd| d.deal_id)
}

/// Of the first `n` ids of `pending`, each is stored or skipped; each
/// stored deal has one of them, and no two stored deals share an id.
pub open spec fn handled(pending: Seq<u64>, stored: Seq<DealForAdd>, skipped: Seq<u64>, n: int) -> bool {
    &&& 0 <= n <= pending.len()
    &&& forall|k: int|
        0 <= k < stored.len() ==> exists|j: int| 0 <= j < n && pending[j] == (#[trigger] stored[k]).deal_id
    &&& forall|a: int, b: int| 0 <= a < b < stored.len() ==> stored[a].deal_id != stored[b].deal_id
    &&& forall|j: int|
        0 <= j < n ==> stored_ids(stored).contains(#[trigger] pending[j]) || skipped.contains(pending[j])
}

/// One synchronisation run: reads the watermark, fetches the listing page by
/// page, keeps the qualifying leads that the store does not hold, enriches
/// and stores each, records the run, and reports. The caller performs each
/// action and hands back what came of it.
pub struct SyncRun {
    now: i64,
    listing_base: String,
    enrich_base: String,
    phase: Phase,
    pager: Pager,
    ids: Vec<u64>,
    saved: Ghost<Seq<u64>>,
    pending: Vec<u64>,
    next: usize,
    token: String,
    in_flight: Option<DealForAdd>,
    stored: Vec<DealForAdd>,
    skipped: Ghost<Seq<u64>>,
    found: bool,
    text: String,
}

/// `new` and `r` are what taking the next pending deal gives from `old`:
/// its property is requested, or, after the last, the run is recorded with
/// the deals stored.
pub open spec fn advanced(old: SyncRun, new: SyncRun, r: SyncAction) -> bool {
    &&& new.spec_next() == old.spec_next() + 1
    &&& old.spec_next() + 1 < old.spec_pending().len() ==> (r matches SyncAction::FetchProperty {
        deal_id,
        url,
    } && deal_id == old.spec_pending()[old.spec_next() + 1] && url@ == property_url_text(
        old.spec_enrich_base(),
        deal_id,
        old.spec_token(),
    ) && new.spec_phase() == Phase::Enrich)
    &&& old.spec_next() + 1 >= old.spec_pending().len() ==> {
        &&& new.spec_phase() == Phase::Record
        &&& (r matches SyncAction::RecordRun(e) && e.last_checked == old.spec_now() && e.created_at
            == old.spec_now() && e.rows_found == new.spec_stored().len())
        &&& new.spec_outcome() == if new.spec_stored().len() > 0 {
            (true, summary_text(new.spec_stored()))
        } else {
            (false, no_new_deals_text())
        }
    }
}

impl SyncRun {
    pub closed spec fn spec_phase(&self) -> Phase {
        self.phase
    }

    pub closed spec fn spec_now(&self) -> i64 {
        self.now
    }

    pub closed spec fn spec_listing_base(&self) -> Seq<char> {
        self.listing_base@
    }

    pub closed spec fn spec_enrich_base(&self) -> Seq<char> {
        self.enrich_base@
    }

    /// The leads gathered from the listing so far.
    pub closed spec fn spec_gathered(&self) -> Seq<Lead> {
        self.pager.spec_leads()
    }

    /// The listing addresses requested so far.
    pub closed spec fn spec_visited(&self) -> Seq<Seq<char>> {
        self.pager.spec_visited()
    }

    /// The ids of the qualifying leads.
    pub closed spec fn spec_ids(&self) -> Seq<u64> {
        self.ids@
    }

    /// The ids that the store held when the run read them.
    pub closed spec fn spec_saved(&self) -> Seq<u64> {
        self.saved@
    }

    /// The ids to enrich and store, in order.
    pub closed spec fn spec_pending(&self) -> Seq<u64> {
        self.pending@
    }

    /// The position in `spec_pending` of the deal being handled.
    pub closed spec fn spec_next(&self) -> int {
        self.next as int
    }

    pub closed spec fn spec_token(&self) -> Seq<char> {
        self.token@
    }

    /// The deals stored by this run, in order.
    pub closed spec fn spec_stored(&self) -> Seq<DealForAdd> {
        self.stored@
    }

    /// The ids of the deals skipped because their enrichment failed.
    pub closed spec fn spec_skipped(&self) -> Seq<u64> {
        self.skipped@
    }

    /// Of the first `n` pending ids, each is stored or skipped; each stored
    /// deal has one of them, and no two stored deals share an id.
    pub closed spec fn handled_upto(&self, n: int) -> bool {
        handled(self.pending@, self.stored@, self.skipped@, n)
    }

    /// The deal handed out to be stored.
    pub closed spec fn spec_in_flight(&self) -> Option<DealForAdd> {
        self.in_flight
    }

    /// What the run reports once the run log entry is written.
    pub closed spec fn spec_outcome(&self) -> (bool, Seq<char>) {
        (self.found, self.text@)
    }

    /// Everything but the phase and the outcome is as in `o`.
    pub closed spec fn same_data(&self, o: &SyncRun) -> bool {
        &&& self.now == o.now
        &&& self.listing_base@ == o.listing_base@
        &&& self.enrich_base@ == o.enrich_base@
        &&& self.pager.spec_leads() == o.pager.spec_leads()
        &&& self.pager.spec_visited() == o.pager.spec_visited()
        &&& self.ids@ == o.ids@
        &&& self.saved@ == o.saved@
        &&& self.pending@ == o.pending@
        &&& self.next == o.next
        &&& self.token@ == o.token@
        &&& self.stored@ == o.stored@
        &&& self.skipped@ == o.skipped@
    }

    /// The facts each phase relies on.
    pub closed spec fn wf(&self) -> bool {
        &&& (self.phase == Phase::Authenticate || self.phase == Phase::Enrich || self.phase
            == Phase::Store) ==> self.pending@ == new_ids(self.ids@, self.saved@)
            && self.pending@.len() > 0
        &&& (self.phase == Phase::Enrich || self.phase == Phase::Store) ==> self.next
            < self.pending@.len()
        &&& self.phase == Phase::Store ==> (self.in_flight matches Some(d) && d.deal_id
            == self.pending@[self.next as int])
        &&& (self.phase == Phase::ReadWatermark || self.phase == Phase::FetchLeads || self.phase
            == Phase::ReadSaved) ==> self.pending@.len() == 0
        &&& (self.phase == Phase::ReadWatermark || self.phase == Phase::FetchLeads || self.phase
            == Phase::ReadSaved || self.phase == Phase::Authenticate) ==> (self.next == 0
            && self.stored@.len() == 0 && self.skipped@.len() == 0)
        &&& (self.phase == Phase::Enrich || self.phase == Phase::Store || self.phase
            == Phase::Record) ==> (self.handled_upto(self.next as int) && self.pending@ == new_ids(
            self.ids@,
            self.saved@,
        ))
        &&& self.phase == Phase::Record ==> self.next == self.pending@.len()
    }

    /// A run started at `now` against the listing at `listing_base` and the
    /// enrichment backend at `enrich_base`. It first waits for the run log.
    pub fn new(now: i64, listing_base: String, enrich_base: String) -> (r: SyncRun)
        ensures
            r.wf(),
            r.spec_phase() == Phase::ReadWatermark,
            r.spec_now() == now,
            r.spec_listing_base() == listing_base@,
            r.spec_enrich_base() == enrich_base@,
            r.spec_stored() == Seq::<DealForAdd>::empty(),
    {
        SyncRun {
            now,
            listing_base,
            enrich_base,
            phase: Phase::ReadWatermark,
            pager: Pager::new(String::new()),
            ids: Vec::new(),
            saved: Ghost(Seq::empty()),
            pending: Vec::new(),
            next: 0,
            token: String::new(),
            in_flight: None,
            stored: Vec::new(),
            skipped: Ghost(Seq::empty()),
            found: false,
            text: String::new(),
        }
    }

    /// The phase the run is in.
    pub fn phase(&self) -> (r: Phase)
        ensures
            r == self.spec_phase(),
    {
        self.phase
    }

    fn finish(&mut self, e: Error) -> (r: SyncAction)
        ensures
            final(self).spec_phase() == Phase::Done,
            final(self).wf(),
            r == SyncAction::Finish(Err(e)),
            final(self).same_data(old(self)),
            final(self).spec_stored() == old(self).spec_stored(),
    {
        self.phase = Phase::Done;
        SyncAction::Finish(Err(e))
    }

    /// Takes in the run log, or the failure to read it: a failure ends the
    /// run with nothing written; else the first listing page is requested,
    /// filtered to leads created at or after the log's watermark.
    pub fn on_watermark(&mut self, log: Result<Vec<SyncLogEntry>, Error>) -> (r: SyncAction)
        requires
            old(self).wf(),
            old(self).spec_phase() == Phase::ReadWatermark,
        ensures
            final(self).wf(),
            final(self).spec_now() == old(self).spec_now(),
            final(self).spec_listing_base() == old(self).spec_listing_base(),
            final(self).spec_enrich_base() == old(self).spec_enrich_base(),
            final(self).spec_stored() == old(self).spec_stored(),
            match log {
                Err(e) => r == SyncAction::Finish(Err(e)) && final(self).spec_phase() == Phase::Done,
                Ok(l) => {
                    let url = old(self).spec_listing_base() + listing_query() + int_text(
                        watermark_of(l@) as int,
                    );
                    &&& (r matches SyncAction::FetchPage(u) && u@ == url)
                    &&& final(self).spec_phase() == Phase::FetchLeads
                    &&& final(self).spec_gathered() == Seq::<Lead>::empty()
                    &&& final(self).spec_visited() == seq![url]
                },
            },
    {
        match log {
            Err(e) => self.finish(e),
            Ok(l) => {
                let watermark = get_watermark(&l);
                let url = listing_url(self.listing_base.as_str(), watermark);
                self.pager = Pager::new(url.clone());
                self.phase = Phase::FetchLeads;
                SyncAction::FetchPage(url)
            },
        }
    }

    fn leads_done(&mut self) -> (r: SyncAction)
        requires
            old(self).wf(),
            old(self).spec_phase() == Phase::FetchLeads,
        ensures
            final(self).wf(),
            final(self).spec_now() == old(self).spec_now(),
            final(self).spec_listing_base() == old(self).spec_listing_base(),
            final(self).spec_enrich_base() == old(self).spec_enrich_base(),
            final(self).spec_stored() == old(self).spec_stored(),
            final(self).spec_gathered() == old(self).spec_gathered(),
            final(self).spec_visited() == old(self).spec_visited(),
            final(self).spec_ids() == qualifying_ids(old(self).spec_gathered()),
            final(self).spec_saved() == old(self).spec_saved(),
            final(self).spec_ids().len() > 0 ==> r is ReadSavedIds && final(self).spec_phase()
                == Phase::ReadSaved,
            final(self).spec_ids().len() == 0 ==> {
                &&& (r matches SyncAction::RecordRun(e) && e.last_checked == old(self).spec_now()
                    && e.created_at == old(self).spec_now() && e.rows_found == 0)
                &&& final(self).spec_phase() == Phase::Record
                &&& final(self).spec_outcome() == (false, if old(self).spec_gathered().len()
                    == 0 {
                    no_new_deals_text()
                } else {
                    sync_done_text()
                })
            },
    {
        let ids = lead_ids(self.pager.leads());
        let none_listed = self.pager.leads().len() == 0;
        self.ids = ids;
        if self.ids.len() > 0 {
            self.phase = Phase::ReadSaved;
            SyncAction::ReadSavedIds
        } else {
            self.found = false;
            self.text = if none_listed {
                String::from_str("Новых сделок не найдено")
            } else {
                String::from_str("Синхронизация выполнена")
            };
            self.phase = Phase::Record;
            assert(new_ids(self.ids@, self.saved@) =~= Seq::<u64>::empty());
            assert(self.pending@ =~= Seq::<u64>::empty());
            SyncAction::RecordRun(new_log_entry(self.now, 0))
        }
    }

    /// Takes in the listing's answer to the last page request: follows the
    /// page's cursor, fails the run where the request failed or the cursor
    /// repeats, and once all pages are in, picks the qualifying leads. With
    /// none, the run is recorded with no rows; else the stored ids are asked
    /// for.
    pub fn on_listing(&mut self, resp: PageResponse) -> (r: SyncAction)
        requires
            old(self).wf(),
            old(self).spec_phase() == Phase::FetchLeads,
        ensures
            final(self).wf(),
            final(self).spec_now() == old(self).spec_now(),
            final(self).spec_listing_base() == old(self).spec_listing_base(),
            final(self).spec_enrich_base() == old(self).spec_enrich_base(),
            final(self).spec_stored() == old(self).spec_stored(),
            match resp {
                PageResponse::NoContent => final(self).spec_gathered() == old(self).spec_gathered(),
                PageResponse::Failed(_) => r matches SyncAction::Finish(
                    Err(Error::ExternalService(_)),
                ) && final(self).spec_phase() == Phase::Done,
                PageResponse::Page(rec) => {
                    &&& final(self).spec_gathered() == old(self).spec_gathered()
                        + rec._embedded.leads@
                    &&& final(self).spec_visited() == visited_after(old(self).spec_visited(), rec)
                    &&& cursor_repeats(old(self).spec_visited(), rec) ==> (r matches SyncAction::Finish(
                        Err(Error::ExternalService(_)),
                    ) && final(self).spec_phase() == Phase::Done)
                    &&& !cursor_repeats(old(self).spec_visited(), rec) ==> match cursor_of(rec) {
                        Some(h) => (r matches SyncAction::FetchPage(u) && u@ == h
                            && final(self).spec_phase() == Phase::FetchLeads),
                        None => true,
                    }
                },
            },
            (match resp {
                PageResponse::NoContent => true,
                PageResponse::Failed(_) => false,
                PageResponse::Page(rec) => !cursor_repeats(old(self).spec_visited(), rec)
                    && cursor_of(rec) is None,
            }) ==> {
                &&& final(self).spec_ids() == qualifying_ids(final(self).spec_gathered())
                &&& final(self).spec_ids().len() > 0 ==> (r is ReadSavedIds
                    && final(self).spec_phase() == Phase::ReadSaved)
                &&& final(self).spec_ids().len() == 0 ==> {
                    &&& (r matches SyncAction::RecordRun(e) && e.last_checked == old(self).spec_now() && e.created_at == old(self).spec_now() && e.rows_found == 0)
                    &&& final(self).spec_phase() == Phase::Record
                    &&& final(self).spec_outcome() == (false, if final(self).spec_gathered().len() == 0 {
                        no_new_deals_text()
                    } else {
                        sync_done_text()
                    })
                }
            },
    {
        let step = self.pager.on_response(resp);
        match step {
            PagerStep::Fetch(u) => SyncAction::FetchPage(u),
            PagerStep::Failed(e) => self.finish(e),
            PagerStep::Done => self.leads_done(),
        }
    }

    fn finish_enrichment(&mut self) -> (r: SyncAction)
        requires
            old(self).next == old(self).pending@.len(),
            old(self).handled_upto(old(self).next as int),
            old(self).pending@ == new_ids(old(self).ids@, old(self).saved@),
        ensures
            final(self).wf(),
            final(self).same_data(old(self)),
            final(self).spec_phase() == Phase::Record,
            final(self).spec_now() == old(self).spec_now(),
            final(self).spec_stored() == old(self).spec_stored(),
            r matches SyncAction::RecordRun(e) && e.last_checked == old(self).spec_now()
                && e.created_at == old(self).spec_now() && e.rows_found == old(self).spec_stored().len(),
            final(self).spec_outcome() == if old(self).spec_stored().len() > 0 {
                (true, summary_text(old(self).spec_stored()))
            } else {
                (false, no_new_deals_text())
            },
    {
        if self.stored.len() > 0 {
            self.found = true;
            self.text = summary(&self.stored);
        } else {
            self.found = false;
            self.text = String::from_str("Новых сделок не найдено");
        }
        self.phase = Phase::Record;
        SyncAction::RecordRun(new_log_entry(self.now, self.stored.len() as u64))
    }

    fn request_property(&mut self) -> (r: SyncAction)
        requires
            old(self).next < old(self).pending@.len(),
            old(self).pending@ == new_ids(old(self).ids@, old(self).saved@),
            old(self).handled_upto(old(self).next as int),
        ensures
            final(self).wf(),
            final(self).same_data(old(self)),
            final(self).spec_phase() == Phase::Enrich,
            final(self).spec_now() == old(self).spec_now(),
            final(self).spec_stored() == old(self).spec_stored(),
            final(self).spec_pending() == old(self).spec_pending(),
            final(self).spec_next() == old(self).spec_next(),
            final(self).spec_token() == old(self).spec_token(),
            final(self).spec_enrich_base() == old(self).spec_enrich_base(),
            final(self).spec_ids() == old(self).spec_ids(),
            final(self).spec_saved() == old(self).spec_saved(),
            r matches SyncAction::FetchProperty { deal_id, url } && deal_id == old(self).spec_pending()[old(self).spec_next()] && url@ == property_url_text(
                old(self).spec_enrich_base(),
                deal_id,
                old(self).spec_token(),
            ),
    {
        let ghost before = *self;
        let id = self.pending[self.next];
        let url = property_url(self.enrich_base.as_str(), id, self.token.as_str());
        self.phase = Phase::Enrich;
        proof {
            lemma_handled_frame(before, *self, before.next as int);
        }
        SyncAction::FetchProperty { deal_id: id, url }
    }

    fn advance(&mut self) -> (r: SyncAction)
        requires
            old(self).next < old(self).pending@.len(),
            old(self).pending@ == new_ids(old(self).ids@, old(self).saved@),
            old(self).handled_upto(old(self).next + 1),
        ensures
            final(self).wf(),
            final(self).spec_skipped() == old(self).spec_skipped(),
            final(self).spec_now() == old(self).spec_now(),
            final(self).spec_listing_base() == old(self).spec_listing_base(),
            final(self).spec_enrich_base() == old(self).spec_enrich_base(),
            final(self).spec_stored() == old(self).spec_stored(),
            final(self).spec_pending() == old(self).spec_pending(),
            final(self).spec_saved() == old(self).spec_saved(),
            final(self).spec_ids() == old(self).spec_ids(),
            final(self).spec_token() == old(self).spec_token(),
            final(self).spec_next() == old(self).spec_next() + 1,
            old(self).spec_next() + 1 < old(self).spec_pending().len() ==> (r matches SyncAction::FetchProperty { deal_id, url }
                && deal_id == old(self).spec_pending()[old(self).spec_next() + 1] && url@
                == property_url_text(old(self).spec_enrich_base(), deal_id, old(self).spec_token())
                && final(self).spec_phase() == Phase::Enrich),
            old(self).spec_next() + 1 == old(self).spec_pending().len() ==> {
                &&& final(self).spec_phase() == Phase::Record
                &&& (r matches SyncAction::RecordRun(e) && e.last_checked == old(self).spec_now()
                    && e.created_at == old(self).spec_now() && e.rows_found == old(self).spec_stored().len())
                &&& final(self).spec_outcome() == if old(self).spec_stored().len() > 0 {
                    (true, summary_text(old(self).spec_stored()))
                } else {
                    (false, no_new_deals_text())
                }
            },
    {
        let ghost before = *self;
        let n = self.pending.len();
        self.next = self.next + 1;
        proof {
            lemma_handled_frame(before, *self, self.next as int);
        }
        if self.next < n {
            self.request_property()
        } else {
            self.finish_enrichment()
        }
    }

    /// Takes in the ids the store holds, or the failure to read them: keeps
    /// the qualifying ids not among them, each once. With none left the run is
    /// recorded with no rows; else the enrichment backend is logged in to.
    pub fn on_saved_ids(&mut self, saved: Result<Vec<u64>, Error>) -> (r: SyncAction)
        requires
            old(self).wf(),
            old(self).spec_phase() == Phase::ReadSaved,
        ensures
            final(self).wf(),
            final(self).spec_now() == old(self).spec_now(),
            final(self).spec_enrich_base() == old(self).spec_enrich_base(),
            final(self).spec_stored() == old(self).spec_stored(),
            final(self).spec_ids() == old(self).spec_ids(),
            match saved {
                Err(e) => r == SyncAction::Finish(Err(e)) && final(self).spec_phase() == Phase::Done,
                Ok(s) => {
                    &&& final(self).spec_saved() == s@
                    &&& final(self).spec_pending() == new_ids(old(self).spec_ids(), s@)
                    &&& final(self).spec_pending().len() > 0 ==> (r is Authenticate
                        && final(self).spec_phase() == Phase::Authenticate)
                    &&& final(self).spec_pending().len() == 0 ==> {
                        &&& (r matches SyncAction::RecordRun(e) && e.last_checked == old(self).spec_now() && e.created_at == old(self).spec_now() && e.rows_found == 0)
                        &&& final(self).spec_phase() == Phase::Record
                        &&& final(self).spec_outcome() == (false, no_new_deals_text())
                    }
                },
            },
    {
        match saved {
            Err(e) => self.finish(e),
            Ok(s) => {
                self.pending = select_new_ids(&self.ids, &s);
                self.saved = Ghost(s@);
                if self.pending.len() > 0 {
                    self.phase = Phase::Authenticate;
                    SyncAction::Authenticate
                } else {
                    self.found = false;
                    self.text = String::from_str("Новых сделок не найдено");
                    self.phase = Phase::Record;
                    SyncAction::RecordRun(new_log_entry(self.now, 0))
                }
            },
        }
    }

    /// Takes in the enrichment token, or the failure to log in, which ends
    /// the run; with a token the first pending deal's property is requested.
    pub fn on_token(&mut self, token: Result<String, Error>) -> (r: SyncAction)
        requires
            old(self).wf(),
            old(self).spec_phase() == Phase::Authenticate,
        ensures
            final(self).wf(),
            final(self).spec_now() == old(self).spec_now(),
            final(self).spec_stored() == old(self).spec_stored(),
            final(self).spec_pending() == old(self).spec_pending(),
            final(self).spec_saved() == old(self).spec_saved(),
            match token {
                Err(e) => r == SyncAction::Finish(Err(e)) && final(self).spec_phase() == Phase::Done,
                Ok(t) => {
                    &&& final(self).spec_phase() == Phase::Enrich
                    &&& final(self).spec_next() == 0
                    &&& final(self).spec_token() == t@
                    &&& (r matches SyncAction::FetchProperty { deal_id, url } && deal_id == old(self).spec_pending()[0] && url@ == property_url_text(
                        old(self).spec_enrich_base(),
                        deal_id,
                        t@,
                    ))
                },
            },
    {
        match token {
            Err(e) => self.finish(e),
            Ok(t) => {
                self.token = t;
                self.next = 0;
                self.request_property()
            },
        }
    }

    /// Takes in the property payload for the pending deal, or the failure to
    /// fetch it. A deal that maps is handed out to be stored. A failure that
    /// concerns this deal alone skips it: the next deal is requested, or, after
    /// the last, the run is recorded. Any other failure ends the run.
    pub fn on_property(&mut self, payload: Result<ProfitRecord, Error>) -> (r: SyncAction)
        requires
            old(self).wf(),
            old(self).spec_phase() == Phase::Enrich,
        ensures
            final(self).wf(),
            final(self).spec_now() == old(self).spec_now(),
            final(self).spec_stored() == old(self).spec_stored(),
            final(self).spec_pending() == old(self).spec_pending(),
            final(self).spec_saved() == old(self).spec_saved(),
            final(self).spec_ids() == old(self).spec_ids(),
            ({
                let id = old(self).spec_pending()[old(self).spec_next()];
                let skip = final(self).spec_skipped() == old(self).spec_skipped().push(id);
                let keep = final(self).spec_skipped() == old(self).spec_skipped();
                match payload {
                    Ok(rec) => {
                        if is_usable_record(rec) && i32_of(rec.data@[0].number@) is Some {
                            &&& (r matches SyncAction::StoreDeal(d) && is_mapped_deal(
                                d,
                                id,
                                rec.data@[0],
                                parsed_date_time(
                                    rec.data@[0].sold_at@ + sold_at_suffix(),
                                    sold_at_pattern(),
                                ),
                            ) && final(self).spec_in_flight() == Some(d))
                            &&& final(self).spec_phase() == Phase::Store
                            &&& final(self).spec_next() == old(self).spec_next()
                            &&& keep
                        } else {
                            advanced(*old(self), *final(self), r) && skip
                        }
                    },
                    Err(e) => if e.spec_is_per_deal() {
                        advanced(*old(self), *final(self), r) && skip
                    } else {
                        r == SyncAction::Finish(Err(e)) && final(self).spec_phase() == Phase::Done
                    },
                }
            }),
    {
        let id = self.pending[self.next];
        let mapped = match payload {
            Ok(rec) => to_deal(id, &rec),
            Err(e) => Err(e),
        };
        match mapped {
            Ok(d) => {
                let ghost before = *self;
                self.in_flight = Some(copy_deal(&d));
                self.phase = Phase::Store;
                proof {
                    lemma_handled_frame(before, *self, self.next as int);
                }
                SyncAction::StoreDeal(d)
            },
            Err(e) => {
                if e.is_per_deal() {
                    let ghost before = *self;
                    self.skipped = Ghost(self.skipped@.push(id));
                    proof {
                        lemma_skip_keeps_handled(before, *self);
                    }
                    self.advance()
                } else {
                    self.finish(e)
                }
            },
        }
    }

    /// Takes in the outcome of storing the deal handed out: a failure ends
    /// the run before the run log is written; else the deal counts as stored
    /// and the next deal is requested, or, after the last, the run is recorded.
    pub fn on_stored(&mut self, res: Result<(), Error>) -> (r: SyncAction)
        requires
            old(self).wf(),
            old(self).spec_phase() == Phase::Store,
        ensures
            final(self).wf(),
            final(self).spec_now() == old(self).spec_now(),
            final(self).spec_pending() == old(self).spec_pending(),
            final(self).spec_saved() == old(self).spec_saved(),
            final(self).spec_ids() == old(self).spec_ids(),
            final(self).spec_skipped() == old(self).spec_skipped(),
            match res {
                Err(e) => r == SyncAction::Finish(Err(e)) && final(self).spec_phase() == Phase::Done
                    && final(self).spec_stored() == old(self).spec_stored(),
                Ok(_) => {
                    &&& final(self).spec_stored() == old(self).spec_stored().push(
                        old(self).spec_in_flight().unwrap(),
                    )
                    &&& advanced(*old(self), *final(self), r)
                },
            },
    {
        match res {
            Err(e) => self.finish(e),
            Ok(_) => {
                let ghost before = *self;
                let deal = self.in_flight.take();
                match deal {
                    Some(d) => {
                        self.stored.push(d);
                    },
                    None => {},
                }
                proof {
                    crate::store::law_dedup_is_idempotent(before.ids@, before.saved@);
                    lemma_store_keeps_handled(before, *self);
                }
                self.advance()
            },
        }
    }

    /// Takes in the outcome of writing the run log entry: the run ends with
    /// its report, or with the failure.
    pub fn on_recorded(&mut self, res: Result<(), Error>) -> (r: SyncAction)
        requires
            old(self).wf(),
            old(self).spec_phase() == Phase::Record,
        ensures
            final(self).wf(),
            final(self).spec_phase() == Phase::Done,
            match res {
                Err(e) => r == SyncAction::Finish(Err(e)),
                Ok(_) => r matches SyncAction::Finish(Ok((found, text))) && found == old(self).spec_outcome().0 && text@ == old(self).spec_outcome().1,
            },
    {
        self.phase = Phase::Done;
        match res {
            Err(e) => SyncAction::Finish(Err(e)),
            Ok(_) => SyncAction::Finish(Ok((self.found, self.text.clone()))),
        }
    }
}

proof fn lemma_handled_frame(before: SyncRun, after: SyncRun, n: int)
    requires
        before.handled_upto(n),
        after.pending@ == before.pending@,
        after.stored@ == before.stored@,
        after.skipped@ == before.skipped@,
    ensures
        after.handled_upto(n),
{
}

proof fn lemma_skip_keeps_handled(before: SyncRun, after: SyncRun)
    requires
        before.handled_upto(before.next as int),
        before.next < before.pending@.len(),
        after.pending@ == before.pending@,
        after.stored@ == before.stored@,
        after.skipped@ == before.skipped@.push(before.pending@[before.next as int]),
    ensures
        after.handled_upto(before.next + 1),
{
    let n = before.next as int;
    assert forall|k: int| 0 <= k < after.stored@.len() implies exists|j: int|
        0 <= j < n + 1 && after.pending@[j] == (#[trigger] after.stored@[k]).deal_id by {
        let j = choose|j: int| 0 <= j < n && before.pending@[j] == before.stored@[k].deal_id;
    }
    assert forall|j: int| 0 <= j < n + 1 implies stored_ids(after.stored@).contains(
        #[trigger] after.pending@[j],
    ) || after.skipped@.contains(after.pending@[j]) by {
        if j < n {
            if before.skipped@.contains(before.pending@[j]) {
                let m = choose|m: int|
                    0 <= m < before.skipped@.len() && before.skipped@[m] == before.pending@[j];
                assert(after.skipped@[m] == before.pending@[j]);
            }
        } else {
            assert(after.skipped@[before.skipped@.len() as int] == after.pending@[j]);
        }
    }
}

proof fn lemma_store_keeps_handled(before: SyncRun, after: SyncRun)
    requires
        before.handled_upto(before.next as int),
        before.next < before.pending@.len(),
        before.in_flight matches Some(d) && d.deal_id == before.pending@[before.next as int],
        forall|i: int, j: int|
            0 <= i < j < before.pending@.len() ==> before.pending@[i] != before.pending@[j],
        after.pending@ == before.pending@,
        after.stored@ == before.stored@.push(before.in_flight.unwrap()),
        after.skipped@ == before.skipped@,
    ensures
        after.handled_upto(before.next + 1),
{
    let n = before.next as int;
    let d = before.in_flight.unwrap();
    let old_len = before.stored@.len() as int;
    assert(stored_ids(after.stored@) =~= stored_ids(before.stored@).push(d.deal_id));
    assert forall|k: int| 0 <= k < after.stored@.len() implies exists|j: int|
        0 <= j < n + 1 && after.pending@[j] == (#[trigger] after.stored@[k]).deal_id by {
        if k < old_len {
            assert(after.stored@[k] == before.stored@[k]);
            let j = choose|j: int| 0 <= j < n && before.pending@[j] == before.stored@[k].deal_id;
        } else {
            assert(after.pending@[n] == after.stored@[k].deal_id);
        }
    }
    assert forall|a: int, b: int| 0 <= a < b < after.stored@.len() implies after.stored@[a].deal_id
        != after.stored@[b].deal_id by {
        assert(after.stored@[a] == before.stored@[a]);
        if b == old_len {
            let j = choose|j: int| 0 <= j < n && before.pending@[j] == (#[trigger] before.stored@[a]).deal_id;
            assert(before.pending@[j] != before.pending@[n]);
        } else {
            assert(after.stored@[b] == before.stored@[b]);
        }
    }
    assert forall|j: int| 0 <= j < n + 1 implies stored_ids(after.stored@).contains(
        #[trigger] after.pending@[j],
    ) || after.skipped@.contains(after.pending@[j]) by {
        if j < n {
            if stored_ids(before.stored@).contains(before.pending@[j]) {
                let m = choose|m: int|
                    0 <= m < stored_ids(before.stored@).len() && stored_ids(before.stored@)[m]
                        == before.pending@[j];
                assert(stored_ids(after.stored@)[m] == before.pending@[j]);
            }
        } else {
            assert(stored_ids(after.stored@)[old_len] == after.pending@[j]);
        }
    }
}

/// A second run over the same qualifying ids, once the store holds what it
/// held for the first run plus what the first run stored, stores nothing
/// twice: the first run stored no id the store held and none twice, the
/// second picks no id the store now holds, and where no enrichment failed in
/// the first run the second picks nothing at all.
pub proof fn law_rerun_stores_nothing_twice(run: SyncRun)
    requires
        run.wf(),
        run.spec_phase() == Phase::Record,
    ensures
        forall|k: int|
            0 <= k < run.spec_stored().len() ==> !run.spec_saved().contains(
                (#[trigger] run.spec_stored()[k]).deal_id,
            ),
        forall|a: int, b: int|
            0 <= a < b < run.spec_stored().len() ==> run.spec_stored()[a].deal_id
                != run.spec_stored()[b].deal_id,
        forall|x: u64|
            #[trigger] new_ids(run.spec_ids(), run.spec_saved() + stored_ids(run.spec_stored())).contains(x)
                ==> !(run.spec_saved() + stored_ids(run.spec_stored())).contains(x),
        run.spec_skipped().len() == 0 ==> new_ids(
            run.spec_ids(),
            run.spec_saved() + stored_ids(run.spec_stored()),
        ) == Seq::<u64>::empty(),
{
    let ids = run.spec_ids();
    let saved = run.spec_saved();
    let stored = run.spec_stored();
    let both = saved + stored_ids(stored);
    crate::store::law_dedup_is_idempotent(ids, saved);
    crate::store::law_dedup_is_idempotent(ids, both);
    assert forall|k: int| 0 <= k < stored.len() implies !saved.contains(
        (#[trigger] stored[k]).deal_id,
    ) by {
        let j = choose|j: int| 0 <= j < run.spec_next() && run.spec_pending()[j] == stored[k].deal_id;
        assert(new_ids(ids, saved).contains(run.spec_pending()[j]));
    }
    if run.spec_skipped().len() == 0 {
        lemma_all_handled_stored(run);
    }
}

proof fn lemma_all_handled_stored(run: SyncRun)
    requires
        run.wf(),
        run.spec_phase() == Phase::Record,
        run.spec_skipped().len() == 0,
    ensures
        new_ids(run.spec_ids(), run.spec_saved() + stored_ids(run.spec_stored())) == Seq::<u64>::empty(),
{
    let ids = run.spec_ids();
    let saved = run.spec_saved();
    let both = saved + stored_ids(run.spec_stored());
    let second = new_ids(ids, both);
    crate::store::lemma_new_ids_cover(ids, saved);
    crate::store::lemma_new_ids_cover(ids, both);
    if second.len() > 0 {
        let x = second[0];
        assert(second.contains(x));
        assert(ids.contains(x) && !both.contains(x));
        assert(!saved.contains(x)) by {
            if saved.contains(x) {
                let m = choose|m: int| 0 <= m < saved.len() && saved[m] == x;
                assert(both[m] == x);
            }
        }
        assert(new_ids(ids, saved).contains(x));
        let j = choose|j: int| 0 <= j < run.spec_pending().len() && run.spec_pending()[j] == x;
        assert(stored_ids(run.spec_stored()).contains(run.spec_pending()[j])
            || run.spec_skipped().contains(run.spec_pending()[j]));
        let m = choose|m: int|
            0 <= m < stored_ids(run.spec_stored()).len() && stored_ids(run.spec_stored())[m] == x;
        assert(both[saved.len() + m] == x);
    }
    assert(second =~= Seq::<u64>::empty());
}

/// A deal handed out to be stored never has an id that the store held when
/// the run read it, nor one handed out before in the same run.
pub proof fn law_run_stores_each_new_id_once(run: SyncRun)
    requires
        run.wf(),
        run.spec_phase() == Phase::Store,
    ensures
        !run.spec_saved().contains(run.spec_in_flight().unwrap().deal_id),
        forall|k: int|
            0 <= k < run.spec_next() ==> run.spec_pending()[k] != run.spec_in_flight().unwrap().deal_id,
{
    crate::store::law_dedup_is_idempotent(run.spec_ids(), run.spec_saved());
    let id = run.spec_in_flight().unwrap().deal_id;
    assert(run.spec_pending()[run.spec_next()] == id);
    assert(run.spec_pending().contains(id));
}

} // verus!
