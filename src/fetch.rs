use vstd::prelude::*;
use vstd::string::*;
use crate::data::{Lead, Record};
use crate::error::Error;
use crate::text::{int_text, int_to_text};

verus! {

/// What the lead listing answered to one request.
pub enum PageResponse {
    /// `204 No Content`: there are no leads.
    NoContent,
    /// A page of leads.
    Page(Record),
    /// The request or the decoding of its body failed.
    Failed(String),
}

/// What the fetcher asks for next.
pub enum PagerStep {
    /// Request this address next.
    Fetch(String),
    /// All pages are in.
    Done,
    /// The fetch is abandoned; nothing gathered so far is to be used.
    Failed(Error),
}

/// Follows the listing's page cursors and gathers the leads of every page.
pub struct Pager {
    leads: Vec<Lead>,
    visited: Vec<String>,
}

pub open spec fn texts(v: Seq<String>) -> Seq<Seq<char>> {
    v.map_values(|s: String| s@)
}

/// The cursor that a page carries: its next link, unless absent or empty.
/// A last page may advertise its end either by leaving the link out or by
/// giving it an empty address; an empty address names no page to request,
/// so it ends the fetch rather than failing it. A link that leads back to an
/// address already requested is what makes the fetch fail.
pub open spec fn cursor_of(rec: Record) -> Option<Seq<char>> {
    match rec._links.next {
        Some(l) => if l.href@.len() > 0 { Some(l.href@) } else { None },
        None => None,
    }
}

/// A page's cursor leads back to an address already requested.
pub open spec fn cursor_repeats(visited: Seq<Seq<char>>, rec: Record) -> bool {
    match cursor_of(rec) {
        Some(h) => visited.contains(h),
        None => false,
    }
}

/// The addresses requested once a page is taken in.
pub open spec fn visited_after(visited: Seq<Seq<char>>, rec: Record) -> Seq<Seq<char>> {
    match cursor_of(rec) {
        Some(h) => if visited.contains(h) { visited } else { visited.push(h) },
        None => visited,
    }
}

/// The leads of every page, in order.
pub open spec fn all_leads(pages: Seq<Record>) -> Seq<Lead>
    decreases pages.len(),
{
    if pages.len() == 0 {
        Seq::empty()
    } else {
        pages[0]._embedded.leads@ + all_leads(pages.drop_first())
    }
}

/// The leads of the first `n` pages, in order.
pub open spec fn leads_upto(pages: Seq<Record>, n: int) -> Seq<Lead>
    decreases n,
{
    if n <= 0 {
        Seq::empty()
    } else {
        leads_upto(pages, n - 1) + pages[n - 1]._embedded.leads@
    }
}

/// `after` holds the gathered leads and requested addresses that taking in
/// `rec` gives from `before`, as `Pager::on_page` and `SyncRun::on_listing`
/// state them.
pub open spec fn page_taken(
    before: (Seq<Lead>, Seq<Seq<char>>),
    rec: Record,
    after: (Seq<Lead>, Seq<Seq<char>>),
) -> bool {
    after.0 == before.0 + rec._embedded.leads@ && after.1 == visited_after(before.1, rec)
}

proof fn lemma_leads_upto_all(pages: Seq<Record>, n: int)
    requires
        0 <= n <= pages.len(),
    ensures
        leads_upto(pages, n) == all_leads(pages.subrange(0, n)),
    decreases n,
{
    if n > 0 {
        lemma_leads_upto_all(pages, n - 1);
        lemma_all_leads_push(pages.subrange(0, n - 1), pages[n - 1]);
        assert(pages.subrange(0, n - 1).push(pages[n - 1]) =~= pages.subrange(0, n));
    } else {
        assert(pages.subrange(0, 0).len() == 0);
    }
}

proof fn lemma_all_leads_push(pages: Seq<Record>, rec: Record)
    ensures
        all_leads(pages.push(rec)) == all_leads(pages) + rec._embedded.leads@,
    decreases pages.len(),
{
    if pages.len() == 0 {
        assert(pages.push(rec).drop_first() =~= Seq::<Record>::empty());
        assert(all_leads(Seq::<Record>::empty()) == Seq::<Lead>::empty());
        assert(rec._embedded.leads@ + Seq::<Lead>::empty() =~= Seq::<Lead>::empty()
            + rec._embedded.leads@);
    } else {
        lemma_all_leads_push(pages.drop_first(), rec);
        assert(pages.push(rec).drop_first() =~= pages.drop_first().push(rec));
        assert(pages.push(rec)[0] == pages[0]);
        assert(pages[0]._embedded.leads@ + (all_leads(pages.drop_first())
            + rec._embedded.leads@) =~= (pages[0]._embedded.leads@ + all_leads(
            pages.drop_first(),
        )) + rec._embedded.leads@);
    }
}

/// A whole fetch ends and loses nothing: where every page but the last
/// advertises a cursor of its own, distinct from the others and from the
/// first address, and the last advertises none, the states that taking the
/// pages in turn gives (`states[i]` before page `i`) never see a cursor
/// repeat, so each page but the last asks for the next and the last ends the
/// fetch, and the leads gathered at the end are those of all pages, each
/// page's once, in order.
pub proof fn law_fetch_run_gathers_every_page_once(
    first_url: Seq<char>,
    pages: Seq<Record>,
    states: Seq<(Seq<Lead>, Seq<Seq<char>>)>,
)
    requires
        pages.len() >= 1,
        states.len() == pages.len() + 1,
        states[0] == (Seq::<Lead>::empty(), seq![first_url]),
        forall|i: int| 0 <= i < pages.len() ==> page_taken(states[i], #[trigger] pages[i], states[i + 1]),
        forall|i: int| 0 <= i < pages.len() - 1 ==> (#[trigger] cursor_of(pages[i])) is Some,
        cursor_of(pages[pages.len() - 1]) is None,
        forall|i: int, j: int|
            0 <= i < pages.len() - 1 && 0 <= j < pages.len() - 1 && i != j ==> #[trigger] cursor_of(
                pages[i],
            ) != #[trigger] cursor_of(pages[j]),
        forall|i: int|
            0 <= i < pages.len() - 1 ==> (#[trigger] cursor_of(pages[i])).unwrap() != first_url,
    ensures
        forall|i: int| 0 <= i < pages.len() ==> !cursor_repeats(states[i].1, #[trigger] pages[i]),
        states[pages.len() as int].0 == all_leads(pages),
{
    let n = pages.len() as int;
    assert forall|i: int| 0 <= i < n implies !cursor_repeats(states[i].1, #[trigger] pages[i]) by {
        lemma_fetch_states(first_url, pages, states, i);
        if i < n - 1 {
            assert(cursor_of(pages[i]) is Some);
            let h = cursor_of(pages[i]).unwrap();
            let v = states[i].1;
            if v.contains(h) {
                let k = choose|k: int| 0 <= k < v.len() && v[k] == h;
                if k == 0 {
                    assert(v[0] == first_url);
                } else {
                    assert(v[k] == cursor_of(pages[k - 1]).unwrap());
                    assert(cursor_of(pages[k - 1]) is Some);
                    assert(cursor_of(pages[k - 1]) != cursor_of(pages[i]));
                }
            }
        }
    }
    lemma_fetch_states(first_url, pages, states, n - 1);
    assert(page_taken(states[n - 1], pages[n - 1], states[n]));
    assert(leads_upto(pages, n) == leads_upto(pages, n - 1) + pages[n - 1]._embedded.leads@);
    lemma_leads_upto_all(pages, n);
    assert(pages.subrange(0, n) =~= pages);
}

proof fn lemma_fetch_states(
    first_url: Seq<char>,
    pages: Seq<Record>,
    states: Seq<(Seq<Lead>, Seq<Seq<char>>)>,
    i: int,
)
    requires
        pages.len() >= 1,
        states.len() == pages.len() + 1,
        states[0] == (Seq::<Lead>::empty(), seq![first_url]),
        forall|i: int| 0 <= i < pages.len() ==> page_taken(states[i], #[trigger] pages[i], states[i + 1]),
        forall|i: int| 0 <= i < pages.len() - 1 ==> (#[trigger] cursor_of(pages[i])) is Some,
        forall|i: int, j: int|
            0 <= i < pages.len() - 1 && 0 <= j < pages.len() - 1 && i != j ==> #[trigger] cursor_of(
                pages[i],
            ) != #[trigger] cursor_of(pages[j]),
        forall|i: int|
            0 <= i < pages.len() - 1 ==> (#[trigger] cursor_of(pages[i])).unwrap() != first_url,
        0 <= i <= pages.len() - 1,
    ensures
        states[i].0 == leads_upto(pages, i),
        states[i].1.len() == i + 1,
        states[i].1[0] == first_url,
        forall|k: int| 1 <= k <= i ==> states[i].1[k] == (#[trigger] cursor_of(pages[k - 1])).unwrap(),
    decreases i,
{
    if i > 0 {
        lemma_fetch_states(first_url, pages, states, i - 1);
        let v = states[i - 1].1;
        assert(page_taken(states[i - 1], pages[i - 1], states[i]));
        assert(cursor_of(pages[i - 1]) is Some);
        let h = cursor_of(pages[i - 1]).unwrap();
        if v.contains(h) {
            let k = choose|k: int| 0 <= k < v.len() && v[k] == h;
            if k == 0 {
                assert(v[0] == first_url);
            } else {
                assert(v[k] == cursor_of(pages[k - 1]).unwrap());
                assert(cursor_of(pages[k - 1]) is Some);
                assert(cursor_of(pages[k - 1]) != cursor_of(pages[i - 1]));
            }
        }
        assert(states[i].1 == v.push(h));
    } else {
        assert(states[0].1 == seq![first_url]);
    }
}

pub open spec fn listing_query() -> Seq<char> {
    "&filter[created_at][from]="@
}

/// The first listing request: the listing address filtered to leads created
/// at or after the watermark.
pub fn listing_url(base: &str, watermark: i64) -> (r: String)
    ensures
        r@ == base@ + listing_query() + int_text(watermark as int),
{
    let mut url = String::from_str(base);
    url.append("&filter[created_at][from]=");
    let stamp = int_to_text(watermark);
    url.append(stamp.as_str());
    url
}

impl Pager {
    pub closed spec fn spec_leads(&self) -> Seq<Lead> {
        self.leads@
    }

    pub closed spec fn spec_visited(&self) -> Seq<Seq<char>> {
        texts(self.visited@)
    }

    /// A fetch that starts by requesting `first_url`.
    pub fn new(first_url: String) -> (r: Pager)
        ensures
            r.spec_leads() == Seq::<Lead>::empty(),
            r.spec_visited() == seq![first_url@],
    {
        let mut visited: Vec<String> = Vec::new();
        visited.push(first_url);
        let r = Pager { leads: Vec::new(), visited };
        assert(r.spec_visited() =~= seq![first_url@]);
        r
    }

    /// The leads gathered so far.
    pub fn leads(&self) -> (r: &Vec<Lead>)
        ensures
            r@ == self.spec_leads(),
    {
        &self.leads
    }

    /// Hands over the leads gathered.
    pub fn into_leads(self) -> (r: Vec<Lead>)
        ensures
            r@ == self.spec_leads(),
    {
        self.leads
    }

    fn has_visited(&self, href: &String) -> (r: bool)
        ensures
            r == self.spec_visited().contains(href@),
    {
        let mut i: usize = 0;
        while i < self.visited.len()
            invariant
                0 <= i <= self.visited@.len(),
                forall|k: int| 0 <= k < i ==> self.visited@[k]@ != href@,
            decreases self.visited@.len() - i,
        {
            if self.visited[i] == *href {
                assert(self.spec_visited()[i as int] == href@);
                return true;
            }
            i = i + 1;
        }
        proof {
            if self.spec_visited().contains(href@) {
                let k = choose|k: int|
                    0 <= k < self.spec_visited().len() && self.spec_visited()[k] == href@;
                assert(self.visited@[k]@ == href@);
            }
        }
        false
    }

    /// Takes in one page: gathers its leads, then follows its cursor, ends
    /// where it has none, and fails where it leads back to an address already
    /// requested.
    pub fn on_page(&mut self, rec: Record) -> (r: PagerStep)
        ensures
            final(self).spec_leads() == old(self).spec_leads() + rec._embedded.leads@,
            final(self).spec_visited() == visited_after(old(self).spec_visited(), rec),
            cursor_repeats(old(self).spec_visited(), rec) ==> r matches PagerStep::Failed(
                Error::ExternalService(_),
            ),
            !cursor_repeats(old(self).spec_visited(), rec) ==> match cursor_of(rec) {
                Some(h) => (r matches PagerStep::Fetch(u) && u@ == h),
                None => r is Done,
            },
    {
        let ghost old_leads = self.leads@;
        let ghost page_leads = rec._embedded.leads@;
        let Record { _links, _embedded } = rec;
        let mut page = _embedded.leads;
        self.leads.append(&mut page);
        assert(self.leads@ == old_leads + page_leads);
        match _links.next {
            None => PagerStep::Done,
            Some(link) => {
                if link.href.as_str().unicode_len() == 0 {
                    proof {
                        assert(link.href@.len() == 0);
                    }
                    PagerStep::Done
                } else {
                    proof {
                        assert(link.href@.len() > 0);
                    }
                    if self.has_visited(&link.href) {
                        PagerStep::Failed(
                            Error::ExternalService(String::from_str("the page cursor repeats")),
                        )
                    } else {
                        let ghost before = self.visited@;
                        let href = link.href;
                        let next = href.clone();
                        self.visited.push(href);
                        assert(texts(self.visited@) =~= texts(before).push(next@));
                        PagerStep::Fetch(next)
                    }
                }
            },
        }
    }

    /// Takes in any answer of the listing: `204 No Content` ends the fetch
    /// with what was gathered, a failed request fails it.
    pub fn on_response(&mut self, resp: PageResponse) -> (r: PagerStep)
        ensures
            match resp {
                PageResponse::NoContent => r is Done && final(self).spec_leads() == old(
                    self,
                ).spec_leads() && final(self).spec_visited() == old(self).spec_visited(),
                PageResponse::Failed(_) => r matches PagerStep::Failed(
                    Error::ExternalService(_),
                ),
                PageResponse::Page(rec) => {
                    &&& final(self).spec_leads() == old(self).spec_leads()
                        + rec._embedded.leads@
                    &&& final(self).spec_visited() == visited_after(old(self).spec_visited(), rec)
                    &&& cursor_repeats(old(self).spec_visited(), rec) ==> (r matches PagerStep::Failed(
                        Error::ExternalService(_),
                    ))
                    &&& !cursor_repeats(old(self).spec_visited(), rec) ==> match cursor_of(rec) {
                        Some(h) => (r matches PagerStep::Fetch(u) && u@ == h),
                        None => r is Done,
                    }
                },
            },
    {
        match resp {
            PageResponse::NoContent => PagerStep::Done,
            PageResponse::Failed(msg) => PagerStep::Failed(Error::ExternalService(msg)),
            PageResponse::Page(rec) => self.on_page(rec),
        }
    }
}

} // verus!
