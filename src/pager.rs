use vstd::prelude::*;
use crate::model::{copy_text, Details, PageResult, Reservation};
use crate::normalize::{page_details, process_reservations, reservations_details};

verus! {

/// The number of items that each page request asks for.
pub const PAGE_SIZE: i64 = 25;

/// A describe-instances request: a page-size bound and the continuation
/// token of the previous page, if any.
#[derive(Clone, Debug)]
pub struct PageRequest {
    pub max_results: Option<i64>,
    pub next_token: Option<String>,
}

/// What one page fetch came back with.
#[derive(Clone, Debug)]
pub enum FetchOutcome {
    Fetched(PageResult),
    Failed,
}

/// Where a region's pagination stands: a request still to issue, or done.
#[derive(Clone, Debug)]
pub enum PagerState {
    Active(PageRequest),
    Done,
}

/// What a region's collection has reached so far.
pub struct CollectorModel {
    pub region: String,
    pub state: PagerState,
    pub collected: Seq<Details>,
    pub pages: nat,
}

/// A request with the given bound and no continuation token.
pub fn get_instance_request(max_items: Option<i64>) -> (r: PageRequest)
    ensures
        r.max_results == max_items,
        r.next_token is None,
{
    PageRequest { max_results: max_items, next_token: None }
}

/// The request that opens a region's pagination.
pub open spec fn first_request() -> PageRequest {
    PageRequest { max_results: Some(PAGE_SIZE), next_token: None }
}

/// The state that follows a page that was fetched: done where it carries no
/// continuation token, else a request that echoes the token.
pub open spec fn after_page(p: PageResult) -> PagerState {
    match p.next_token {
        Some(t) => PagerState::Active(PageRequest { max_results: Some(PAGE_SIZE), next_token: Some(t) }),
        None => PagerState::Done,
    }
}

/// The records that one outcome adds to the region's result.
pub open spec fn outcome_details(o: FetchOutcome, region: String) -> Seq<Details> {
    match o {
        FetchOutcome::Fetched(p) => match page_details(p.reservations, region) {
            Some(s) => s,
            None => Seq::empty(),
        },
        FetchOutcome::Failed => Seq::empty(),
    }
}

/// The collection of `region` before its first fetch.
pub open spec fn start(region: String) -> CollectorModel {
    CollectorModel {
        region: region,
        state: PagerState::Active(first_request()),
        collected: Seq::empty(),
        pages: 0,
    }
}

/// One fetch outcome applied to a collection. A done collection is left as it
/// is; a failed fetch ends the collection and adds nothing.
pub open spec fn step(m: CollectorModel, o: FetchOutcome) -> CollectorModel {
    match m.state {
        PagerState::Done => m,
        PagerState::Active(_) => match o {
            FetchOutcome::Failed => CollectorModel { state: PagerState::Done, ..m },
            FetchOutcome::Fetched(p) => CollectorModel {
                region: m.region,
                state: after_page(p),
                collected: m.collected + outcome_details(o, m.region),
                pages: m.pages + 1,
            },
        },
    }
}

/// The collection after a sequence of fetch outcomes, applied in order.
pub open spec fn drive(m: CollectorModel, outs: Seq<FetchOutcome>) -> CollectorModel
    decreases outs.len(),
{
    if outs.len() == 0 {
        m
    } else {
        drive(step(m, outs[0]), outs.drop_first())
    }
}

/// The records of a sequence of outcomes, concatenated in order.
pub open spec fn pages_details(outs: Seq<FetchOutcome>, region: String) -> Seq<Details>
    decreases outs.len(),
{
    if outs.len() == 0 {
        Seq::empty()
    } else {
        pages_details(outs.drop_last(), region) + outcome_details(outs.last(), region)
    }
}

/// Whether each of the outcomes is a page that carries a continuation token.
pub open spec fn all_continue(outs: Seq<FetchOutcome>) -> bool {
    forall|j: int|
        0 <= j < outs.len() ==> (#[trigger] outs[j] is Fetched && outs[j]->Fetched_0.next_token is Some)
}

/// Drives one region's pagination. The caller issues the request that
/// `next_request` gives and hands the outcome to `on_fetch`, until no request
/// is left; the records of every page fetched before the first failure are
/// kept, in order.
pub struct RegionCollector {
    region: String,
    state: PagerState,
    collected: Vec<Details>,
    pages: Ghost<nat>,
}

impl View for RegionCollector {
    type V = CollectorModel;

    closed spec fn view(&self) -> CollectorModel {
        CollectorModel {
            region: self.region,
            state: self.state,
            collected: self.collected@,
            pages: self.pages@,
        }
    }
}

fn copy_request(q: &PageRequest) -> (r: PageRequest)
    ensures
        r == *q,
{
    PageRequest { max_results: q.max_results, next_token: copy_text(&q.next_token) }
}

impl RegionCollector {
    /// A collection of `region` that has fetched nothing yet.
    pub fn new(region: String) -> (r: Self)
        ensures
            r@ == start(region),
    {
        RegionCollector {
            region,
            state: PagerState::Active(get_instance_request(Some(PAGE_SIZE))),
            collected: Vec::new(),
            pages: Ghost(0),
        }
    }

    /// The region that this collection stamps on its records.
    pub fn region(&self) -> (r: &String)
        ensures
            *r == self@.region,
    {
        &self.region
    }

    /// The request to issue next, or `None` once the pagination is done.
    pub fn next_request(&self) -> (r: Option<PageRequest>)
        ensures
            r == match self@.state {
                PagerState::Active(q) => Some(q),
                PagerState::Done => None::<PageRequest>,
            },
    {
        match &self.state {
            PagerState::Active(q) => Some(copy_request(q)),
            PagerState::Done => None,
        }
    }

    /// Whether the pagination is done.
    pub fn is_done(&self) -> (r: bool)
        ensures
            r == (self@.state is Done),
    {
        match &self.state {
            PagerState::Active(_) => false,
            PagerState::Done => true,
        }
    }

    /// Takes in the outcome of the pending request.
    pub fn on_fetch(&mut self, outcome: FetchOutcome)
        ensures
            final(self)@ == step(old(self)@, outcome),
    {
        if self.is_done() {
            return;
        }
        match outcome {
            FetchOutcome::Failed => {
                self.state = PagerState::Done;
            },
            FetchOutcome::Fetched(page) => {
                let ghost o = FetchOutcome::Fetched(page);
                let ghost before = self.collected@;
                match process_reservations(page.reservations, &self.region) {
                    Some(mut part) => {
                        self.collected.append(&mut part);
                    },
                    None => {},
                }
                assert(self.collected@ == before + outcome_details(o, self.region));
                self.state = match page.next_token {
                    Some(t) => PagerState::Active(
                        PageRequest { max_results: Some(PAGE_SIZE), next_token: Some(t) },
                    ),
                    None => PagerState::Done,
                };
                self.pages = Ghost(self.pages@ + 1);
            },
        }
    }

    /// The records collected, in the order of the pages that gave them.
    pub fn into_results(self) -> (r: Vec<Details>)
        ensures
            r@ == self@.collected,
    {
        self.collected
    }
}

/// Every record that a sequence of reservations yields carries the region
/// it was fetched from.
pub proof fn lemma_reservations_stamped(rs: Seq<Reservation>, region: String)
    ensures
        forall|j: int|
            0 <= j < reservations_details(rs, region).len() ==> (#[trigger] reservations_details(
                rs,
                region,
            )[j]).region == region,
    decreases rs.len(),
{
    if rs.len() > 0 {
        lemma_reservations_stamped(rs.drop_last(), region);
    }
}

/// Applying `a` and then `b` is applying `a + b`.
proof fn lemma_drive_append(m: CollectorModel, a: Seq<FetchOutcome>, b: Seq<FetchOutcome>)
    ensures
        drive(m, a + b) == drive(drive(m, a), b),
    decreases a.len(),
{
    if a.len() == 0 {
        assert(a + b =~= b);
    } else {
        assert((a + b).drop_first() =~= a.drop_first() + b);
        lemma_drive_append(step(m, a[0]), a.drop_first(), b);
    }
}

/// One more outcome is one more step.
proof fn lemma_drive_push(m: CollectorModel, a: Seq<FetchOutcome>, o: FetchOutcome)
    ensures
        drive(m, a.push(o)) == step(drive(m, a), o),
{
    lemma_drive_append(m, a, seq![o]);
    assert(a + seq![o] =~= a.push(o));
    let x = drive(m, a);
    assert(seq![o].drop_first() =~= Seq::<FetchOutcome>::empty());
    assert(drive(step(x, o), Seq::<FetchOutcome>::empty()) == step(x, o));
    assert(drive(x, seq![o]) == drive(step(x, seq![o][0]), seq![o].drop_first()));
}

/// A finished collection fetches nothing more: whatever outcomes follow, it
/// stays as it is.
pub proof fn lemma_done_absorbs(m: CollectorModel, outs: Seq<FetchOutcome>)
    requires
        m.state is Done,
    ensures
        drive(m, outs) == m,
    decreases outs.len(),
{
    if outs.len() > 0 {
        lemma_done_absorbs(step(m, outs[0]), outs.drop_first());
    }
}

/// Through pages that each carry a continuation token the collection stays
/// active and gathers each page's records in order.
pub proof fn lemma_chain(m: CollectorModel, outs: Seq<FetchOutcome>)
    requires
        m.state is Active,
        all_continue(outs),
    ensures
        drive(m, outs).state is Active,
        drive(m, outs).region == m.region,
        drive(m, outs).collected == m.collected + pages_details(outs, m.region),
        drive(m, outs).pages == m.pages + outs.len(),
    decreases outs.len(),
{
    if outs.len() == 0 {
        assert(m.collected + pages_details(outs, m.region) =~= m.collected);
    } else {
        let s = outs.drop_last();
        let o = outs.last();
        assert(all_continue(s)) by {
            assert forall|j: int| 0 <= j < s.len() implies (#[trigger] s[j] is Fetched
                && s[j]->Fetched_0.next_token is Some) by {
                assert(s[j] == outs[j]);
            }
        }
        lemma_chain(m, s);
        assert(s.push(o) =~= outs);
        lemma_drive_push(m, s, o);
        assert(o == outs[outs.len() - 1]);
        assert(m.collected + pages_details(s, m.region) + outcome_details(o, m.region)
            =~= m.collected + pages_details(outs, m.region));
    }
}

/// Each request after the first echoes the continuation token of the page
/// before it, with the same page size, and the collection ends with the first
/// page that carries no token: then it has fetched each page once and holds
/// their records in order.
pub proof fn lemma_token_threading(region: String, outs: Seq<FetchOutcome>)
    requires
        outs.len() > 0,
        all_continue(outs.drop_last()),
        outs.last() is Fetched,
    ensures
        drive(start(region), outs).state == after_page(outs.last()->Fetched_0),
        drive(start(region), outs).pages == outs.len(),
        drive(start(region), outs).collected == pages_details(outs, region),
{
    let s = outs.drop_last();
    lemma_chain(start(region), s);
    assert(s.push(outs.last()) =~= outs);
    lemma_drive_push(start(region), s, outs.last());
    assert(Seq::<Details>::empty() + pages_details(s, region) =~= pages_details(s, region));
}

/// A failed fetch ends the region: the result is exactly the records of the
/// pages fetched before it, and no later outcome is taken in.
pub proof fn lemma_failure_truncates(region: String, outs: Seq<FetchOutcome>, k: int)
    requires
        0 <= k < outs.len(),
        all_continue(outs.take(k)),
        outs[k] is Failed,
    ensures
        drive(start(region), outs).state is Done,
        drive(start(region), outs).pages == k,
        drive(start(region), outs).collected == pages_details(outs.take(k), region),
{
    let a = outs.take(k);
    let b = outs.skip(k + 1);
    lemma_chain(start(region), a);
    lemma_drive_push(start(region), a, outs[k]);
    assert(a.push(outs[k]) + b =~= outs);
    lemma_drive_append(start(region), a.push(outs[k]), b);
    lemma_done_absorbs(drive(start(region), a.push(outs[k])), b);
    assert(Seq::<Details>::empty() + pages_details(a, region) =~= pages_details(a, region));
}

/// Every record that a collection of `region` gathers carries `region`, as
/// it was given, whatever the pages hold.
pub proof fn lemma_region_stamped(region: String, outs: Seq<FetchOutcome>)
    ensures
        forall|j: int|
            0 <= j < drive(start(region), outs).collected.len() ==> (#[trigger] drive(
                start(region),
                outs,
            ).collected[j]).region == region,
{
    lemma_stamp_kept(start(region), outs);
}

proof fn lemma_stamp_kept(m: CollectorModel, outs: Seq<FetchOutcome>)
    requires
        forall|j: int| 0 <= j < m.collected.len() ==> (#[trigger] m.collected[j]).region == m.region,
    ensures
        drive(m, outs).region == m.region,
        forall|j: int|
            0 <= j < drive(m, outs).collected.len() ==> (#[trigger] drive(m, outs).collected[j]).region
                == m.region,
    decreases outs.len(),
{
    if outs.len() > 0 {
        let n = step(m, outs[0]);
        if let FetchOutcome::Fetched(p) = outs[0] {
            if let Some(rs) = p.reservations {
                lemma_reservations_stamped(rs@, m.region);
            }
        }
        assert forall|j: int| 0 <= j < n.collected.len() implies (#[trigger] n.collected[j]).region
            == n.region by {
            if j >= m.collected.len() && m.state is Active {
                assert(n.collected[j] == outcome_details(outs[0], m.region)[j - m.collected.len()]);
            }
        }
        lemma_stamp_kept(n, outs.drop_first());
    }
}

} // verus!
