//! One tick's walk over the listing feed, driven page by page: the caller
//! fetches the page that a step asks for and hands it back.
use vstd::prelude::*;
use crate::listing::{
    ListingError,
    ListingItem,
    ListingPage,
    page_items,
    amounts_parse,
    amount_total,
    prices_parse,
    eligible_positions,
    add_amounts,
    eligible_items,
};
use crate::paging::{ceil_div, page_count};

verus! {

/// Index of the page that every walk starts with.
pub const FIRST_PAGE: u64 = 1;

/// What the walk needs next.
#[derive(Debug, Clone, Copy, PartialEq, Eq, Structural)]
pub enum Next {
    /// Fetch this 1-based page and hand it back.
    Fetch(u64),
    /// Every page has been seen.
    Finished,
}

/// Step after `received` of `pages` pages have been seen.
pub open spec fn next_after(received: u64, pages: u64) -> Next {
    if received >= pages {
        Next::Finished
    } else {
        Next::Fetch((received + 1) as u64)
    }
}

/// The items of a page that count: none when the first page reports an
/// empty feed, whatever its item field holds.
pub open spec fn counted_items(first: bool, page: ListingPage) -> Seq<ListingItem> {
    if first && page.total_count == 0 {
        Seq::empty()
    } else {
        page_items(page)
    }
}

/// Page bookkeeping: the page count comes from the first page's total.
pub struct Pager {
    page_size: u64,
    pages: u64,
    received: u64,
}

impl Pager {
    pub closed spec fn page_size(&self) -> u64 {
        self.page_size
    }

    pub closed spec fn pages(&self) -> u64 {
        self.pages
    }

    pub closed spec fn received(&self) -> u64 {
        self.received
    }

    pub open spec fn wf(&self) -> bool {
        &&& self.page_size() > 0
        &&& (self.received() <= self.pages() || self.received() == 1)
        &&& (self.received() == 0 ==> self.pages() == 0)
    }

    pub open spec fn finished(&self) -> bool {
        self.received() >= 1 && self.received() >= self.pages()
    }

    pub fn new(page_size: u64) -> (r: Pager)
        requires
            page_size > 0,
        ensures
            r.wf(),
            r.page_size() == page_size,
            r.received() == 0,
    {
        Pager { page_size, pages: 0, received: 0 }
    }

    /// Notes one more page, whose reported total is `total_count`.
    pub fn record(&mut self, total_count: u64) -> (r: Next)
        requires
            old(self).wf(),
            !old(self).finished(),
        ensures
            final(self).wf(),
            final(self).page_size() == old(self).page_size(),
            final(self).received() == old(self).received() + 1,
            final(self).pages() == if old(self).received() == 0 {
                ceil_div(total_count as int, old(self).page_size() as int)
            } else {
                old(self).pages() as int
            },
            r == next_after(final(self).received(), final(self).pages()),
    {
        if self.received == 0 {
            self.pages = page_count(total_count, self.page_size);
        }
        self.received = self.received + 1;
        if self.received >= self.pages {
            Next::Finished
        } else {
            Next::Fetch(self.received + 1)
        }
    }

    /// Whether the page about to arrive is the first.
    pub fn at_first(&self) -> (r: bool)
        ensures
            r == (self.received() == 0),
    {
        self.received == 0
    }
}

/// Outcome of a supply check.
#[derive(Debug, Clone, Copy, PartialEq, Eq, Structural)]
pub struct AggregationResult {
    pub total_amount: u64,
    pub threshold: u64,
    /// Listed supply is below the threshold: new listings are wanted.
    pub deficit: bool,
}

pub open spec fn aggregation_of(total_amount: u64, threshold: u64) -> AggregationResult {
    AggregationResult { total_amount, threshold, deficit: total_amount < threshold }
}

/// Sums the listed amounts over every page of the feed.
pub struct SupplyPass {
    pager: Pager,
    threshold: u64,
    sum: u64,
}

impl SupplyPass {
    pub closed spec fn pager(&self) -> Pager {
        self.pager
    }

    pub closed spec fn threshold(&self) -> u64 {
        self.threshold
    }

    pub closed spec fn sum(&self) -> u64 {
        self.sum
    }

    pub open spec fn wf(&self) -> bool {
        self.pager().wf()
    }

    pub open spec fn finished(&self) -> bool {
        self.pager().finished()
    }

    pub fn new(page_size: u64, threshold: u64) -> (r: SupplyPass)
        requires
            page_size > 0,
        ensures
            r.wf(),
            r.pager().page_size() == page_size,
            r.pager().received() == 0,
            r.threshold() == threshold,
            r.sum() == 0,
    {
        SupplyPass { pager: Pager::new(page_size), threshold, sum: 0 }
    }

    /// Takes in the page that the last step asked for.
    pub fn on_page(&mut self, page: &ListingPage) -> (r: Result<Next, ListingError>)
        requires
            old(self).wf(),
            !old(self).finished(),
        ensures
            ({
                let items = counted_items(old(self).pager().received() == 0, *page);
                let total = old(self).sum() + amount_total(items);
                &&& !amounts_parse(items) ==> r == Err::<Next, ListingError>(ListingError::Parse)
                &&& amounts_parse(items) && total > u64::MAX ==> r == Err::<Next, ListingError>(
                    ListingError::Overflow,
                )
                &&& r is Err ==> *final(self) == *old(self)
                &&& amounts_parse(items) && total <= u64::MAX ==> {
                    &&& final(self).wf()
                    &&& final(self).sum() == total
                    &&& final(self).threshold() == old(self).threshold()
                    &&& final(self).pager().page_size() == old(self).pager().page_size()
                    &&& final(self).pager().received() == old(self).pager().received() + 1
                    &&& final(self).pager().pages() == if old(self).pager().received() == 0 {
                        ceil_div(page.total_count as int, old(self).pager().page_size() as int)
                    } else {
                        old(self).pager().pages() as int
                    }
                    &&& r == Ok::<Next, ListingError>(
                        next_after(final(self).pager().received(), final(self).pager().pages()),
                    )
                }
            }),
    {
        let skip = self.pager.at_first() && page.total_count == 0;
        let mut sum = self.sum;
        if skip {
            assert(amount_total(Seq::<ListingItem>::empty()) == 0);
        } else {
            match &page.items {
                Some(items) => {
                    match add_amounts(self.sum, items) {
                        Ok(v) => sum = v,
                        Err(e) => {
                            return Err(e);
                        },
                    }
                },
                None => {
                    assert(amount_total(Seq::<ListingItem>::empty()) == 0);
                },
            }
        }
        self.sum = sum;
        Ok(self.pager.record(page.total_count))
    }

    /// The outcome so far; final once the walk has finished.
    pub fn result(&self) -> (r: AggregationResult)
        ensures
            r == aggregation_of(self.sum(), self.threshold()),
    {
        AggregationResult {
            total_amount: self.sum,
            threshold: self.threshold,
            deficit: self.sum < self.threshold,
        }
    }
}

/// What a buy check found on one page.
#[derive(Debug, Clone)]
pub struct PageVerdict {
    /// Positions on the page of the items eligible for a buy.
    pub eligible: Vec<usize>,
    pub next: Next,
}

/// Classifies the items of every page against one floor price.
pub struct BuyPass {
    pager: Pager,
    floor: u64,
}

impl BuyPass {
    pub closed spec fn pager(&self) -> Pager {
        self.pager
    }

    pub closed spec fn floor(&self) -> u64 {
        self.floor
    }

    pub open spec fn wf(&self) -> bool {
        self.pager().wf()
    }

    pub open spec fn finished(&self) -> bool {
        self.pager().finished()
    }

    pub fn new(page_size: u64, floor: u64) -> (r: BuyPass)
        requires
            page_size > 0,
        ensures
            r.wf(),
            r.pager().page_size() == page_size,
            r.pager().received() == 0,
            r.floor() == floor,
    {
        BuyPass { pager: Pager::new(page_size), floor }
    }

    /// The floor price that this check compares against.
    pub fn floor_price(&self) -> (r: u64)
        ensures
            r == self.floor(),
    {
        self.floor
    }

    /// Takes in the page that the last step asked for.
    pub fn on_page(&mut self, page: &ListingPage) -> (r: Result<PageVerdict, ListingError>)
        requires
            old(self).wf(),
            !old(self).finished(),
        ensures
            ({
                let items = counted_items(old(self).pager().received() == 0, *page);
                &&& r is Ok <==> prices_parse(items)
                &&& r matches Err(e) ==> e == ListingError::Parse && *final(self) == *old(self)
                &&& r matches Ok(v) ==> {
                    &&& final(self).wf()
                    &&& final(self).floor() == old(self).floor()
                    &&& final(self).pager().page_size() == old(self).pager().page_size()
                    &&& final(self).pager().received() == old(self).pager().received() + 1
                    &&& final(self).pager().pages() == if old(self).pager().received() == 0 {
                        ceil_div(page.total_count as int, old(self).pager().page_size() as int)
                    } else {
                        old(self).pager().pages() as int
                    }
                    &&& v.eligible@ == eligible_positions(items, old(self).floor())
                    &&& v.next == next_after(
                        final(self).pager().received(),
                        final(self).pager().pages(),
                    )
                }
            }),
    {
        let skip = self.pager.at_first() && page.total_count == 0;
        let mut eligible: Vec<usize> = Vec::new();
        if !skip {
            match &page.items {
                Some(items) => {
                    eligible = eligible_items(items, self.floor)?;
                },
                None => {},
            }
        }
        let next = self.pager.record(page.total_count);
        Ok(PageVerdict { eligible, next })
    }
}

} // verus!

verus! {

/// A first page that reports an empty feed ends the walk: no further page is
/// asked for, none of its items count (an absent item field included), and
/// neither a supply check nor a buy check can fail on it.
pub proof fn lemma_empty_first_page(page: ListingPage, page_size: u64, floor: u64)
    requires
        page.total_count == 0,
        page_size > 0,
    ensures
        ceil_div(page.total_count as int, page_size as int) == 0,
        next_after(1, 0) == Next::Finished,
        counted_items(true, page) == Seq::<ListingItem>::empty(),
        amounts_parse(counted_items(true, page)),
        amount_total(counted_items(true, page)) == 0,
        prices_parse(counted_items(true, page)),
        eligible_positions(counted_items(true, page), floor) == Seq::<usize>::empty(),
{
    assert(0int % (page_size as int) == 0);
    assert(0int / (page_size as int) == 0);
}

} // verus!
