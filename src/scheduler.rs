//! State that the tick loop carries from one tick to the next.
use vstd::prelude::*;
use crate::pass::{BuyPass, SupplyPass};
use crate::schedule::FloorSchedule;

verus! {

/// Items requested per listing page.
pub const PAGE_SIZE: u64 = 50;

/// Position of the standard floor-price schedule on start-up.
pub const FIRST_FLOOR_INDEX: usize = 1;

/// Which timer fired.
#[derive(Debug, Clone, Copy, PartialEq, Eq, Structural)]
pub enum Tick {
    /// The short timer: check listed supply against the threshold.
    Supply,
    /// The long timer: look for listings at or below the floor price.
    Buy,
}

/// The work one tick performs.
pub enum Pass {
    Supply(SupplyPass),
    Buy(BuyPass),
}

/// Rotation state owned by the loop. The floor-price position moves once per
/// buy tick, whether or not the feed had any listing.
pub struct Scheduler {
    schedule: FloorSchedule,
    account_index: usize,
    page_size: u64,
    threshold: u64,
}

impl Scheduler {
    pub closed spec fn schedule(&self) -> FloorSchedule {
        self.schedule
    }

    pub closed spec fn account_index(&self) -> usize {
        self.account_index
    }

    pub closed spec fn page_size(&self) -> u64 {
        self.page_size
    }

    pub closed spec fn threshold(&self) -> u64 {
        self.threshold
    }

    pub open spec fn wf(&self) -> bool {
        self.schedule().wf() && self.page_size() > 0
    }

    pub fn new(schedule: FloorSchedule, page_size: u64, threshold: u64) -> (r: Scheduler)
        requires
            schedule.wf(),
            page_size > 0,
        ensures
            r.wf(),
            r.schedule() == schedule,
            r.account_index() == 0,
            r.page_size() == page_size,
            r.threshold() == threshold,
    {
        Scheduler { schedule, account_index: 0, page_size, threshold }
    }

    /// The standard schedule of six floor prices, starting at its second
    /// price, with pages of fifty items.
    pub fn standard(threshold: u64) -> (r: Scheduler)
        ensures
            r.wf(),
            r.schedule().prices() == seq![
                123000000u64,
                250000000u64,
                450000000u64,
                200000000u64,
                220000000u64,
                300000000u64,
            ],
            r.schedule().index() == FIRST_FLOOR_INDEX,
            r.account_index() == 0,
            r.page_size() == PAGE_SIZE,
            r.threshold() == threshold,
    {
        let prices: Vec<u64> = vec![
            123000000,
            250000000,
            450000000,
            200000000,
            220000000,
            300000000,
        ];
        assert(prices@ =~= seq![
            123000000u64,
            250000000u64,
            450000000u64,
            200000000u64,
            220000000u64,
            300000000u64,
        ]);
        let schedule = FloorSchedule::new(prices, FIRST_FLOOR_INDEX).unwrap();
        Scheduler::new(schedule, PAGE_SIZE, threshold)
    }

    /// The floor price that the next buy tick will use.
    pub fn floor_price(&self) -> (r: u64)
        requires
            self.wf(),
        ensures
            r == self.schedule().prices()[self.schedule().index() as int],
    {
        self.schedule.current()
    }

    /// Position in the floor-price schedule.
    pub fn floor_index(&self) -> (r: usize)
        ensures
            r == self.schedule().index(),
    {
        self.schedule.position()
    }

    /// Position in the account pool.
    pub fn account_position(&self) -> (r: usize)
        ensures
            r == self.account_index(),
    {
        self.account_index
    }

    /// Starts the work of a tick. A supply tick leaves the state alone; a buy
    /// tick uses the current floor price and moves the schedule one step on.
    pub fn on_tick(&mut self, tick: Tick) -> (r: Pass)
        requires
            old(self).wf(),
        ensures
            final(self).wf(),
            final(self).page_size() == old(self).page_size(),
            final(self).threshold() == old(self).threshold(),
            final(self).account_index() == old(self).account_index(),
            final(self).schedule().prices() == old(self).schedule().prices(),
            tick == Tick::Supply ==> final(self).schedule() == old(self).schedule(),
            tick == Tick::Buy ==> final(self).schedule().index() == (old(self).schedule().index()
                + 1) as int % (old(self).schedule().prices().len() as int),
            match r {
                Pass::Supply(p) => {
                    &&& tick == Tick::Supply
                    &&& p.wf()
                    &&& p.pager().received() == 0
                    &&& p.pager().page_size() == old(self).page_size()
                    &&& p.threshold() == old(self).threshold()
                    &&& p.sum() == 0
                },
                Pass::Buy(p) => {
                    &&& tick == Tick::Buy
                    &&& p.wf()
                    &&& p.pager().received() == 0
                    &&& p.pager().page_size() == old(self).page_size()
                    &&& p.floor() == old(self).schedule().prices()[old(self).schedule().index()
                        as int]
                },
            },
    {
        match tick {
            Tick::Supply => Pass::Supply(SupplyPass::new(self.page_size, self.threshold)),
            Tick::Buy => {
                let floor = self.schedule.current();
                self.schedule.advance();
                Pass::Buy(BuyPass::new(self.page_size, floor))
            },
        }
    }
}

} // verus!
