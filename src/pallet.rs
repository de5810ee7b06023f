use vstd::prelude::*;
use crate::escrow::{derived_account, module_account, PALLET_ID};
use crate::types::{
    escrowed_total, held_amount, lemma_escrowed_total_push, lemma_escrowed_total_update,
    lemma_open_trades_bound, lemma_open_trades_push, lemma_open_trades_update, open_of,
    open_trades, AccountId, Balance, BazaarTradeIndex, BazaarTradeInfo, BazaarTraderIndex,
    BazaarTraderInfo, BlockNumber, Error, Event, Transfer,
};

verus! {

/// Blocks that must pass after a trade's creation before its seller may
/// reclaim the escrow: one day at the nominal block interval.
pub const ESCROW_HOLD: u64 = 14400;

/// The host services the module runs against: the ledger that holds and moves
/// balances. Nothing is assumed of how a transfer turns out; every operation
/// states what holds whatever it answers.
pub trait Trait {
    /// The free balance of `who` in this ledger's state.
    spec fn balance_of(&self, who: AccountId) -> Balance;

    /// Move `amount` from `from` to `to`, letting either account be reaped.
    fn transfer(&mut self, from: AccountId, to: AccountId, amount: Balance) -> Result<(), ()>;

    /// The free balance of `who`.
    fn free_balance(&self, who: AccountId) -> (r: Balance)
        ensures
            r == self.balance_of(who),
    ;
}

/// The account that holds all escrowed funds.
pub open spec fn escrow_account() -> AccountId {
    derived_account(PALLET_ID@) as AccountId
}

/// No two profiles belong to one account.
pub open spec fn accounts_unique(ps: Seq<BazaarTraderInfo>) -> bool {
    forall|i: int, j: int|
        0 <= i < ps.len() && 0 <= j < ps.len() && #[trigger] ps[i].account == #[trigger] ps[j].account
            ==> i == j
}

/// `who` is registered, under trader index `i`.
pub open spec fn has_index(ps: Seq<BazaarTraderInfo>, who: AccountId, i: int) -> bool {
    0 <= i < ps.len() && ps[i].account == who
}

/// `who` is a registered trader.
pub open spec fn is_trader(ps: Seq<BazaarTraderInfo>, who: AccountId) -> bool {
    exists|i: int| #[trigger] has_index(ps, who, i)
}

/// A trade record that the state machine can reach: created initiated; paid
/// out or refunded only after escrow; never both.
pub open spec fn trade_wf(t: BazaarTradeInfo) -> bool {
    &&& t.initiated
    &&& t.received ==> t.escrowed
    &&& t.cancelled ==> t.escrowed
    &&& !(t.received && t.cancelled)
}

/// Every trade is reachable.
pub open spec fn trades_wf(ts: Seq<BazaarTradeInfo>) -> bool {
    forall|i: int| 0 <= i < ts.len() ==> trade_wf(#[trigger] ts[i])
}

/// A registration handed `caller` trader index `i`: the count before, which
/// grew by one, with every earlier profile kept under its index.
pub open spec fn registers(
    before: Seq<BazaarTraderInfo>,
    after: Seq<BazaarTraderInfo>,
    caller: AccountId,
    i: int,
) -> bool {
    &&& i == before.len()
    &&& after.len() == before.len() + 1
    &&& after.subrange(0, i) == before
    &&& after[i].account == caller
}

/// A new trade received index `i`: the count before, which grew by one, with
/// every earlier trade kept under its index.
pub open spec fn opens(before: Seq<BazaarTradeInfo>, after: Seq<BazaarTradeInfo>, i: int) -> bool {
    &&& i == before.len()
    &&& after.len() == before.len() + 1
    &&& after.subrange(0, i) == before
}

/// The profile with a new headline and payment method.
pub open spec fn with_profile(p: BazaarTraderInfo, headline: Vec<u8>, method: Vec<u8>) -> BazaarTraderInfo {
    BazaarTraderInfo { headline, method, ..p }
}

/// The profile with new prices and limits.
pub open spec fn with_limits(
    p: BazaarTraderInfo,
    ask_price: u128,
    ask_limit: Balance,
    bid_price: u128,
    bid_limit: Balance,
) -> BazaarTraderInfo {
    BazaarTraderInfo { ask_price, ask_limit, bid_price, bid_limit, ..p }
}

/// What `escrow_coin` asks of the ledger, or why it refuses.
pub open spec fn escrow_coin_outcome(
    ps: Seq<BazaarTraderInfo>,
    ts: Seq<BazaarTradeInfo>,
    caller: AccountId,
    id: int,
) -> Result<Transfer, Error> {
    if !(0 <= id < ts.len()) {
        Err(Error::NoSuchTrade)
    } else if !has_index(ps, caller, ts[id].seller as int) {
        Err(Error::NotSeller)
    } else if ts[id].escrowed {
        Err(Error::TradeAlreadyEscrowed)
    } else if ts[id].received {
        Err(Error::TradeAlreadyCompleted)
    } else {
        Ok(Transfer { from: caller, to: escrow_account(), amount: ts[id].amount })
    }
}

/// What `cancel_escrow` asks of the ledger at block `now`, or why it refuses.
pub open spec fn cancel_escrow_outcome(
    ps: Seq<BazaarTraderInfo>,
    ts: Seq<BazaarTradeInfo>,
    caller: AccountId,
    id: int,
    now: BlockNumber,
) -> Result<Transfer, Error> {
    if !(0 <= id < ts.len()) {
        Err(Error::NoSuchTrade)
    } else if !has_index(ps, caller, ts[id].seller as int) {
        Err(Error::NotSeller)
    } else if !ts[id].escrowed {
        Err(Error::TradeNotEscrowed)
    } else if ts[id].received {
        Err(Error::TradeAlreadyCompleted)
    } else if ts[id].cancelled {
        Err(Error::TradeCancelled)
    } else if now as int - ts[id].created as int <= ESCROW_HOLD as int {
        Err(Error::TradeLessThanOneDay)
    } else {
        Ok(Transfer { from: escrow_account(), to: caller, amount: ts[id].amount })
    }
}

/// What `confirm_received` asks of the ledger, or why it refuses.
pub open spec fn confirm_received_outcome(
    ts: Seq<BazaarTradeInfo>,
    caller: AccountId,
    id: int,
) -> Result<Transfer, Error> {
    if !(0 <= id < ts.len()) {
        Err(Error::NoSuchTrade)
    } else if caller != ts[id].buyer {
        Err(Error::NotBuyer)
    } else if !ts[id].escrowed {
        Err(Error::TradeNotEscrowed)
    } else if ts[id].received {
        Err(Error::TradeAlreadyCompleted)
    } else if ts[id].cancelled {
        Err(Error::TradeCancelled)
    } else {
        Ok(Transfer { from: escrow_account(), to: caller, amount: ts[id].amount })
    }
}

/// The trades once trade `id` is funded.
pub open spec fn escrowed_at(ts: Seq<BazaarTradeInfo>, id: int) -> Seq<BazaarTradeInfo> {
    ts.update(id, BazaarTradeInfo { escrowed: true, ..ts[id] })
}

/// The trades once trade `id` is refunded to its seller.
pub open spec fn cancelled_at(ts: Seq<BazaarTradeInfo>, id: int) -> Seq<BazaarTradeInfo> {
    ts.update(id, BazaarTradeInfo { cancelled: true, ..ts[id] })
}

/// The trades once trade `id` is paid out to its buyer.
pub open spec fn received_at(ts: Seq<BazaarTradeInfo>, id: int) -> Seq<BazaarTradeInfo> {
    ts.update(id, BazaarTradeInfo { received: true, ..ts[id] })
}

/// The registry of traders and the ledger of trades.
pub struct Module {
    traders: Vec<BazaarTraderInfo>,
    trades: Vec<BazaarTradeInfo>,
}

impl Module {
    /// The profiles, each at its trader index.
    pub closed spec fn traders_view(&self) -> Seq<BazaarTraderInfo> {
        self.traders@
    }

    /// The trades, each at its trade index.
    pub closed spec fn trades_view(&self) -> Seq<BazaarTradeInfo> {
        self.trades@
    }

    pub open spec fn wf(&self) -> bool {
        &&& accounts_unique(self.traders_view())
        &&& trades_wf(self.trades_view())
    }

    /// A module with no traders and no trades.
    pub fn new() -> (r: Module)
        ensures
            r.wf(),
            r.traders_view() == Seq::<BazaarTraderInfo>::empty(),
            r.trades_view() == Seq::<BazaarTradeInfo>::empty(),
    {
        Module { traders: Vec::new(), trades: Vec::new() }
    }

    /// The account that holds all escrowed funds.
    pub fn account_id() -> (r: AccountId)
        ensures
            r == escrow_account(),
    {
        module_account(PALLET_ID)
    }

    /// The free balance of the escrow account.
    pub fn balanace<L: Trait>(ledger: &L) -> (r: Balance)
        ensures
            r == ledger.balance_of(escrow_account()),
    {
        ledger.free_balance(Self::account_id())
    }

    /// The number of registered traders, which is the next trader index.
    pub fn bazaar_trader_count(&self) -> (r: BazaarTraderIndex)
        ensures
            r == self.traders_view().len(),
    {
        self.traders.len() as u128
    }

    /// The number of trades, which is the next trade index.
    pub fn bazaar_trade_count(&self) -> (r: BazaarTradeIndex)
        ensures
            r == self.trades_view().len(),
    {
        self.trades.len() as u128
    }

    /// The position of `who`'s profile.
    fn find_trader(&self, who: AccountId) -> (r: Option<usize>)
        ensures
            match r {
                Some(i) => has_index(self.traders_view(), who, i as int),
                None => !is_trader(self.traders_view(), who),
            },
    {
        let mut i: usize = 0;
        while i < self.traders.len()
            invariant
                i <= self.traders@.len(),
                forall|j: int| 0 <= j < i ==> self.traders@[j].account != who,
            decreases self.traders@.len() - i,
        {
            if self.traders[i].account == who {
                return Some(i);
            }
            i = i + 1;
        }
        proof {
            assert forall|j: int| !has_index(self.traders_view(), who, j) by {
                if 0 <= j < self.traders@.len() {
                    assert(self.traders@[j].account != who);
                }
            }
        }
        None
    }

    /// The trader index of `who`, if registered.
    pub fn bazaar_traders(&self, who: AccountId) -> (r: Option<BazaarTraderIndex>)
        ensures
            match r {
                Some(i) => has_index(self.traders_view(), who, i as int),
                None => !is_trader(self.traders_view(), who),
            },
    {
        match self.find_trader(who) {
            Some(i) => Some(i as u128),
            None => None,
        }
    }

    /// The profile of `who`, if registered.
    pub fn bazaar_trader_info(&self, who: AccountId) -> (r: Option<&BazaarTraderInfo>)
        ensures
            match r {
                Some(p) => exists|i: int|
                    has_index(self.traders_view(), who, i) && *p == #[trigger] self.traders_view()[i],
                None => !is_trader(self.traders_view(), who),
            },
    {
        match self.find_trader(who) {
            Some(i) => Some(&self.traders[i]),
            None => None,
        }
    }

    /// The number of open trades, neither paid out nor refunded, in which the
    /// trader under index `seller` sells.
    pub fn bazaar_trade_count_by_trader(&self, seller: BazaarTraderIndex) -> (r: BazaarTradeIndex)
        ensures
            r == open_trades(self.trades_view(), seller),
    {
        let mut count: u128 = 0;
        let mut i: usize = 0;
        while i < self.trades.len()
            invariant
                i <= self.trades@.len(),
                count == open_trades(self.trades@.subrange(0, i as int), seller),
            decreases self.trades@.len() - i,
        {
            let t = self.trades[i];
            proof {
                let prefix = self.trades@.subrange(0, i as int + 1);
                assert(prefix.drop_last() =~= self.trades@.subrange(0, i as int));
                lemma_open_trades_bound(prefix, seller);
            }
            if t.seller == seller && !t.received && !t.cancelled {
                count = count + 1;
            }
            i = i + 1;
        }
        proof {
            assert(self.trades@.subrange(0, self.trades@.len() as int) =~= self.trades@);
        }
        count
    }

    /// The trade under index `id`, if any.
    pub fn bazaar_trade(&self, id: BazaarTradeIndex) -> (r: Option<BazaarTradeInfo>)
        ensures
            id < self.trades_view().len() ==> r == Some(self.trades_view()[id as int]),
            id >= self.trades_view().len() ==> r is None,
    {
        if id < self.trades.len() as u128 {
            Some(self.trades[id as usize])
        } else {
            None
        }
    }
    /// Registers `caller` as a trader with the given profile, created at block
    /// `now`, under the next trader index.
    pub fn register_trader(
        &mut self,
        caller: AccountId,
        name: Vec<u8>,
        headline: Vec<u8>,
        country: u8,
        method: Vec<u8>,
        ask_price: u128,
        ask_limit: Balance,
        bid_price: u128,
        bid_limit: Balance,
        now: BlockNumber,
    ) -> (r: Result<BazaarTraderIndex, Error>)
        requires
            old(self).wf(),
        ensures
            final(self).wf(),
            final(self).trades_view() == old(self).trades_view(),
            r matches Ok(i) ==> registers(old(self).traders_view(), final(self).traders_view(), caller, i as int),
            is_trader(old(self).traders_view(), caller) ==> r == Err::<BazaarTraderIndex, Error>(
                Error::AlreadyTrader,
            ) && final(self).traders_view() == old(self).traders_view(),
            !is_trader(old(self).traders_view(), caller) ==> r == Ok::<BazaarTraderIndex, Error>(
                old(self).traders_view().len() as u128,
            ) && has_index(final(self).traders_view(), caller, old(self).traders_view().len() as int)
                && final(self).traders_view() == old(self).traders_view().push(
                (BazaarTraderInfo {
                    name,
                    headline,
                    country,
                    method,
                    ask_price,
                    ask_limit,
                    bid_price,
                    bid_limit,
                    account: caller,
                    created: now,
                }),
            ),
    {
        if self.find_trader(caller).is_some() {
            return Err(Error::AlreadyTrader);
        }
        let index = self.traders.len() as u128;
        self.traders.push(
            BazaarTraderInfo {
                name,
                headline,
                country,
                method,
                ask_price,
                ask_limit,
                bid_price,
                bid_limit,
                account: caller,
                created: now,
            },
        );
        proof {
            let ps = self.traders@;
            assert forall|i: int, j: int|
                0 <= i < ps.len() && 0 <= j < ps.len() && #[trigger] ps[i].account
                    == #[trigger] ps[j].account implies i == j by {
                if i < ps.len() - 1 && j == ps.len() - 1 {
                    assert(has_index(old(self).traders@, caller, i));
                } else if j < ps.len() - 1 && i == ps.len() - 1 {
                    assert(has_index(old(self).traders@, caller, j));
                }
            }
        }
        proof {
            assert(self.traders@.subrange(0, index as int) =~= old(self).traders@);
        }
        Ok(index)
    }

    /// Replaces the headline and payment method of `caller`'s profile.
    pub fn update_trader(&mut self, caller: AccountId, headline: Vec<u8>, method: Vec<u8>) -> (r:
        Result<(), Error>)
        requires
            old(self).wf(),
        ensures
            final(self).wf(),
            final(self).trades_view() == old(self).trades_view(),
            !is_trader(old(self).traders_view(), caller) ==> r == Err::<(), Error>(
                Error::NotAuthorisedAsTrader,
            ) && final(self).traders_view() == old(self).traders_view(),
            is_trader(old(self).traders_view(), caller) ==> r is Ok && exists|i: int|
                #[trigger] has_index(old(self).traders_view(), caller, i)
                    && final(self).traders_view() == old(self).traders_view().update(
                    i,
                    with_profile(old(self).traders_view()[i], headline, method),
                ),
    {
        match self.find_trader(caller) {
            None => Err(Error::NotAuthorisedAsTrader),
            Some(i) => {
                let p = &mut self.traders[i];
                p.headline = headline;
                p.method = method;
                proof {
                    assert(self.traders@ =~= old(self).traders@.update(
                        i as int,
                        with_profile(old(self).traders@[i as int], headline, method),
                    ));
                }
                Ok(())
            },
        }
    }

    /// Replaces the four pricing fields of `caller`'s profile.
    pub fn update_trader_limit(
        &mut self,
        caller: AccountId,
        ask_price: u128,
        ask_limit: Balance,
        bid_price: u128,
        bid_limit: Balance,
    ) -> (r: Result<(), Error>)
        requires
            old(self).wf(),
        ensures
            final(self).wf(),
            final(self).trades_view() == old(self).trades_view(),
            !is_trader(old(self).traders_view(), caller) ==> r == Err::<(), Error>(
                Error::NotAuthorisedAsTrader,
            ) && final(self).traders_view() == old(self).traders_view(),
            is_trader(old(self).traders_view(), caller) ==> r is Ok && exists|i: int|
                #[trigger] has_index(old(self).traders_view(), caller, i)
                    && final(self).traders_view() == old(self).traders_view().update(
                    i,
                    with_limits(old(self).traders_view()[i], ask_price, ask_limit, bid_price, bid_limit),
                ),
    {
        match self.find_trader(caller) {
            None => Err(Error::NotAuthorisedAsTrader),
            Some(i) => {
                let p = &mut self.traders[i];
                p.ask_price = ask_price;
                p.ask_limit = ask_limit;
                p.bid_price = bid_price;
                p.bid_limit = bid_limit;
                proof {
                    assert(self.traders@ =~= old(self).traders@.update(
                        i as int,
                        with_limits(old(self).traders@[i as int], ask_price, ask_limit, bid_price, bid_limit),
                    ));
                }
                Ok(())
            },
        }
    }

    /// Opens a trade in which `caller` buys `amount` at `price` from the trader
    /// under index `seller`, created at block `now`, under the next trade index.
    pub fn initiate_buy(
        &mut self,
        caller: AccountId,
        price: u128,
        amount: Balance,
        seller: BazaarTraderIndex,
        now: BlockNumber,
    ) -> (r: (BazaarTradeIndex, Event))
        requires
            old(self).wf(),
        ensures
            final(self).wf(),
            final(self).traders_view() == old(self).traders_view(),
            r.0 == old(self).trades_view().len(),
            opens(old(self).trades_view(), final(self).trades_view(), r.0 as int),
            r.1 == Event::InitiatedBuy(caller, seller, amount),
            final(self).trades_view() == old(self).trades_view().push(
                (BazaarTradeInfo {
                    price,
                    amount,
                    buyer: caller,
                    seller,
                    escrowed: false,
                    received: false,
                    initiated: true,
                    cancelled: false,
                    created: now,
                }),
            ),
            escrowed_total(final(self).trades_view()) == escrowed_total(old(self).trades_view()),
            forall|s: BazaarTraderIndex|
                #[trigger] open_trades(final(self).trades_view(), s) == open_trades(
                    old(self).trades_view(),
                    s,
                ) + if s == seller {
                    1int
                } else {
                    0int
                },
    {
        let index = self.trades.len() as u128;
        let trade = BazaarTradeInfo {
            price,
            amount,
            buyer: caller,
            seller,
            escrowed: false,
            received: false,
            initiated: true,
            cancelled: false,
            created: now,
        };
        self.trades.push(trade);
        proof {
            lemma_escrowed_total_push(old(self).trades@, trade);
            assert forall|s: BazaarTraderIndex|
                #[trigger] open_trades(self.trades@, s) == open_trades(old(self).trades@, s) + if s
                    == seller {
                    1int
                } else {
                    0int
                } by {
                lemma_open_trades_push(old(self).trades@, trade, s);
            }
        }
        proof {
            assert(self.trades@.subrange(0, index as int) =~= old(self).trades@);
        }
        (index, Event::InitiatedBuy(caller, seller, amount))
    }

    /// Whether `caller` is registered under trader index `seller`.
    fn is_seller(&self, caller: AccountId, seller: BazaarTraderIndex) -> (r: bool)
        ensures
            r == has_index(self.traders_view(), caller, seller as int),
    {
        seller < self.traders.len() as u128 && self.traders[seller as usize].account == caller
    }

    /// The transfer that funds the escrow of trade `id` from `caller`, or why
    /// `caller` may not fund it.
    pub fn validate_escrow_coin(&self, caller: AccountId, id: BazaarTradeIndex) -> (r: Result<
        Transfer,
        Error,
    >)
        ensures
            r == escrow_coin_outcome(self.traders_view(), self.trades_view(), caller, id as int),
    {
        if id >= self.trades.len() as u128 {
            return Err(Error::NoSuchTrade);
        }
        let t = self.trades[id as usize];
        if !self.is_seller(caller, t.seller) {
            Err(Error::NotSeller)
        } else if t.escrowed {
            Err(Error::TradeAlreadyEscrowed)
        } else if t.received {
            Err(Error::TradeAlreadyCompleted)
        } else {
            Ok(Transfer { from: caller, to: Self::account_id(), amount: t.amount })
        }
    }

    /// The transfer that returns the escrow of trade `id` to `caller` at block
    /// `now`, or why `caller` may not reclaim it.
    pub fn validate_cancel_escrow(&self, caller: AccountId, id: BazaarTradeIndex, now: BlockNumber) -> (r:
        Result<Transfer, Error>)
        ensures
            r == cancel_escrow_outcome(self.traders_view(), self.trades_view(), caller, id as int, now),
    {
        if id >= self.trades.len() as u128 {
            return Err(Error::NoSuchTrade);
        }
        let t = self.trades[id as usize];
        if !self.is_seller(caller, t.seller) {
            Err(Error::NotSeller)
        } else if !t.escrowed {
            Err(Error::TradeNotEscrowed)
        } else if t.received {
            Err(Error::TradeAlreadyCompleted)
        } else if t.cancelled {
            Err(Error::TradeCancelled)
        } else if now <= t.created || now - t.created <= ESCROW_HOLD {
            Err(Error::TradeLessThanOneDay)
        } else {
            Ok(Transfer { from: Self::account_id(), to: caller, amount: t.amount })
        }
    }

    /// The transfer that pays the escrow of trade `id` out to `caller`, or why
    /// `caller` may not confirm it.
    pub fn validate_confirm_received(&self, caller: AccountId, id: BazaarTradeIndex) -> (r: Result<
        Transfer,
        Error,
    >)
        ensures
            r == confirm_received_outcome(self.trades_view(), caller, id as int),
    {
        if id >= self.trades.len() as u128 {
            return Err(Error::NoSuchTrade);
        }
        let t = self.trades[id as usize];
        if caller != t.buyer {
            Err(Error::NotBuyer)
        } else if !t.escrowed {
            Err(Error::TradeNotEscrowed)
        } else if t.received {
            Err(Error::TradeAlreadyCompleted)
        } else if t.cancelled {
            Err(Error::TradeCancelled)
        } else {
            Ok(Transfer { from: Self::account_id(), to: caller, amount: t.amount })
        }
    }

    /// Records the ledger's answer to the funding transfer of trade `id`: on
    /// success the trade is escrowed, on failure nothing changes.
    pub fn apply_escrow_coin(&mut self, id: BazaarTradeIndex, transferred: Result<(), ()>) -> (r:
        Result<(), Error>)
        requires
            old(self).wf(),
            id < old(self).trades_view().len(),
            !old(self).trades_view()[id as int].escrowed,
        ensures
            final(self).wf(),
            final(self).traders_view() == old(self).traders_view(),
            transferred is Ok ==> r is Ok && final(self).trades_view() == escrowed_at(
                old(self).trades_view(),
                id as int,
            ) && escrowed_total(final(self).trades_view()) == escrowed_total(
                old(self).trades_view(),
            ) + old(self).trades_view()[id as int].amount,
            transferred is Err ==> r == Err::<(), Error>(Error::TransferFailure)
                && final(self).trades_view() == old(self).trades_view(),
            forall|s: BazaarTraderIndex|
                #[trigger] open_trades(final(self).trades_view(), s) == open_trades(
                    old(self).trades_view(),
                    s,
                ),
    {
        if transferred.is_err() {
            return Err(Error::TransferFailure);
        }
        let len = self.trades.len();
        assert(id < len as u128);
        let i = id as usize;
        let t = self.trades[i];
        let t2 = BazaarTradeInfo { escrowed: true, ..t };
        self.trades.set(i, t2);
        proof {
            assert(self.trades@ =~= escrowed_at(old(self).trades@, id as int));
            assert(trade_wf(self.trades@[id as int]));
            assert forall|j: int| 0 <= j < self.trades@.len() implies trade_wf(
                #[trigger] self.trades@[j],
            ) by {
                if j != id as int {
                    assert(self.trades@[j] == old(self).trades@[j]);
                }
            }
            assert forall|s: BazaarTraderIndex| true implies #[trigger] open_trades(self.trades@, s)
                == open_trades(old(self).trades@, s) - open_of(old(self).trades@[id as int], s)
                + open_of(t2, s) by {
                lemma_open_trades_update(old(self).trades@, id as int, t2, s);
            }
            lemma_escrowed_total_update(old(self).trades@, id as int, t2);
        }
        Ok(())
    }

    /// Records the ledger's answer to the refund of trade `id`: on success the
    /// trade is cancelled, on failure nothing changes.
    pub fn apply_cancel_escrow(&mut self, id: BazaarTradeIndex, transferred: Result<(), ()>) -> (r:
        Result<(), Error>)
        requires
            old(self).wf(),
            id < old(self).trades_view().len(),
            old(self).trades_view()[id as int].escrowed,
            !old(self).trades_view()[id as int].received,
            !old(self).trades_view()[id as int].cancelled,
        ensures
            final(self).wf(),
            final(self).traders_view() == old(self).traders_view(),
            transferred is Ok ==> r is Ok && final(self).trades_view() == cancelled_at(
                old(self).trades_view(),
                id as int,
            ) && escrowed_total(final(self).trades_view()) == escrowed_total(
                old(self).trades_view(),
            ) - held_amount(old(self).trades_view()[id as int]),
            transferred is Err ==> r == Err::<(), Error>(Error::TransferFailure)
                && final(self).trades_view() == old(self).trades_view(),
            transferred is Ok ==> forall|s: BazaarTraderIndex|
                #[trigger] open_trades(final(self).trades_view(), s) == open_trades(
                    old(self).trades_view(),
                    s,
                ) - if s == old(self).trades_view()[id as int].seller {
                    1int
                } else {
                    0int
                },
    {
        if transferred.is_err() {
            return Err(Error::TransferFailure);
        }
        let len = self.trades.len();
        assert(id < len as u128);
        let i = id as usize;
        let t = self.trades[i];
        let t2 = BazaarTradeInfo { cancelled: true, ..t };
        self.trades.set(i, t2);
        proof {
            assert(self.trades@ =~= cancelled_at(old(self).trades@, id as int));
            assert(trade_wf(self.trades@[id as int]));
            assert forall|j: int| 0 <= j < self.trades@.len() implies trade_wf(
                #[trigger] self.trades@[j],
            ) by {
                if j != id as int {
                    assert(self.trades@[j] == old(self).trades@[j]);
                }
            }
            assert forall|s: BazaarTraderIndex| true implies #[trigger] open_trades(self.trades@, s)
                == open_trades(old(self).trades@, s) - open_of(old(self).trades@[id as int], s)
                + open_of(t2, s) by {
                lemma_open_trades_update(old(self).trades@, id as int, t2, s);
            }
            lemma_escrowed_total_update(old(self).trades@, id as int, t2);
        }
        Ok(())
    }

    /// Records the ledger's answer to the payout of trade `id`: on success the
    /// trade is completed, on failure nothing changes.
    pub fn apply_confirm_received(&mut self, id: BazaarTradeIndex, transferred: Result<(), ()>) -> (r:
        Result<(), Error>)
        requires
            old(self).wf(),
            id < old(self).trades_view().len(),
            old(self).trades_view()[id as int].escrowed,
            !old(self).trades_view()[id as int].received,
            !old(self).trades_view()[id as int].cancelled,
        ensures
            final(self).wf(),
            final(self).traders_view() == old(self).traders_view(),
            transferred is Ok ==> r is Ok && final(self).trades_view() == received_at(
                old(self).trades_view(),
                id as int,
            ) && escrowed_total(final(self).trades_view()) == escrowed_total(
                old(self).trades_view(),
            ) - held_amount(old(self).trades_view()[id as int]),
            transferred is Err ==> r == Err::<(), Error>(Error::TransferFailure)
                && final(self).trades_view() == old(self).trades_view(),
            transferred is Ok ==> forall|s: BazaarTraderIndex|
                #[trigger] open_trades(final(self).trades_view(), s) == open_trades(
                    old(self).trades_view(),
                    s,
                ) - if s == old(self).trades_view()[id as int].seller {
                    1int
                } else {
                    0int
                },
    {
        if transferred.is_err() {
            return Err(Error::TransferFailure);
        }
        let len = self.trades.len();
        assert(id < len as u128);
        let i = id as usize;
        let t = self.trades[i];
        let t2 = BazaarTradeInfo { received: true, ..t };
        self.trades.set(i, t2);
        proof {
            assert(self.trades@ =~= received_at(old(self).trades@, id as int));
            assert(trade_wf(self.trades@[id as int]));
            assert forall|j: int| 0 <= j < self.trades@.len() implies trade_wf(
                #[trigger] self.trades@[j],
            ) by {
                if j != id as int {
                    assert(self.trades@[j] == old(self).trades@[j]);
                }
            }
            assert forall|s: BazaarTraderIndex| true implies #[trigger] open_trades(self.trades@, s)
                == open_trades(old(self).trades@, s) - open_of(old(self).trades@[id as int], s)
                + open_of(t2, s) by {
                lemma_open_trades_update(old(self).trades@, id as int, t2, s);
            }
            lemma_escrowed_total_update(old(self).trades@, id as int, t2);
        }
        Ok(())
    }

    /// `caller`, the seller of trade `id`, funds its escrow through `ledger`.
    /// The trade is marked escrowed only once the ledger has moved the funds.
    pub fn escrow_coin<L: Trait>(&mut self, ledger: &mut L, caller: AccountId, id: BazaarTradeIndex) -> (r:
        Result<(), Error>)
        requires
            old(self).wf(),
        ensures
            final(self).wf(),
            final(self).traders_view() == old(self).traders_view(),
            match escrow_coin_outcome(old(self).traders_view(), old(self).trades_view(), caller, id as int) {
                Err(e) => r == Err::<(), Error>(e) && final(self).trades_view() == old(self).trades_view()
                    && *final(ledger) == *old(ledger),
                Ok(t) => {
                    ||| r is Ok && final(self).trades_view() == escrowed_at(old(self).trades_view(), id as int)
                        && escrowed_total(final(self).trades_view()) == escrowed_total(old(self).trades_view()) + t.amount
                    ||| r == Err::<(), Error>(Error::TransferFailure)
                        && final(self).trades_view() == old(self).trades_view()
                },
            },
    {
        match self.validate_escrow_coin(caller, id) {
            Err(e) => Err(e),
            Ok(t) => {
                let transferred = ledger.transfer(t.from, t.to, t.amount);
                self.apply_escrow_coin(id, transferred)
            },
        }
    }

    /// `caller`, the seller of trade `id`, reclaims its escrow through `ledger`
    /// at block `now`, once the hold has passed. The trade is then cancelled.
    pub fn cancel_escrow<L: Trait>(
        &mut self,
        ledger: &mut L,
        caller: AccountId,
        id: BazaarTradeIndex,
        now: BlockNumber,
    ) -> (r: Result<(), Error>)
        requires
            old(self).wf(),
        ensures
            final(self).wf(),
            final(self).traders_view() == old(self).traders_view(),
            match cancel_escrow_outcome(old(self).traders_view(), old(self).trades_view(), caller, id as int, now) {
                Err(e) => r == Err::<(), Error>(e) && final(self).trades_view() == old(self).trades_view()
                    && *final(ledger) == *old(ledger),
                Ok(t) => {
                    ||| r is Ok && final(self).trades_view() == cancelled_at(old(self).trades_view(), id as int)
                        && escrowed_total(final(self).trades_view()) == escrowed_total(old(self).trades_view()) - t.amount
                        && forall|s: BazaarTraderIndex|
                            #[trigger] open_trades(final(self).trades_view(), s) == open_trades(old(self).trades_view(), s)
                                - if s == old(self).trades_view()[id as int].seller { 1int } else { 0int }
                    ||| r == Err::<(), Error>(Error::TransferFailure)
                        && final(self).trades_view() == old(self).trades_view()
                },
            },
    {
        match self.validate_cancel_escrow(caller, id, now) {
            Err(e) => Err(e),
            Ok(t) => {
                let transferred = ledger.transfer(t.from, t.to, t.amount);
                self.apply_cancel_escrow(id, transferred)
            },
        }
    }

    /// `caller`, the buyer of trade `id`, confirms receipt; the escrow is paid
    /// out to `caller` through `ledger` and the trade is completed.
    pub fn confirm_received<L: Trait>(
        &mut self,
        ledger: &mut L,
        caller: AccountId,
        id: BazaarTradeIndex,
    ) -> (r: Result<(), Error>)
        requires
            old(self).wf(),
        ensures
            final(self).wf(),
            final(self).traders_view() == old(self).traders_view(),
            match confirm_received_outcome(old(self).trades_view(), caller, id as int) {
                Err(e) => r == Err::<(), Error>(e) && final(self).trades_view() == old(self).trades_view()
                    && *final(ledger) == *old(ledger),
                Ok(t) => {
                    ||| r is Ok && final(self).trades_view() == received_at(old(self).trades_view(), id as int)
                        && escrowed_total(final(self).trades_view()) == escrowed_total(old(self).trades_view()) - t.amount
                        && forall|s: BazaarTraderIndex|
                            #[trigger] open_trades(final(self).trades_view(), s) == open_trades(old(self).trades_view(), s)
                                - if s == old(self).trades_view()[id as int].seller { 1int } else { 0int }
                    ||| r == Err::<(), Error>(Error::TransferFailure)
                        && final(self).trades_view() == old(self).trades_view()
                },
            },
    {
        match self.validate_confirm_received(caller, id) {
            Err(e) => Err(e),
            Ok(t) => {
                let transferred = ledger.transfer(t.from, t.to, t.amount);
                self.apply_confirm_received(id, transferred)
            },
        }
    }

    /// Opening a dispute is not supported: always refused, with no effect.
    pub fn open_dispute(&self, caller: AccountId, id: BazaarTradeIndex) -> (r: Result<(), Error>)
        ensures
            r == Err::<(), Error>(Error::NotImplemented),
    {
        Err(Error::NotImplemented)
    }

    /// Closing a dispute is not supported: always refused, with no effect.
    pub fn close_dispute(
        &self,
        caller: AccountId,
        id: BazaarTradeIndex,
        buyer_portion: u8,
        seller_portion: u8,
    ) -> (r: Result<(), Error>)
        ensures
            r == Err::<(), Error>(Error::NotImplemented),
    {
        Err(Error::NotImplemented)
    }
}

} // verus!
