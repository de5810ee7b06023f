use vstd::prelude::*;

verus! {

/// Identifier of an account on the host ledger.
pub type AccountId = u64;

/// A quantity of funds.
pub type Balance = u128;

/// The host's block counter, used as the clock.
pub type BlockNumber = u64;

/// Dense index of a registered trader.
pub type BazaarTraderIndex = u128;

/// Dense index of a trade.
pub type BazaarTradeIndex = u128;

/// A registered trader's profile.
#[derive(Debug, PartialEq, Eq)]
pub struct BazaarTraderInfo {
    pub name: Vec<u8>,
    pub headline: Vec<u8>,
    pub country: u8,
    pub method: Vec<u8>,
    /// Price at which the trader sells.
    pub ask_price: u128,
    pub ask_limit: Balance,
    /// Price at which the trader buys.
    pub bid_price: u128,
    pub bid_limit: Balance,
    /// The account the profile belongs to.
    pub account: AccountId,
    pub created: BlockNumber,
}

/// One escrow-secured trade. The seller is named by trader index, the buyer
/// by account.
#[derive(Clone, Copy, Debug, PartialEq, Eq, Structural)]
pub struct BazaarTradeInfo {
    pub price: u128,
    /// The escrowed principal.
    pub amount: Balance,
    pub buyer: AccountId,
    pub seller: BazaarTraderIndex,
    /// Set once the seller has funded the escrow.
    pub escrowed: bool,
    /// Set once the buyer has confirmed receipt and been paid out.
    pub received: bool,
    pub initiated: bool,
    /// Set once the seller has reclaimed the escrow.
    pub cancelled: bool,
    pub created: BlockNumber,
}

/// Why an operation was refused.
#[derive(Clone, Copy, Debug, PartialEq, Eq, Structural)]
pub enum Error {
    AlreadyTrader,
    NotAuthorisedAsTrader,
    NotBuyer,
    NotSeller,
    TradeAlreadyCompleted,
    TradeAlreadyEscrowed,
    TradeNotEscrowed,
    TradeLessThanOneDay,
    /// The trade was cancelled and its escrow returned to the seller.
    TradeCancelled,
    /// No trade has the given index.
    NoSuchTrade,
    /// The ledger declined the fund movement.
    TransferFailure,
    /// The operation exists but has no behaviour yet.
    NotImplemented,
}

/// What a successful operation announces.
#[derive(Clone, Copy, Debug, PartialEq, Eq, Structural)]
pub enum Event {
    /// Buyer, seller, amount.
    InitiatedBuy(AccountId, BazaarTraderIndex, Balance),
}

/// A movement of funds that an operation asks the ledger to make.
#[derive(Clone, Copy, Debug, PartialEq, Eq, Structural)]
pub struct Transfer {
    pub from: AccountId,
    pub to: AccountId,
    pub amount: Balance,
}

/// The trade holds funds in escrow: funded, and neither paid out nor refunded.
pub open spec fn is_held(t: BazaarTradeInfo) -> bool {
    t.escrowed && !t.received && !t.cancelled
}

/// What one trade contributes to the funds held in escrow.
pub open spec fn held_amount(t: BazaarTradeInfo) -> int {
    if is_held(t) {
        t.amount as int
    } else {
        0
    }
}

/// The sum of the amounts of the trades that hold funds in escrow.
pub open spec fn escrowed_total(ts: Seq<BazaarTradeInfo>) -> int
    decreases ts.len(),
{
    if ts.len() == 0 {
        0
    } else {
        escrowed_total(ts.drop_last()) + held_amount(ts.last())
    }
}

/// Appending a trade adds its contribution.
pub proof fn lemma_escrowed_total_push(ts: Seq<BazaarTradeInfo>, t: BazaarTradeInfo)
    ensures
        escrowed_total(ts.push(t)) == escrowed_total(ts) + held_amount(t),
{
    assert(ts.push(t).drop_last() =~= ts);
}

/// Replacing one trade swaps its contribution for that of the new record.
pub proof fn lemma_escrowed_total_update(ts: Seq<BazaarTradeInfo>, i: int, t: BazaarTradeInfo)
    requires
        0 <= i < ts.len(),
    ensures
        escrowed_total(ts.update(i, t)) == escrowed_total(ts) - held_amount(ts[i]) + held_amount(t),
    decreases ts.len(),
{
    if i == ts.len() - 1 {
        assert(ts.update(i, t).drop_last() =~= ts.drop_last());
    } else {
        lemma_escrowed_total_update(ts.drop_last(), i, t);
        assert(ts.update(i, t).drop_last() =~= ts.drop_last().update(i, t));
    }
}

/// The escrowed total is never negative.
pub proof fn lemma_escrowed_total_nonneg(ts: Seq<BazaarTradeInfo>)
    ensures
        escrowed_total(ts) >= 0,
    decreases ts.len(),
{
    if ts.len() > 0 {
        lemma_escrowed_total_nonneg(ts.drop_last());
    }
}

/// The trade is still open: neither paid out nor refunded.
pub open spec fn is_open(t: BazaarTradeInfo) -> bool {
    !t.received && !t.cancelled
}

/// Whether the trade is an open trade of `seller`, as a count.
pub open spec fn open_of(t: BazaarTradeInfo, seller: BazaarTraderIndex) -> int {
    if t.seller == seller && is_open(t) {
        1
    } else {
        0
    }
}

/// The number of open trades of `seller`.
pub open spec fn open_trades(ts: Seq<BazaarTradeInfo>, seller: BazaarTraderIndex) -> int
    decreases ts.len(),
{
    if ts.len() == 0 {
        0
    } else {
        open_trades(ts.drop_last(), seller) + open_of(ts.last(), seller)
    }
}

/// There are no more open trades than trades.
pub proof fn lemma_open_trades_bound(ts: Seq<BazaarTradeInfo>, seller: BazaarTraderIndex)
    ensures
        0 <= open_trades(ts, seller) <= ts.len(),
    decreases ts.len(),
{
    if ts.len() > 0 {
        lemma_open_trades_bound(ts.drop_last(), seller);
    }
}

/// Appending a trade adds its count.
pub proof fn lemma_open_trades_push(ts: Seq<BazaarTradeInfo>, t: BazaarTradeInfo, seller: BazaarTraderIndex)
    ensures
        open_trades(ts.push(t), seller) == open_trades(ts, seller) + open_of(t, seller),
{
    assert(ts.push(t).drop_last() =~= ts);
}

/// Replacing one trade swaps its count for that of the new record.
pub proof fn lemma_open_trades_update(
    ts: Seq<BazaarTradeInfo>,
    i: int,
    t: BazaarTradeInfo,
    seller: BazaarTraderIndex,
)
    requires
        0 <= i < ts.len(),
    ensures
        open_trades(ts.update(i, t), seller) == open_trades(ts, seller) - open_of(ts[i], seller)
            + open_of(t, seller),
    decreases ts.len(),
{
    if i == ts.len() - 1 {
        assert(ts.update(i, t).drop_last() =~= ts.drop_last());
    } else {
        lemma_open_trades_update(ts.drop_last(), i, t, seller);
        assert(ts.update(i, t).drop_last() =~= ts.drop_last().update(i, t));
    }
}

} // verus!
