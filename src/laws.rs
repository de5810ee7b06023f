use vstd::prelude::*;
use crate::pallet::{
    cancel_escrow_outcome, cancelled_at, confirm_received_outcome, escrow_account,
    escrow_coin_outcome, escrowed_at, has_index, opens, received_at, registers, trades_wf, Module,
    ESCROW_HOLD,
};
use crate::types::{
    escrowed_total, lemma_escrowed_total_update, AccountId, BazaarTradeInfo, BazaarTraderInfo,
    BlockNumber, Error, Transfer,
};

verus! {

/// An account holds at most one profile: in a well-formed module it is
/// registered under at most one trader index.
pub proof fn lemma_one_profile_per_account(m: Module, who: AccountId, i: int, j: int)
    requires
        m.wf(),
        has_index(m.traders_view(), who, i),
        has_index(m.traders_view(), who, j),
    ensures
        i == j,
{
    assert(m.traders_view()[i].account == m.traders_view()[j].account);
}

/// Indices are handed out in increasing order and never reused: of two
/// successive registrations, the second receives the next index, and the
/// first account keeps its own; likewise for two successive trades.
pub proof fn lemma_indices_fresh(
    m0: Module,
    m1: Module,
    m2: Module,
    a: AccountId,
    b: AccountId,
    i: int,
    j: int,
    k: int,
    l: int,
)
    requires
        registers(m0.traders_view(), m1.traders_view(), a, i),
        registers(m1.traders_view(), m2.traders_view(), b, j),
        opens(m0.trades_view(), m1.trades_view(), k),
        opens(m1.trades_view(), m2.trades_view(), l),
    ensures
        j == i + 1,
        has_index(m2.traders_view(), a, i),
        has_index(m2.traders_view(), b, j),
        l == k + 1,
        m2.trades_view()[k] == m1.trades_view()[k],
{
    assert(m2.traders_view()[i] == m2.traders_view().subrange(0, j)[i]);
    assert(m2.trades_view()[k] == m2.trades_view().subrange(0, l)[k]);
}

/// A trade is paid out to its buyer only once it is escrowed, and being paid
/// out is final: no operation succeeds on a completed trade, and the steps
/// that do succeed never clear the flag.
pub proof fn lemma_received_after_escrow(
    ps: Seq<BazaarTraderInfo>,
    ts: Seq<BazaarTradeInfo>,
    caller: AccountId,
    id: int,
    now: BlockNumber,
)
    requires
        trades_wf(ts),
        0 <= id < ts.len(),
    ensures
        ts[id].received ==> ts[id].escrowed,
        confirm_received_outcome(ts, caller, id) is Ok ==> ts[id].escrowed && !ts[id].received,
        received_at(ts, id)[id].received,
        ts[id].received ==> escrow_coin_outcome(ps, ts, caller, id) is Err
            && cancel_escrow_outcome(ps, ts, caller, id, now) is Err
            && confirm_received_outcome(ts, caller, id) is Err,
        forall|j: int|
            0 <= j < ts.len() ==> #[trigger] escrowed_at(ts, id)[j].received == ts[j].received
                && cancelled_at(ts, id)[j].received == ts[j].received,
{
    assert(trades_wf(ts) ==> ts[id].received ==> ts[id].escrowed);
}

/// A trade is funded at most once: once `escrow_coin` has succeeded, the
/// same call on the updated trades is refused with `TradeAlreadyEscrowed`.
pub proof fn lemma_escrow_once(ps: Seq<BazaarTraderInfo>, ts: Seq<BazaarTradeInfo>, caller: AccountId, id: int)
    requires
        escrow_coin_outcome(ps, ts, caller, id) is Ok,
    ensures
        escrow_coin_outcome(ps, escrowed_at(ts, id), caller, id) == Err::<Transfer, Error>(
            Error::TradeAlreadyEscrowed,
        ),
{
}

/// The seller of a funded trade may reclaim it only once more than
/// `ESCROW_HOLD` blocks have passed since its creation, and then succeeds;
/// after the refund every further attempt is refused with `TradeCancelled`.
pub proof fn lemma_cancel_time_lock(
    ps: Seq<BazaarTraderInfo>,
    ts: Seq<BazaarTradeInfo>,
    caller: AccountId,
    id: int,
    now: BlockNumber,
    later: BlockNumber,
)
    requires
        0 <= id < ts.len(),
        has_index(ps, caller, ts[id].seller as int),
        ts[id].escrowed,
        !ts[id].received,
        !ts[id].cancelled,
    ensures
        now as int - ts[id].created as int <= ESCROW_HOLD as int ==> cancel_escrow_outcome(
            ps,
            ts,
            caller,
            id,
            now,
        ) == Err::<Transfer, Error>(Error::TradeLessThanOneDay),
        now as int - ts[id].created as int > ESCROW_HOLD as int ==> cancel_escrow_outcome(
            ps,
            ts,
            caller,
            id,
            now,
        ) == Ok::<Transfer, Error>(Transfer { from: escrow_account(), to: caller, amount: ts[id].amount }),
        cancel_escrow_outcome(ps, cancelled_at(ts, id), caller, id, later) == Err::<Transfer, Error>(
            Error::TradeCancelled,
        ),
{
}

/// Only the recorded buyer may confirm receipt: any other caller, the seller
/// included, is refused with `NotBuyer`.
pub proof fn lemma_only_buyer_confirms(ts: Seq<BazaarTradeInfo>, caller: AccountId, id: int)
    requires
        0 <= id < ts.len(),
        caller != ts[id].buyer,
    ensures
        confirm_received_outcome(ts, caller, id) == Err::<Transfer, Error>(Error::NotBuyer),
{
}

/// The funds that trades hold in escrow never exceed the escrow account's
/// balance: if `balance` covers them before a successful escrow, cancel or
/// confirm step, the balance after that step's transfer covers them after it.
pub proof fn lemma_escrow_covered(
    ps: Seq<BazaarTraderInfo>,
    ts: Seq<BazaarTradeInfo>,
    caller: AccountId,
    id: int,
    now: BlockNumber,
    balance: int,
)
    requires
        trades_wf(ts),
        escrowed_total(ts) <= balance,
        caller != escrow_account(),
    ensures
        escrow_coin_outcome(ps, ts, caller, id) matches Ok(t) ==> t.to == escrow_account()
            && t.from != escrow_account() && escrowed_total(escrowed_at(ts, id)) <= balance + t.amount,
        cancel_escrow_outcome(ps, ts, caller, id, now) matches Ok(t) ==> t.from == escrow_account()
            && t.to != escrow_account() && escrowed_total(cancelled_at(ts, id)) <= balance - t.amount,
        confirm_received_outcome(ts, caller, id) matches Ok(t) ==> t.from == escrow_account()
            && t.to != escrow_account() && escrowed_total(received_at(ts, id)) <= balance - t.amount,
{
    if 0 <= id < ts.len() {
        lemma_escrowed_total_update(ts, id, BazaarTradeInfo { escrowed: true, ..ts[id] });
        lemma_escrowed_total_update(ts, id, BazaarTradeInfo { cancelled: true, ..ts[id] });
        lemma_escrowed_total_update(ts, id, BazaarTradeInfo { received: true, ..ts[id] });
    }
}

} // verus!
