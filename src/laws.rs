//! Properties of the reservation lifecycle and of the sequencer that hold of
//! every ledger and every sequence of calls, stated over the model that the
//! operations' contracts use.
use vstd::prelude::*;
use crate::broker::{Decision, SequencerEvent, accepts_after, decide};
use crate::model::{
    LedgerView, ledger_wf, has_order, order_index, can_purchase, after_purchase, is_expired,
    after_reclaim, unexpired, lemma_unexpired_from, lemma_unexpired_kept_live,
    lemma_unexpired_keeps, lemma_order_index,
};

verus! {

/// The state and the number of successes after purchase attempts on one
/// order at the given times, one after the other.
pub open spec fn purchase_run(l: LedgerView, order_id: u64, times: Seq<i64>) -> (LedgerView, nat)
    decreases times.len(),
{
    if times.len() == 0 {
        (l, 0)
    } else {
        let next = after_purchase(l, order_id, times[0]);
        let rest = purchase_run(next, order_id, times.drop_first());
        (rest.0, rest.1 + if can_purchase(l.orders, order_id) {
            1nat
        } else {
            0nat
        })
    }
}

/// Once an order is purchased, a purchase of it fails, and leaves the ledger,
/// `purchased_at` included, as it was.
pub proof fn law_purchased_is_final(l: LedgerView, order_id: u64, now: i64)
    requires
        ledger_wf(l),
        has_order(l.orders, order_id),
        l.orders[order_index(l.orders, order_id)].purchased_at is Some,
    ensures
        !can_purchase(l.orders, order_id),
        after_purchase(l, order_id, now) == l,
{
}

/// A successful purchase sets `purchased_at` to its time, and every later
/// purchase of that order fails and changes nothing.
pub proof fn law_second_purchase_fails(l: LedgerView, order_id: u64, first: i64, second: i64)
    requires
        ledger_wf(l),
        can_purchase(l.orders, order_id),
    ensures
        ({
            let l1 = after_purchase(l, order_id, first);
            &&& has_order(l1.orders, order_id)
            &&& order_index(l1.orders, order_id) == order_index(l.orders, order_id)
            &&& l1.orders[order_index(l1.orders, order_id)].purchased_at == Some(first)
            &&& !can_purchase(l1.orders, order_id)
            &&& after_purchase(l1, order_id, second) == l1
        }),
{
    let i = order_index(l.orders, order_id);
    let l1 = after_purchase(l, order_id, first);
    assert forall|a: int, b: int|
        0 <= a < l1.orders.len() && 0 <= b < l1.orders.len() && a != b implies #[trigger] l1.orders[a].id
        != #[trigger] l1.orders[b].id by {
        assert(l1.orders[a].id == l.orders[a].id);
        assert(l1.orders[b].id == l.orders[b].id);
    }
    lemma_order_index(l1.orders, order_id, i);
}

/// A purchase of an order with no user attached fails and leaves the ledger
/// as it was.
pub proof fn law_purchase_needs_user(l: LedgerView, order_id: u64, now: i64)
    requires
        ledger_wf(l),
        has_order(l.orders, order_id),
        l.orders[order_index(l.orders, order_id)].user_id is None,
    ensures
        !can_purchase(l.orders, order_id),
        after_purchase(l, order_id, now) == l,
{
}

/// A reclaim pass at `now` removes an order that is unpurchased and whose
/// hold ended before `now`.
pub proof fn law_reclaim_removes_expired(l: LedgerView, order_id: u64, now: i64)
    requires
        ledger_wf(l),
        has_order(l.orders, order_id),
        is_expired(l.orders[order_index(l.orders, order_id)], now),
    ensures
        !has_order(after_reclaim(l, now).orders, order_id),
{
    let u = unexpired(l.orders, now);
    let i = order_index(l.orders, order_id);
    lemma_unexpired_from(l.orders, now);
    lemma_unexpired_kept_live(l.orders, now);
    if has_order(u, order_id) {
        let k = choose|k: int| 0 <= k < u.len() && #[trigger] u[k].id == order_id;
        let j = choose|j: int| 0 <= j < l.orders.len() && #[trigger] u[k] == l.orders[j];
        assert(l.orders[j].id == order_id);
        lemma_order_index(l.orders, order_id, j);
        assert(!is_expired(u[k], now));
    }
}

/// A purchase and a reclaim pass racing on one order never both succeed: if
/// the purchase lands first, the order survives the pass; if the pass lands
/// first and the hold had ended, the purchase fails.
pub proof fn law_purchase_reclaim_race(
    l: LedgerView,
    order_id: u64,
    purchase_time: i64,
    reclaim_time: i64,
)
    requires
        ledger_wf(l),
        has_order(l.orders, order_id),
    ensures
        can_purchase(l.orders, order_id) ==> has_order(
            after_reclaim(after_purchase(l, order_id, purchase_time), reclaim_time).orders,
            order_id,
        ),
        is_expired(l.orders[order_index(l.orders, order_id)], reclaim_time) ==> !can_purchase(
            after_reclaim(l, reclaim_time).orders,
            order_id,
        ),
{
    if can_purchase(l.orders, order_id) {
        law_second_purchase_fails(l, order_id, purchase_time, purchase_time);
        let l1 = after_purchase(l, order_id, purchase_time);
        let i = order_index(l1.orders, order_id);
        lemma_unexpired_keeps(l1.orders, reclaim_time, i);
        let u = unexpired(l1.orders, reclaim_time);
        let k = choose|k: int| 0 <= k < u.len() && #[trigger] u[k] == l1.orders[i];
        assert(u[k].id == order_id);
    }
    if is_expired(l.orders[order_index(l.orders, order_id)], reclaim_time) {
        law_reclaim_removes_expired(l, order_id, reclaim_time);
    }
}

/// Purchase attempts on an order that is already purchased all fail and
/// change nothing.
pub proof fn law_purchased_run(l: LedgerView, order_id: u64, times: Seq<i64>)
    requires
        ledger_wf(l),
        has_order(l.orders, order_id),
        l.orders[order_index(l.orders, order_id)].purchased_at is Some,
    ensures
        purchase_run(l, order_id, times) == (l, 0nat),
    decreases times.len(),
{
    if times.len() > 0 {
        law_purchased_is_final(l, order_id, times[0]);
        law_purchased_run(l, order_id, times.drop_first());
    }
}

/// Of any number (at least one) of purchase attempts on an order that has a
/// user and is not purchased, exactly one succeeds, the first to land; the
/// others fail and the order keeps that attempt's `purchased_at`.
pub proof fn law_exactly_one_purchase(l: LedgerView, order_id: u64, times: Seq<i64>)
    requires
        ledger_wf(l),
        can_purchase(l.orders, order_id),
        times.len() >= 1,
    ensures
        purchase_run(l, order_id, times).1 == 1,
        purchase_run(l, order_id, times).0 == after_purchase(l, order_id, times[0]),
        ({
            let fin = purchase_run(l, order_id, times).0;
            fin.orders[order_index(fin.orders, order_id)].purchased_at == Some(times[0])
        }),
{
    law_second_purchase_fails(l, order_id, times[0], times[0]);
    let l1 = after_purchase(l, order_id, times[0]);
    assert(ledger_wf(l1)) by {
        let i = order_index(l.orders, order_id);
        assert forall|a: int, b: int|
            0 <= a < l1.orders.len() && 0 <= b < l1.orders.len() && a != b implies #[trigger] l1.orders[a].id
            != #[trigger] l1.orders[b].id by {
            assert(l1.orders[a].id == l.orders[a].id);
            assert(l1.orders[b].id == l.orders[b].id);
        }
        assert forall|a: int| 0 <= a < l1.orders.len() implies #[trigger] l1.orders[a].id
            < l1.next_order_id by {
            assert(l1.orders[a].id == l.orders[a].id);
        }
        assert forall|a: int|
            0 <= a < l1.orders.len() && (#[trigger] l1.orders[a]).purchased_at is Some
                implies l1.orders[a].user_id is Some by {
            assert(l1.orders[a].user_id == l.orders[a].user_id);
            if a != i {
                assert(l1.orders[a] == l.orders[a]);
            }
        }
    }
    law_purchased_run(l1, order_id, times.drop_first());
}

/// A subscribe request answered by an accepting sequencer leaves it
/// accepting, and the next tick, with that handle alive, publishes a
/// snapshot: the new subscriber cannot miss it.
pub proof fn law_subscribe_then_tick(receivers: usize, now: i64)
    requires
        receivers >= 1,
    ensures
        decide(true, SequencerEvent::SubscribeRequested) == Decision::Register,
        accepts_after(true, SequencerEvent::SubscribeRequested),
        decide(
            accepts_after(true, SequencerEvent::SubscribeRequested),
            SequencerEvent::TimerFired { receivers, now },
        ) == Decision::Publish,
{
}

} // verus!
