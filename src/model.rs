//! The ledger as a mathematical state machine: its state, its well-formedness,
//! and the state that each operation leads to.
use vstd::prelude::*;
use crate::types::{
    HOLD_WINDOW_MS, TicketTypeView, CapacityLimitView, OrderStatsView, OrderView, UserView,
};

verus! {

/// The whole content of a ledger.
pub struct LedgerView {
    pub ticket_types: Seq<TicketTypeView>,
    pub limits: Seq<CapacityLimitView>,
    pub orders: Seq<OrderView>,
    pub users: Seq<UserView>,
    pub next_order_id: u64,
    pub next_user_id: u64,
}

pub open spec fn has_ticket_type(types: Seq<TicketTypeView>, id: Seq<char>) -> bool {
    exists|i: int| 0 <= i < types.len() && #[trigger] types[i].id == id
}

pub open spec fn has_order(orders: Seq<OrderView>, id: u64) -> bool {
    exists|i: int| 0 <= i < orders.len() && #[trigger] orders[i].id == id
}

/// Where the order with this id stands (meaningful when it exists).
pub open spec fn order_index(orders: Seq<OrderView>, id: u64) -> int {
    choose|i: int| 0 <= i < orders.len() && #[trigger] orders[i].id == id
}

pub open spec fn has_user(users: Seq<UserView>, id: u64) -> bool {
    exists|i: int| 0 <= i < users.len() && #[trigger] users[i].id == id
}

pub open spec fn user_index(users: Seq<UserView>, id: u64) -> int {
    choose|i: int| 0 <= i < users.len() && #[trigger] users[i].id == id
}

pub open spec fn order_ids_unique(orders: Seq<OrderView>) -> bool {
    forall|i: int, j: int|
        0 <= i < orders.len() && 0 <= j < orders.len() && i != j ==> #[trigger] orders[i].id
            != #[trigger] orders[j].id
}

pub open spec fn user_ids_unique(users: Seq<UserView>) -> bool {
    forall|i: int, j: int|
        0 <= i < users.len() && 0 <= j < users.len() && i != j ==> #[trigger] users[i].id
            != #[trigger] users[j].id
}

/// Ids are unique and below the next id to hand out, and no order is
/// purchased without a user attached.
pub open spec fn ledger_wf(l: LedgerView) -> bool {
    &&& order_ids_unique(l.orders)
    &&& user_ids_unique(l.users)
    &&& forall|i: int| 0 <= i < l.orders.len() ==> #[trigger] l.orders[i].id < l.next_order_id
    &&& forall|i: int| 0 <= i < l.users.len() ==> #[trigger] l.users[i].id < l.next_user_id
    &&& forall|i: int|
        0 <= i < l.orders.len() && (#[trigger] l.orders[i]).purchased_at is Some
            ==> l.orders[i].user_id is Some
}

/// The record that a reservation made at `now` starts as.
pub open spec fn new_order(l: LedgerView, type_id: Seq<char>, duration: i32, now: i64) -> OrderView {
    OrderView {
        id: l.next_order_id,
        ticket_type_id: type_id,
        user_id: None,
        duration,
        reserved_until: (now + HOLD_WINDOW_MS) as i64,
        purchased_at: None,
    }
}

/// A reservation can be made for a known ticket type while ids remain.
pub open spec fn can_create(l: LedgerView, type_id: Seq<char>) -> bool {
    has_ticket_type(l.ticket_types, type_id) && l.next_order_id < u64::MAX
}

pub open spec fn after_create(l: LedgerView, type_id: Seq<char>, duration: i32, now: i64) -> LedgerView {
    if can_create(l, type_id) {
        LedgerView {
            orders: l.orders.push(new_order(l, type_id, duration, now)),
            next_order_id: (l.next_order_id + 1) as u64,
            ..l
        }
    } else {
        l
    }
}

/// A user can be attached to an existing order that has none yet, while ids
/// remain.
pub open spec fn can_attach(l: LedgerView, order_id: u64) -> bool {
    &&& has_order(l.orders, order_id)
    &&& l.orders[order_index(l.orders, order_id)].user_id is None
    &&& l.next_user_id < u64::MAX
}

pub open spec fn new_user(
    l: LedgerView,
    order_id: u64,
    name: Seq<char>,
    email: Seq<char>,
    address: Seq<char>,
) -> UserView {
    UserView { id: l.next_user_id, name, address, email, order_id }
}

pub open spec fn after_attach(
    l: LedgerView,
    order_id: u64,
    name: Seq<char>,
    email: Seq<char>,
    address: Seq<char>,
) -> LedgerView {
    if can_attach(l, order_id) {
        let i = order_index(l.orders, order_id);
        LedgerView {
            orders: l.orders.update(i, OrderView { user_id: Some(l.next_user_id), ..l.orders[i] }),
            users: l.users.push(new_user(l, order_id, name, email, address)),
            next_user_id: (l.next_user_id + 1) as u64,
            ..l
        }
    } else {
        l
    }
}

/// An order can be purchased when it exists, has a user, and is not
/// purchased yet.
pub open spec fn can_purchase(orders: Seq<OrderView>, order_id: u64) -> bool {
    &&& has_order(orders, order_id)
    &&& orders[order_index(orders, order_id)].user_id is Some
    &&& orders[order_index(orders, order_id)].purchased_at is None
}

pub open spec fn after_purchase(l: LedgerView, order_id: u64, now: i64) -> LedgerView {
    if can_purchase(l.orders, order_id) {
        let i = order_index(l.orders, order_id);
        LedgerView {
            orders: l.orders.update(i, OrderView { purchased_at: Some(now), ..l.orders[i] }),
            ..l
        }
    } else {
        l
    }
}

/// An unpurchased hold whose window has passed.
pub open spec fn is_expired(o: OrderView, now: i64) -> bool {
    o.purchased_at is None && o.reserved_until < now
}

/// The orders that a reclaim pass at `now` keeps, in their order.
pub open spec fn unexpired(orders: Seq<OrderView>, now: i64) -> Seq<OrderView>
    decreases orders.len(),
{
    if orders.len() == 0 {
        Seq::empty()
    } else {
        let rest = unexpired(orders.drop_last(), now);
        if is_expired(orders.last(), now) {
            rest
        } else {
            rest.push(orders.last())
        }
    }
}

pub open spec fn after_reclaim(l: LedgerView, now: i64) -> LedgerView {
    LedgerView { orders: unexpired(l.orders, now), ..l }
}

/// An order that still holds its ticket at `now`: purchased, or within its
/// hold window.
pub open spec fn is_outstanding(o: OrderView, now: i64) -> bool {
    o.purchased_at is Some || now <= o.reserved_until
}

/// How many orders of this type and duration still hold a ticket at `now`.
pub open spec fn booked_count(
    orders: Seq<OrderView>,
    type_id: Seq<char>,
    duration: i32,
    now: i64,
) -> nat
    decreases orders.len(),
{
    if orders.len() == 0 {
        0
    } else {
        let o = orders.last();
        booked_count(orders.drop_last(), type_id, duration, now) + if o.ticket_type_id == type_id
            && o.duration == duration && is_outstanding(o, now) {
            1nat
        } else {
            0nat
        }
    }
}

pub open spec fn stats_of(limit: CapacityLimitView, orders: Seq<OrderView>, now: i64) -> OrderStatsView {
    OrderStatsView {
        ticket_type_id: limit.ticket_type_id,
        duration_days: limit.duration_days,
        order_limit: limit.order_limit,
        order_count: booked_count(orders, limit.ticket_type_id, limit.duration_days, now) as u64,
    }
}

/// The capacity snapshot of a ledger at `now`: one entry per tracked limit.
pub open spec fn snapshot_of(l: LedgerView, now: i64) -> Seq<OrderStatsView> {
    Seq::new(l.limits.len(), |i: int| stats_of(l.limits[i], l.orders, now))
}

pub open spec fn has_room(limit: CapacityLimitView, orders: Seq<OrderView>, now: i64) -> bool {
    booked_count(orders, limit.ticket_type_id, limit.duration_days, now) < limit.order_limit
}

/// The durations of a ticket type that still have room at `now`, in the
/// order of the limits.
pub open spec fn open_durations(
    limits: Seq<CapacityLimitView>,
    orders: Seq<OrderView>,
    type_id: Seq<char>,
    now: i64,
) -> Seq<i32>
    decreases limits.len(),
{
    if limits.len() == 0 {
        Seq::empty()
    } else {
        let rest = open_durations(limits.drop_last(), orders, type_id, now);
        let lim = limits.last();
        if lim.ticket_type_id == type_id && has_room(lim, orders, now) {
            rest.push(lim.duration_days)
        } else {
            rest
        }
    }
}

pub proof fn lemma_booked_count_bound(
    orders: Seq<OrderView>,
    type_id: Seq<char>,
    duration: i32,
    now: i64,
)
    ensures
        booked_count(orders, type_id, duration, now) <= orders.len(),
    decreases orders.len(),
{
    if orders.len() > 0 {
        lemma_booked_count_bound(orders.drop_last(), type_id, duration, now);
    }
}

pub proof fn lemma_unexpired_len(orders: Seq<OrderView>, now: i64)
    ensures
        unexpired(orders, now).len() <= orders.len(),
    decreases orders.len(),
{
    if orders.len() > 0 {
        lemma_unexpired_len(orders.drop_last(), now);
    }
}

/// Every order that a reclaim pass keeps was in the ledger before it.
pub proof fn lemma_unexpired_from(orders: Seq<OrderView>, now: i64)
    ensures
        forall|k: int|
            0 <= k < unexpired(orders, now).len() ==> exists|j: int|
                0 <= j < orders.len() && #[trigger] unexpired(orders, now)[k] == orders[j],
    decreases orders.len(),
{
    if orders.len() > 0 {
        let pre = orders.drop_last();
        lemma_unexpired_from(pre, now);
        let u = unexpired(orders, now);
        assert forall|k: int| 0 <= k < u.len() implies exists|j: int|
            0 <= j < orders.len() && #[trigger] u[k] == orders[j] by {
            if k < unexpired(pre, now).len() {
                let j = choose|j: int| 0 <= j < pre.len() && unexpired(pre, now)[k] == pre[j];
                assert(u[k] == orders[j]);
            } else {
                assert(u[k] == orders[orders.len() - 1]);
            }
        }
    }
}

/// A reclaim pass keeps order ids unique.
pub proof fn lemma_unexpired_unique(orders: Seq<OrderView>, now: i64)
    requires
        order_ids_unique(orders),
    ensures
        order_ids_unique(unexpired(orders, now)),
    decreases orders.len(),
{
    if orders.len() > 0 {
        let pre = orders.drop_last();
        assert(order_ids_unique(pre)) by {
            assert forall|i: int, j: int|
                0 <= i < pre.len() && 0 <= j < pre.len() && i != j implies #[trigger] pre[i].id
                != #[trigger] pre[j].id by {
                assert(pre[i] == orders[i]);
                assert(pre[j] == orders[j]);
            }
        }
        lemma_unexpired_unique(pre, now);
        lemma_unexpired_from(pre, now);
        let up = unexpired(pre, now);
        let last = orders.last();
        if !is_expired(last, now) {
            let u = up.push(last);
            assert forall|i: int, j: int|
                0 <= i < u.len() && 0 <= j < u.len() && i != j implies #[trigger] u[i].id
                != #[trigger] u[j].id by {
                if i < up.len() && j < up.len() {
                    assert(u[i] == up[i] && u[j] == up[j]);
                } else if i < up.len() {
                    let a = choose|a: int| 0 <= a < pre.len() && up[i] == pre[a];
                    assert(orders[a] == pre[a]);
                    assert(u[i].id == orders[a].id);
                    assert(u[j] == orders[orders.len() - 1]);
                } else if j < up.len() {
                    let a = choose|a: int| 0 <= a < pre.len() && up[j] == pre[a];
                    assert(orders[a] == pre[a]);
                    assert(u[j].id == orders[a].id);
                    assert(u[i] == orders[orders.len() - 1]);
                }
            }
        }
    }
}

/// A reclaim pass keeps the ledger well formed.
pub proof fn lemma_reclaim_wf(l: LedgerView, now: i64)
    requires
        ledger_wf(l),
    ensures
        ledger_wf(after_reclaim(l, now)),
{
    lemma_unexpired_unique(l.orders, now);
    lemma_unexpired_from(l.orders, now);
    let u = unexpired(l.orders, now);
    assert forall|i: int| 0 <= i < u.len() implies #[trigger] u[i].id < l.next_order_id by {
        let j = choose|j: int| 0 <= j < l.orders.len() && u[i] == l.orders[j];
        assert(l.orders[j].id < l.next_order_id);
    }
    assert forall|i: int| 0 <= i < u.len() && (#[trigger] u[i]).purchased_at is Some implies u[i].user_id is Some by {
        let j = choose|j: int| 0 <= j < l.orders.len() && u[i] == l.orders[j];
        assert(l.orders[j].purchased_at is Some);
    }
}

/// No order that a reclaim pass keeps is expired.
pub proof fn lemma_unexpired_kept_live(orders: Seq<OrderView>, now: i64)
    ensures
        forall|k: int|
            0 <= k < unexpired(orders, now).len() ==> !is_expired(
                #[trigger] unexpired(orders, now)[k],
                now,
            ),
    decreases orders.len(),
{
    if orders.len() > 0 {
        let pre = orders.drop_last();
        lemma_unexpired_kept_live(pre, now);
        let u = unexpired(orders, now);
        let up = unexpired(pre, now);
        assert forall|k: int| 0 <= k < u.len() implies !is_expired(#[trigger] u[k], now) by {
            if k < up.len() {
                assert(u[k] == up[k]);
            }
        }
    }
}

/// A reclaim pass keeps every order that is not expired.
pub proof fn lemma_unexpired_keeps(orders: Seq<OrderView>, now: i64, j: int)
    requires
        0 <= j < orders.len(),
        !is_expired(orders[j], now),
    ensures
        exists|k: int|
            0 <= k < unexpired(orders, now).len() && #[trigger] unexpired(orders, now)[k]
                == orders[j],
    decreases orders.len(),
{
    let u = unexpired(orders, now);
    if j == orders.len() - 1 {
        assert(u[u.len() - 1] == orders[j]);
    } else {
        let pre = orders.drop_last();
        assert(pre[j] == orders[j]);
        lemma_unexpired_keeps(pre, now, j);
        let k = choose|k: int| 0 <= k < unexpired(pre, now).len() && #[trigger] unexpired(pre, now)[k] == pre[j];
        assert(u[k] == orders[j]);
    }
}

/// Where an order stands is fixed by its id.
pub proof fn lemma_order_index(orders: Seq<OrderView>, id: u64, i: int)
    requires
        order_ids_unique(orders),
        0 <= i < orders.len(),
        orders[i].id == id,
    ensures
        has_order(orders, id),
        order_index(orders, id) == i,
{
    assert(has_order(orders, id));
}

} // verus!
