//! The reservation ledger: the in-process inventory store and the only path
//! by which reservations change. Every operation is one atomic step on it;
//! callers that share a ledger between tasks serialise access to it.
use vstd::prelude::*;
use crate::error::{ApiError, not_found_message, not_found_text};
use crate::model::{
    LedgerView, ledger_wf, has_ticket_type, has_order, order_index, has_user, user_index,
    new_order, can_create, after_create, can_attach, after_attach, can_purchase, after_purchase,
    unexpired, after_reclaim, booked_count, stats_of, open_durations, snapshot_of, lemma_booked_count_bound, lemma_unexpired_len, lemma_reclaim_wf,
};
use crate::types::{
    HOLD_WINDOW_MS, TicketType, CapacityLimit, OrderStats, Order, User, AddUserInfoRequest,
};

verus! {

pub struct Ledger {
    ticket_types: Vec<TicketType>,
    limits: Vec<CapacityLimit>,
    orders: Vec<Order>,
    users: Vec<User>,
    next_order_id: u64,
    next_user_id: u64,
}

impl View for Ledger {
    type V = LedgerView;

    closed spec fn view(&self) -> LedgerView {
        LedgerView {
            ticket_types: self.ticket_types@.map_values(|t: TicketType| t@),
            limits: self.limits@.map_values(|c: CapacityLimit| c@),
            orders: self.orders@.map_values(|o: Order| o@),
            users: self.users@.map_values(|u: User| u@),
            next_order_id: self.next_order_id,
            next_user_id: self.next_user_id,
        }
    }
}

impl Ledger {
    pub open spec fn wf(&self) -> bool {
        ledger_wf(self@)
    }

    /// An empty ledger over a catalog of ticket types and the capacity limits
    /// tracked for them.
    pub fn new(ticket_types: Vec<TicketType>, limits: Vec<CapacityLimit>) -> (r: Ledger)
        ensures
            r.wf(),
            r@.ticket_types == ticket_types@.map_values(|t: TicketType| t@),
            r@.limits == limits@.map_values(|c: CapacityLimit| c@),
            r@.orders == Seq::<crate::types::OrderView>::empty(),
            r@.users == Seq::<crate::types::UserView>::empty(),
            r@.next_order_id == 0,
            r@.next_user_id == 0,
    {
        let r = Ledger {
            ticket_types,
            limits,
            orders: Vec::new(),
            users: Vec::new(),
            next_order_id: 0,
            next_user_id: 0,
        };
        assert(r@.orders =~= Seq::empty());
        assert(r@.users =~= Seq::empty());
        r
    }

    fn find_order(&self, order_id: u64) -> (r: Option<usize>)
        requires
            self.wf(),
        ensures
            match r {
                Some(i) => {
                    &&& has_order(self@.orders, order_id)
                    &&& i == order_index(self@.orders, order_id)
                    &&& i < self.orders@.len()
                },
                None => !has_order(self@.orders, order_id),
            },
    {
        let mut i: usize = 0;
        while i < self.orders.len()
            invariant
                self.wf(),
                i <= self.orders@.len(),
                forall|k: int| 0 <= k < i ==> #[trigger] self@.orders[k].id != order_id,
            decreases self.orders@.len() - i,
        {
            if self.orders[i].id == order_id {
                proof {
                    let orders = self@.orders;
                    assert(orders[i as int].id == order_id);
                    assert(has_order(orders, order_id));
                    let j = order_index(orders, order_id);
                    assert(j == i);
                }
                return Some(i);
            }
            i = i + 1;
        }
        None
    }

    fn find_user(&self, user_id: u64) -> (r: Option<usize>)
        requires
            self.wf(),
        ensures
            match r {
                Some(i) => {
                    &&& has_user(self@.users, user_id)
                    &&& i == user_index(self@.users, user_id)
                    &&& i < self.users@.len()
                },
                None => !has_user(self@.users, user_id),
            },
    {
        let mut i: usize = 0;
        while i < self.users.len()
            invariant
                self.wf(),
                i <= self.users@.len(),
                forall|k: int| 0 <= k < i ==> #[trigger] self@.users[k].id != user_id,
            decreases self.users@.len() - i,
        {
            if self.users[i].id == user_id {
                proof {
                    let users = self@.users;
                    assert(users[i as int].id == user_id);
                    assert(has_user(users, user_id));
                    let j = user_index(users, user_id);
                    assert(j == i);
                }
                return Some(i);
            }
            i = i + 1;
        }
        None
    }


    fn knows_ticket_type(&self, type_id: &String) -> (r: bool)
        ensures
            r == has_ticket_type(self@.ticket_types, type_id@),
    {
        let mut i: usize = 0;
        while i < self.ticket_types.len()
            invariant
                i <= self.ticket_types@.len(),
                forall|k: int| 0 <= k < i ==> #[trigger] self@.ticket_types[k].id != type_id@,
            decreases self.ticket_types@.len() - i,
        {
            if self.ticket_types[i].id == *type_id {
                assert(self@.ticket_types[i as int].id == type_id@);
                return true;
            }
            i = i + 1;
        }
        false
    }

    /// Reserves a ticket at time `now`: a new order of a known ticket type,
    /// held until ten minutes after `now`, with no user and not purchased.
    /// `NotFound` for an unknown ticket type; `DbExecutionError` once the
    /// order ids are used up.
    pub fn add_ticket_to_basket(&mut self, type_id: &str, duration: i32, now: i64) -> (r: Result<
        Order,
        ApiError,
    >)
        requires
            old(self).wf(),
            now <= i64::MAX - HOLD_WINDOW_MS,
        ensures
            final(self).wf(),
            final(self)@ == after_create(old(self)@, type_id@, duration, now),
            r is Ok <==> can_create(old(self)@, type_id@),
            r matches Ok(o) ==> o@ == new_order(old(self)@, type_id@, duration, now),
            !has_ticket_type(old(self)@.ticket_types, type_id@) ==> (r is Err && r->Err_0 is NotFound),
            has_ticket_type(old(self)@.ticket_types, type_id@) && !can_create(old(self)@, type_id@)
                ==> (r is Err && r->Err_0 is DbExecutionError),
    {
        let key = type_id.to_owned();
        if !self.knows_ticket_type(&key) {
            return Err(ApiError::NotFound(String::from_str("ticket type not found")));
        }
        if self.next_order_id == u64::MAX {
            return Err(ApiError::DbExecutionError(String::from_str("order ids exhausted")));
        }
        let order = Order {
            id: self.next_order_id,
            ticket_type_id: key,
            user_id: None,
            duration,
            reserved_until: now + HOLD_WINDOW_MS,
            purchased_at: None,
        };
        let ghost pre = self@;
        let out = order.clone();
        self.orders.push(order);
        self.next_order_id = self.next_order_id + 1;
        proof {
            let post = after_create(pre, type_id@, duration, now);
            assert(self@.orders =~= post.orders);
            assert(self@ == post);
            let l = self@;
            assert forall|i: int| 0 <= i < l.orders.len() implies #[trigger] l.orders[i].id
                < l.next_order_id by {
                if i < pre.orders.len() {
                    assert(l.orders[i] == pre.orders[i]);
                }
            }
        }
        Ok(out)
    }

    /// Records the user's identity and attaches it to the order,
    /// in one step. `NotFound` when the order does not exist;
    /// `FailedPrecondition` when it already has a user (a second attachment
    /// is refused, never overwrites); `DbExecutionError` once the user ids are
    /// used up.
    pub fn add_user_to_order(&mut self, order_id: u64, req: &AddUserInfoRequest) -> (r: Result<
        Order,
        ApiError,
    >)
        requires
            old(self).wf(),
        ensures
            final(self).wf(),
            final(self)@ == after_attach(old(self)@, order_id, req.name@, req.email@, req.address@),
            r is Ok <==> can_attach(old(self)@, order_id),
            r matches Ok(o) ==> o@ == final(self)@.orders[order_index(old(self)@.orders, order_id)],
            !has_order(old(self)@.orders, order_id) ==> (r is Err && r->Err_0 is NotFound),
            has_order(old(self)@.orders, order_id) && old(self)@.orders[order_index(
                old(self)@.orders,
                order_id,
            )].user_id is Some ==> (r is Err && r->Err_0 is FailedPrecondition),
            has_order(old(self)@.orders, order_id) && old(self)@.orders[order_index(
                old(self)@.orders,
                order_id,
            )].user_id is None && !can_attach(old(self)@, order_id) ==> (r is Err && r->Err_0 is DbExecutionError),
    {
        let idx = match self.find_order(order_id) {
            Some(i) => i,
            None => {
                return Err(ApiError::NotFound(String::from_str("order not found")));
            },
        };
        if self.orders[idx].user_id.is_some() {
            return Err(
                ApiError::FailedPrecondition(String::from_str("user already attached to order")),
            );
        }
        if self.next_user_id == u64::MAX {
            return Err(ApiError::DbExecutionError(String::from_str("user ids exhausted")));
        }
        let ghost pre = self@;
        let uid = self.next_user_id;
        let user = User {
            id: uid,
            name: req.name.clone(),
            address: req.address.clone(),
            email: req.email.clone(),
            order_id,
        };
        let mut order = self.orders[idx].clone();
        order.user_id = Some(uid);
        let out = order.clone();
        self.orders.set(idx, order);
        self.users.push(user);
        self.next_user_id = uid + 1;
        proof {
            let post = after_attach(pre, order_id, req.name@, req.email@, req.address@);
            assert(self@.orders =~= post.orders);
            assert(self@.users =~= post.users);
            assert(self@ == post);
            let l = self@;
            assert forall|i: int, j: int|
                0 <= i < l.orders.len() && 0 <= j < l.orders.len() && i != j implies #[trigger] l.orders[i].id
                != #[trigger] l.orders[j].id by {
                assert(pre.orders[i].id == l.orders[i].id);
                assert(pre.orders[j].id == l.orders[j].id);
            }
            assert forall|i: int| 0 <= i < l.orders.len() implies #[trigger] l.orders[i].id
                < l.next_order_id by {
                assert(pre.orders[i].id == l.orders[i].id);
            }
            assert forall|i: int| 0 <= i < l.users.len() implies #[trigger] l.users[i].id
                < l.next_user_id by {
                if i < pre.users.len() {
                    assert(l.users[i] == pre.users[i]);
                }
            }
            assert forall|i: int, j: int|
                0 <= i < l.users.len() && 0 <= j < l.users.len() && i != j implies #[trigger] l.users[i].id
                != #[trigger] l.users[j].id by {
                if i < pre.users.len() {
                    assert(l.users[i] == pre.users[i]);
                }
                if j < pre.users.len() {
                    assert(l.users[j] == pre.users[j]);
                }
            }
            assert forall|i: int|
                0 <= i < l.orders.len() && (#[trigger] l.orders[i]).purchased_at is Some
                    implies l.orders[i].user_id is Some by {
                if i != idx {
                    assert(l.orders[i] == pre.orders[i]);
                }
            }
        }
        Ok(out)
    }

    /// Purchases an order at time `now`: the single conditional write "set
    /// `purchased_at` where it is unset", on an order that has a user.
    /// `FailedPrecondition`, with the ledger unchanged, when the order is
    /// missing (never made, or reclaimed), has no user, or is already
    /// purchased.
    pub fn purchase_order(&mut self, order_id: u64, now: i64) -> (r: Result<Order, ApiError>)
        requires
            old(self).wf(),
        ensures
            final(self).wf(),
            final(self)@ == after_purchase(old(self)@, order_id, now),
            r is Ok <==> can_purchase(old(self)@.orders, order_id),
            r matches Ok(o) ==> o@ == final(self)@.orders[order_index(old(self)@.orders, order_id)],
            r matches Err(e) ==> e is FailedPrecondition,
            r is Err ==> r->Err_0->FailedPrecondition_0@ == if has_order(old(self)@.orders, order_id)
                && old(self)@.orders[order_index(old(self)@.orders, order_id)].user_id is None {
                "user info missing from order"@
            } else {
                "already purchased or expired"@
            },
    {
        let idx = match self.find_order(order_id) {
            Some(i) => i,
            None => {
                return Err(
                    ApiError::FailedPrecondition(String::from_str("already purchased or expired")),
                );
            },
        };
        if self.orders[idx].user_id.is_none() {
            return Err(
                ApiError::FailedPrecondition(String::from_str("user info missing from order")),
            );
        }
        if self.orders[idx].purchased_at.is_some() {
            return Err(
                ApiError::FailedPrecondition(String::from_str("already purchased or expired")),
            );
        }
        let ghost pre = self@;
        let mut order = self.orders[idx].clone();
        order.purchased_at = Some(now);
        let out = order.clone();
        self.orders.set(idx, order);
        proof {
            let post = after_purchase(pre, order_id, now);
            assert(self@.orders =~= post.orders);
            assert(self@ == post);
            let l = self@;
            assert forall|i: int, j: int|
                0 <= i < l.orders.len() && 0 <= j < l.orders.len() && i != j implies #[trigger] l.orders[i].id
                != #[trigger] l.orders[j].id by {
                assert(pre.orders[i].id == l.orders[i].id);
                assert(pre.orders[j].id == l.orders[j].id);
            }
            assert forall|i: int| 0 <= i < l.orders.len() implies #[trigger] l.orders[i].id
                < l.next_order_id by {
                assert(pre.orders[i].id == l.orders[i].id);
            }
            assert forall|i: int|
                0 <= i < l.orders.len() && (#[trigger] l.orders[i]).purchased_at is Some
                    implies l.orders[i].user_id is Some by {
                if i != idx {
                    assert(l.orders[i] == pre.orders[i]);
                }
            }
        }
        Ok(out)
    }


    /// Reclaims expired holds at time `now`: deletes every order that is not
    /// purchased and whose hold ended before `now`, keeping the others in
    /// their order; returns how many were deleted.
    pub fn remove_expired_orders(&mut self, now: i64) -> (r: usize)
        requires
            old(self).wf(),
        ensures
            final(self).wf(),
            final(self)@ == after_reclaim(old(self)@, now),
            r == old(self)@.orders.len() - final(self)@.orders.len(),
    {
        let ghost pre = self@;
        let mut kept: Vec<Order> = Vec::new();
        let mut i: usize = 0;
        while i < self.orders.len()
            invariant
                self@ == pre,
                i <= self.orders@.len(),
                kept@.map_values(|o: Order| o@) == unexpired(pre.orders.subrange(0, i as int), now),
            decreases self.orders@.len() - i,
        {
            proof {
                let s = pre.orders.subrange(0, i as int + 1);
                assert(s.drop_last() =~= pre.orders.subrange(0, i as int));
                assert(s.last() == self.orders@[i as int]@);
            }
            let o = &self.orders[i];
            if !(o.purchased_at.is_none() && o.reserved_until < now) {
                kept.push(o.clone());
                assert(kept@.map_values(|o: Order| o@) =~= unexpired(
                    pre.orders.subrange(0, i as int + 1),
                    now,
                ));
            }
            i = i + 1;
        }
        assert(pre.orders.subrange(0, self.orders@.len() as int) =~= pre.orders);
        let before = self.orders.len();
        self.orders = kept;
        proof {
            lemma_reclaim_wf(pre, now);
            lemma_unexpired_len(pre.orders, now);
            assert(self@ == after_reclaim(pre, now));
        }
        before - self.orders.len()
    }

    fn count_booked(&self, type_id: &String, duration: i32, now: i64) -> (r: u64)
        ensures
            r == booked_count(self@.orders, type_id@, duration, now),
    {
        let mut count: u64 = 0;
        let mut i: usize = 0;
        while i < self.orders.len()
            invariant
                i <= self.orders@.len(),
                count == booked_count(self@.orders.subrange(0, i as int), type_id@, duration, now),
            decreases self.orders@.len() - i,
        {
            proof {
                let s = self@.orders.subrange(0, i as int + 1);
                assert(s.drop_last() =~= self@.orders.subrange(0, i as int));
                lemma_booked_count_bound(s.drop_last(), type_id@, duration, now);
            }
            let o = &self.orders[i];
            if o.ticket_type_id == *type_id && o.duration == duration && (o.purchased_at.is_some()
                || now <= o.reserved_until) {
                count = count + 1;
            }
            i = i + 1;
        }
        assert(self@.orders.subrange(0, self.orders@.len() as int) =~= self@.orders);
        count
    }

    /// The capacity snapshot at time `now`: for each tracked ticket type and
    /// duration, its limit and how many orders still hold a ticket of it
    /// (purchased, or within their hold window).
    pub fn get_order_stats(&self, now: i64) -> (r: Vec<OrderStats>)
        ensures
            r@.len() == self@.limits.len(),
            forall|i: int|
                0 <= i < r@.len() ==> #[trigger] r@[i]@ == stats_of(self@.limits[i], self@.orders, now),
            r@.map_values(|s: OrderStats| s@) == snapshot_of(self@, now),
    {
        let mut out: Vec<OrderStats> = Vec::new();
        let mut i: usize = 0;
        while i < self.limits.len()
            invariant
                i <= self.limits@.len(),
                out@.len() == i,
                forall|k: int|
                    0 <= k < i ==> #[trigger] out@[k]@ == stats_of(self@.limits[k], self@.orders, now),
            decreases self.limits@.len() - i,
        {
            let lim = &self.limits[i];
            let count = self.count_booked(&lim.ticket_type_id, lim.duration_days, now);
            out.push(OrderStats {
                ticket_type_id: lim.ticket_type_id.clone(),
                duration_days: lim.duration_days,
                order_limit: lim.order_limit,
                order_count: count,
            });
            i = i + 1;
        }
        assert(out@.map_values(|s: OrderStats| s@) =~= snapshot_of(self@, now));
        out
    }

    /// The durations of this ticket type that still have room at time `now`,
    /// in the order in which their limits were given.
    pub fn get_ticket_durations(&self, type_id: &str, now: i64) -> (r: Vec<i32>)
        ensures
            r@ == open_durations(self@.limits, self@.orders, type_id@, now),
    {
        let key = type_id.to_owned();
        let mut out: Vec<i32> = Vec::new();
        let mut i: usize = 0;
        while i < self.limits.len()
            invariant
                i <= self.limits@.len(),
                key@ == type_id@,
                out@ == open_durations(self@.limits.subrange(0, i as int), self@.orders, type_id@, now),
            decreases self.limits@.len() - i,
        {
            proof {
                let s = self@.limits.subrange(0, i as int + 1);
                assert(s.drop_last() =~= self@.limits.subrange(0, i as int));
            }
            let lim = &self.limits[i];
            if lim.ticket_type_id == key {
                let count = self.count_booked(&lim.ticket_type_id, lim.duration_days, now);
                if count < lim.order_limit {
                    out.push(lim.duration_days);
                }
            }
            i = i + 1;
        }
        assert(self@.limits.subrange(0, self.limits@.len() as int) =~= self@.limits);
        out
    }

    /// The catalog, in its order. Entries are never marked sold out here:
    /// availability is per duration, from `get_ticket_durations`.
    pub fn get_ticket_types(&self) -> (r: Vec<TicketType>)
        ensures
            r@.len() == self@.ticket_types.len(),
            forall|i: int|
                0 <= i < r@.len() ==> #[trigger] r@[i]@ == (crate::types::TicketTypeView {
                    sold_out: false,
                    ..self@.ticket_types[i]
                }),
    {
        let mut out: Vec<TicketType> = Vec::new();
        let mut i: usize = 0;
        while i < self.ticket_types.len()
            invariant
                i <= self.ticket_types@.len(),
                out@.len() == i,
                forall|k: int|
                    0 <= k < i ==> #[trigger] out@[k]@ == (crate::types::TicketTypeView {
                        sold_out: false,
                        ..self@.ticket_types[k]
                    }),
            decreases self.ticket_types@.len() - i,
        {
            let tt = &self.ticket_types[i];
            out.push(TicketType { id: tt.id.clone(), display: tt.display.clone(), sold_out: false });
            i = i + 1;
        }
        out
    }

    /// The stored order with this id, or `NotFound`.
    pub fn get_order(&self, order_id: u64) -> (r: Result<Order, ApiError>)
        requires
            self.wf(),
        ensures
            r is Ok <==> has_order(self@.orders, order_id),
            r matches Ok(o) ==> o@ == self@.orders[order_index(self@.orders, order_id)],
            r is Err ==> r->Err_0 is NotFound && r->Err_0->NotFound_0@ == not_found_text(
                "order"@,
                order_id,
            ),
    {
        match self.find_order(order_id) {
            Some(i) => Ok(self.orders[i].clone()),
            None => Err(ApiError::NotFound(not_found_message("order", order_id))),
        }
    }

    /// The stored user with this id, or `NotFound`.
    pub fn get_user(&self, user_id: u64) -> (r: Result<User, ApiError>)
        requires
            self.wf(),
        ensures
            r is Ok <==> has_user(self@.users, user_id),
            r matches Ok(u) ==> u@ == self@.users[user_index(self@.users, user_id)],
            r is Err ==> r->Err_0 is NotFound && r->Err_0->NotFound_0@ == not_found_text(
                "user"@,
                user_id,
            ),
    {
        match self.find_user(user_id) {
            Some(i) => Ok(self.users[i].clone()),
            None => Err(ApiError::NotFound(not_found_message("user", user_id))),
        }
    }
}

} // verus!
