//! The records that the ledger stores and hands out, and their views.
use vstd::prelude::*;

verus! {

/// Length of the hold placed on a ticket when it is reserved: ten minutes,
/// in milliseconds.
pub const HOLD_WINDOW_MS: i64 = 600000;

/// A catalog entry.
#[derive(Debug)]
pub struct TicketType {
    pub id: String,
    pub display: String,
    pub sold_out: bool,
}

/// How many reservations of one ticket type and duration may stand at once.
#[derive(Debug)]
pub struct CapacityLimit {
    pub ticket_type_id: String,
    pub duration_days: i32,
    pub order_limit: u64,
}

/// Outstanding reservations of one ticket type and duration, against its limit.
#[derive(Debug)]
pub struct OrderStats {
    pub ticket_type_id: String,
    pub duration_days: i32,
    pub order_limit: u64,
    pub order_count: u64,
}

/// A reservation: a time-bounded hold on one ticket. Times are milliseconds
/// since the Unix epoch, UTC.
#[derive(Debug)]
pub struct Order {
    pub id: u64,
    pub ticket_type_id: String,
    pub user_id: Option<u64>,
    pub duration: i32,
    pub reserved_until: i64,
    pub purchased_at: Option<i64>,
}

/// A purchaser's identity, attached to one order.
#[derive(Debug)]
pub struct User {
    pub id: u64,
    pub name: String,
    pub address: String,
    pub email: String,
    pub order_id: u64,
}

#[derive(Debug)]
pub struct AddTicketToBasketRequest {
    pub ticket_type_id: String,
    /// Duration in days
    pub duration: i32,
}

#[derive(Debug)]
pub struct AddTicketToBasketResponse {
    pub order: Order,
}

#[derive(Debug)]
pub struct GetTicketTypesResponse {
    pub ticket_types: Vec<TicketType>,
}

#[derive(Debug)]
pub struct AddUserInfoRequest {
    pub name: String,
    pub email: String,
    pub address: String,
}

pub struct TicketTypeView {
    pub id: Seq<char>,
    pub display: Seq<char>,
    pub sold_out: bool,
}

pub struct CapacityLimitView {
    pub ticket_type_id: Seq<char>,
    pub duration_days: i32,
    pub order_limit: u64,
}

pub struct OrderStatsView {
    pub ticket_type_id: Seq<char>,
    pub duration_days: i32,
    pub order_limit: u64,
    pub order_count: u64,
}

pub struct OrderView {
    pub id: u64,
    pub ticket_type_id: Seq<char>,
    pub user_id: Option<u64>,
    pub duration: i32,
    pub reserved_until: i64,
    pub purchased_at: Option<i64>,
}

pub struct UserView {
    pub id: u64,
    pub name: Seq<char>,
    pub address: Seq<char>,
    pub email: Seq<char>,
    pub order_id: u64,
}

impl View for TicketType {
    type V = TicketTypeView;

    open spec fn view(&self) -> TicketTypeView {
        TicketTypeView { id: self.id@, display: self.display@, sold_out: self.sold_out }
    }
}

impl View for CapacityLimit {
    type V = CapacityLimitView;

    open spec fn view(&self) -> CapacityLimitView {
        CapacityLimitView {
            ticket_type_id: self.ticket_type_id@,
            duration_days: self.duration_days,
            order_limit: self.order_limit,
        }
    }
}

impl View for OrderStats {
    type V = OrderStatsView;

    open spec fn view(&self) -> OrderStatsView {
        OrderStatsView {
            ticket_type_id: self.ticket_type_id@,
            duration_days: self.duration_days,
            order_limit: self.order_limit,
            order_count: self.order_count,
        }
    }
}

impl View for Order {
    type V = OrderView;

    open spec fn view(&self) -> OrderView {
        OrderView {
            id: self.id,
            ticket_type_id: self.ticket_type_id@,
            user_id: self.user_id,
            duration: self.duration,
            reserved_until: self.reserved_until,
            purchased_at: self.purchased_at,
        }
    }
}

impl View for User {
    type V = UserView;

    open spec fn view(&self) -> UserView {
        UserView {
            id: self.id,
            name: self.name@,
            address: self.address@,
            email: self.email@,
            order_id: self.order_id,
        }
    }
}

impl Clone for TicketType {
    fn clone(&self) -> (r: Self)
        ensures
            r@ == self@,
    {
        TicketType { id: self.id.clone(), display: self.display.clone(), sold_out: self.sold_out }
    }
}

impl Clone for CapacityLimit {
    fn clone(&self) -> (r: Self)
        ensures
            r@ == self@,
    {
        CapacityLimit {
            ticket_type_id: self.ticket_type_id.clone(),
            duration_days: self.duration_days,
            order_limit: self.order_limit,
        }
    }
}

impl Clone for OrderStats {
    fn clone(&self) -> (r: Self)
        ensures
            r@ == self@,
    {
        OrderStats {
            ticket_type_id: self.ticket_type_id.clone(),
            duration_days: self.duration_days,
            order_limit: self.order_limit,
            order_count: self.order_count,
        }
    }
}

impl Clone for Order {
    fn clone(&self) -> (r: Self)
        ensures
            r@ == self@,
    {
        Order {
            id: self.id,
            ticket_type_id: self.ticket_type_id.clone(),
            user_id: self.user_id,
            duration: self.duration,
            reserved_until: self.reserved_until,
            purchased_at: self.purchased_at,
        }
    }
}

impl Clone for User {
    fn clone(&self) -> (r: Self)
        ensures
            r@ == self@,
    {
        User {
            id: self.id,
            name: self.name.clone(),
            address: self.address.clone(),
            email: self.email.clone(),
            order_id: self.order_id,
        }
    }
}

} // verus!
