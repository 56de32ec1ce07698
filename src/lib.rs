//! Reservation lifecycle engine for festival tickets: a ledger of short-lived
//! holds on a fixed catalog of ticket types, the reaper rule that reclaims
//! expired holds, and the sequencer that fans capacity snapshots out to
//! subscribers.
pub mod broker;
pub mod env;
pub mod error;
pub mod laws;
pub mod ledger;
pub mod model;
pub mod types;

pub use broker::{Decision, Sequencer, SequencerAction, SequencerEvent, stream_item, stream_start};
pub use env::{Cfg, CfgError, to_snake_case};
pub use error::{ApiError, Code, ServiceError};
pub use ledger::Ledger;
pub use types::{
    AddTicketToBasketRequest, AddTicketToBasketResponse, AddUserInfoRequest, CapacityLimit,
    GetTicketTypesResponse, HOLD_WINDOW_MS, Order, OrderStats, TicketType, User,
};
