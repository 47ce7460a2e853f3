//! Ticketed events: a per-event state machine (hosts, cohosts, guests, ticket
//! sales and payout) and a factory registry that provisions named events.
use vstd::prelude::*;

pub mod error;
pub mod event;
pub mod factory;
pub mod identity;

pub use error::ContractError;
pub use event::{Event, EventContract, EventDetails, Payout};
pub use factory::{CreationStatus, FactoryContract, Instantiation};

verus! {

} // verus!
