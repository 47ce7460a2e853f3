use vstd::prelude::*;

verus! {

/// Every way an operation on an event or on the factory can be refused.
/// A refused call leaves the contract's state exactly as it was.
#[derive(Debug, Clone, Copy, PartialEq, Eq, Structural)]
pub enum ContractError {
    /// A read or a change was attempted before the event was initialized.
    NotInitialized,
    /// The event was initialized already.
    AlreadyInitialized,
    /// The caller lacks the role that the operation asks for.
    NotAuthorized,
    /// Every ticket is taken.
    CapacityExceeded,
    /// The attached payment is below the ticket price.
    InsufficientPayment,
    /// The caller holds a ticket already.
    AlreadyTicketed,
    /// An argument conflicts with the current state.
    InvalidArgument,
    /// The event name is pending or taken.
    NameTaken,
    /// There is no balance to pay out.
    NothingToPay,
}

} // verus!
