use vstd::prelude::*;

verus! {

/// Why a channel command was rejected.
#[derive(Clone, Copy, Debug, PartialEq, Eq, Structural)]
pub enum ChannelError {
    /// Malformed or inconsistent input.
    InvalidParameter,
    /// The command is not valid in the channel's current phase.
    IllegalState,
    /// The command names another channel.
    UnknownChannel,
    /// No pending TLC has the given id.
    UnknownTlc,
    /// A TLC amount outside the channel's `[tlc_min_value, tlc_max_value]`.
    TlcValueOutOfRange,
    /// The offering side's balance cannot cover the amount.
    InsufficientBalance,
    /// The TLC count or the value in flight would exceed the channel's bounds.
    TooManyInflightTlcs,
    /// The expiry does not leave the channel's locktime delta.
    ExpiryTooSoon,
}

/// Why an invoice could not be stored.
#[derive(Clone, Copy, Debug, PartialEq, Eq, Structural)]
pub enum InvoiceError {
    /// An invoice with the same payment hash is already stored.
    DuplicatedInvoice,
}

/// Why no route was found.
#[derive(Clone, Copy, Debug, PartialEq, Eq, Structural)]
pub enum RouteError {
    /// Malformed request, such as a zero amount.
    InvalidParameter,
    /// No usable path joins source and target.
    NoRoute,
    /// The cheapest path found costs more than the allowed fee.
    FeeExceedsMax,
}

} // verus!
