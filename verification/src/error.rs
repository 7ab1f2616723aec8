//! Why the engine turns a request down.

use vstd::prelude::*;

verus! {

/// The reasons for which a request is rejected. A rejected request changes
/// nothing.
#[derive(Clone, Copy, Debug, PartialEq, Eq, Structural)]
pub enum Error {
    /// The pool holds no identifier to draw.
    Exhausted,
    /// Every unit is issued or promised to an attempt in flight.
    SoldOut,
    /// Neither the presale nor the public sale has begun.
    Closed,
    /// The account has no allowance left, or never had one.
    NoAllowance,
    /// The request asks for more units than one request may.
    OverMintLimit,
    /// The funds at hand do not cover the cost.
    InsufficientFunds,
    /// A first deposit is smaller than one whole token.
    BelowMinimumDeposit,
    /// A partial withdrawal would leave no more than one whole token.
    InsufficientWithdrawalRemainder,
    /// The account holds no deposit of the token.
    NoDeposit,
    /// The token is not among those accepted as payment.
    UnknownToken,
    /// The token is already among those accepted as payment.
    TokenExists,
    /// A rate, discount or precision outside the accepted range.
    InvalidParameter,
    /// The signer may not call the method.
    NotAuthorized,
    /// A sum does not fit in 128 bits.
    Overflow,
    /// A step of an attempt arrives while no attempt waits for it.
    NotSettling,
    /// A request arrives while an earlier mint still waits to be settled.
    Unsettled,
    /// A callback for an attempt that has been resolved before.
    DuplicateCallback,
    /// A callback for an attempt that never was pending.
    UnexpectedCallback,
}

} // verus!
