//! Structured failure taxonomy shared by every engine.
//!
//! Each rejected operation reports one of four kinds — malformed input,
//! wrong principal, wrong state, or amount arithmetic that would wrap —
//! so a caller can distinguish "try again later" from "never valid"
//! without parsing a message string.

use vstd::prelude::*;

verus! {

/// Why an input was rejected as malformed or unsupported.
#[derive(Clone, Copy, Debug, PartialEq, Eq, Structural)]
pub enum ValidationKind {
    /// No funds accompanied an operation that needs them.
    NoFunds,
    /// The funds sent were zero.
    ZeroAmount,
    /// More than one denomination was sent at once.
    MultipleDenoms,
    /// The funds sent are not in the configured denomination.
    WrongDenom,
    /// The collection is not in the configured accepted set.
    UnsupportedCollection,
    /// The escrow is not the custodian of record for the asset.
    CustodyNotConfirmed,
    /// The synthetic-token amount returned differs from the configured rate.
    WrongPayment,
    /// The reward denomination is not a token-factory denomination.
    NotFactoryDenom,
    /// A collection with this address is already configured.
    DuplicateCollection,
    /// The paired lockup contract reported an unknown variant tag.
    InvalidLockupType,
    /// The distribution window would be empty or reversed.
    InvalidWindow,
}

/// Which principal check failed.
#[derive(Clone, Copy, Debug, PartialEq, Eq, Structural)]
pub enum AuthKind {
    /// The caller is not the configured admin.
    NotAdmin,
    /// The caller is not the principal the claim is for.
    NotClaimer,
    /// The caller is not the recorded owner of the locked asset.
    NotNftOwner,
}

/// Which state precondition failed.
#[derive(Clone, Copy, Debug, PartialEq, Eq, Structural)]
pub enum StateKind {
    /// No record exists for the addressed position.
    NotFound,
    /// The unlock time has not passed yet.
    StillLocked,
    /// The reward distribution window has not opened.
    NotStarted,
    /// The reward distribution window is over.
    Ended,
    /// A full distribution interval has not elapsed since the last claim.
    IntervalNotReached,
    /// The residual balance cannot be swept before the window closes.
    SweepTooEarly,
}

/// Amount arithmetic that would have wrapped or divided by zero.
#[derive(Clone, Copy, Debug, PartialEq, Eq, Structural)]
pub enum ArithmeticKind {
    Overflow,
    Underflow,
    DivideByZero,
}

/// A structured, terminal failure of one operation.
///
/// No engine retries internally and no partial state change survives a
/// failure: every fallible operation either returns `Ok` with its full
/// effect applied or returns one of these with the state untouched.
#[derive(Clone, Copy, Debug, PartialEq, Eq, Structural)]
pub enum ContractError {
    Validation(ValidationKind),
    Authorization(AuthKind),
    State(StateKind),
    Arithmetic(ArithmeticKind),
}

impl ContractError {
    /// The human-readable message for this failure.
    pub open spec fn spec_message(self) -> Seq<char> {
        match self {
            ContractError::Validation(ValidationKind::NoFunds) => "No funds sent"@,
            ContractError::Validation(ValidationKind::ZeroAmount) => "Funds sent must be greater than 0"@,
            ContractError::Validation(ValidationKind::MultipleDenoms) => "Only one token type can be sent"@,
            ContractError::Validation(ValidationKind::WrongDenom) => "Unsupported token sent"@,
            ContractError::Validation(ValidationKind::UnsupportedCollection) => "Collection is not supported"@,
            ContractError::Validation(ValidationKind::CustodyNotConfirmed) => "Token was not transferred to contract"@,
            ContractError::Validation(ValidationKind::WrongPayment) => "Incorrect amount of funds sent"@,
            ContractError::Validation(ValidationKind::NotFactoryDenom) => "Denom must be a token factory token"@,
            ContractError::Validation(ValidationKind::DuplicateCollection) => "Collection already exists"@,
            ContractError::Validation(ValidationKind::InvalidLockupType) => "Invalid lockup contract type"@,
            ContractError::Validation(ValidationKind::InvalidWindow) => "End time must be after start time"@,
            ContractError::Authorization(AuthKind::NotAdmin) => "Unauthorized"@,
            ContractError::Authorization(AuthKind::NotClaimer) => "Unauthorized"@,
            ContractError::Authorization(AuthKind::NotNftOwner) => "Sender is not the owner of the NFT"@,
            ContractError::State(StateKind::NotFound) => "Lockup entry not found"@,
            ContractError::State(StateKind::StillLocked) => "Lockup period has not passed"@,
            ContractError::State(StateKind::NotStarted) => "Reward distribution period has not started"@,
            ContractError::State(StateKind::Ended) => "Reward distribution period has ended"@,
            ContractError::State(StateKind::IntervalNotReached) => "Distribution interval not reached"@,
            ContractError::State(StateKind::SweepTooEarly) => "End time has not been reached"@,
            ContractError::Arithmetic(ArithmeticKind::Overflow) => "Amount arithmetic overflowed"@,
            ContractError::Arithmetic(ArithmeticKind::Underflow) => "Amount arithmetic underflowed"@,
            ContractError::Arithmetic(ArithmeticKind::DivideByZero) => "Division by zero in reward arithmetic"@,
        }
    }

    /// The human-readable message, as the host would surface it.
    pub fn message(&self) -> (r: String)
        ensures
            r@ == self.spec_message(),
    {
        match self {
            ContractError::Validation(ValidationKind::NoFunds) => String::from_str("No funds sent"),
            ContractError::Validation(ValidationKind::ZeroAmount) => String::from_str("Funds sent must be greater than 0"),
            ContractError::Validation(ValidationKind::MultipleDenoms) => String::from_str("Only one token type can be sent"),
            ContractError::Validation(ValidationKind::WrongDenom) => String::from_str("Unsupported token sent"),
            ContractError::Validation(ValidationKind::UnsupportedCollection) => String::from_str("Collection is not supported"),
            ContractError::Validation(ValidationKind::CustodyNotConfirmed) => String::from_str("Token was not transferred to contract"),
            ContractError::Validation(ValidationKind::WrongPayment) => String::from_str("Incorrect amount of funds sent"),
            ContractError::Validation(ValidationKind::NotFactoryDenom) => String::from_str("Denom must be a token factory token"),
            ContractError::Validation(ValidationKind::DuplicateCollection) => String::from_str("Collection already exists"),
            ContractError::Validation(ValidationKind::InvalidLockupType) => String::from_str("Invalid lockup contract type"),
            ContractError::Validation(ValidationKind::InvalidWindow) => String::from_str("End time must be after start time"),
            ContractError::Authorization(AuthKind::NotAdmin) => String::from_str("Unauthorized"),
            ContractError::Authorization(AuthKind::NotClaimer) => String::from_str("Unauthorized"),
            ContractError::Authorization(AuthKind::NotNftOwner) => String::from_str("Sender is not the owner of the NFT"),
            ContractError::State(StateKind::NotFound) => String::from_str("Lockup entry not found"),
            ContractError::State(StateKind::StillLocked) => String::from_str("Lockup period has not passed"),
            ContractError::State(StateKind::NotStarted) => String::from_str("Reward distribution period has not started"),
            ContractError::State(StateKind::Ended) => String::from_str("Reward distribution period has ended"),
            ContractError::State(StateKind::IntervalNotReached) => String::from_str("Distribution interval not reached"),
            ContractError::State(StateKind::SweepTooEarly) => String::from_str("End time has not been reached"),
            ContractError::Arithmetic(ArithmeticKind::Overflow) => String::from_str("Amount arithmetic overflowed"),
            ContractError::Arithmetic(ArithmeticKind::Underflow) => String::from_str("Amount arithmetic underflowed"),
            ContractError::Arithmetic(ArithmeticKind::DivideByZero) => String::from_str("Division by zero in reward arithmetic"),
        }
    }
}

} // verus!
