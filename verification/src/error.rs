use vstd::prelude::*;

verus! {

/// Errors returned by the library's decision functions. Each variant is one failure
/// that a contract reports to its caller; variants that carry a label or an amount
/// keep it so that the message can be rendered as the contract renders it.
#[derive(Debug, PartialEq, Eq)]
pub enum ContractError {
    /// The sender may not perform the action.
    Unauthorized,
    /// An arithmetic operation under- or overflowed.
    Overflow,
    /// A bitmap index is 128 or more ("index out of range").
    IndexOutOfRange,
    /// Insurance and treasury fee shares add up to more than one.
    InvalidFeeShareAmounts,
    /// An asset reserve already exists for the asset ("Asset already initialized").
    AssetAlreadyInitialized,
    /// The amount sent to a handler is zero.
    InvalidZeroAmount { action: Action, asset: String },
    /// The liquidity index of a reserve is zero.
    ZeroLiquidityIndex,
    /// "Redeem amount exceeds contract balance".
    RedeemExceedsContractBalance,
    /// "Liquidity taken cannot be greater than available liquidity".
    LiquidityTakenExceedsAvailable,
    /// "address has no collateral deposited".
    NoCollateralDeposited,
    /// "borrow amount exceeds maximum allowed given current collateral value".
    BorrowExceedsCollateral,
    /// "borrow amount exceeds uncollateralized loan limit given existing debt".
    BorrowExceedsUncollateralizedLimit,
    /// "asset price for {asset} not found".
    PriceNotFound { asset: String },
    /// "Cannot repay 0 debt".
    CannotRepayZeroDebt,
    /// "Amount to repay is greater than total debt".
    RepayExceedsTotalDebt,
    /// The user holds a positive uncollateralized loan limit and cannot be liquidated.
    LiquidationUncollateralizedUser,
    /// The user has no balance in the collateral asset.
    LiquidationNoCollateralBalance,
    /// The user has no debt in the debt asset.
    LiquidationNoDebtInAsset,
    /// The user has no debt at all.
    LiquidationNotBorrowing,
    /// The user's health factor is not below one.
    LiquidationHealthy,
    /// The contract lacks the collateral liquidity to pay out the underlying asset.
    LiquidationNotEnoughLiquidity,
    /// A transfer would leave the sender with a health factor below one.
    TransferHealthFactorTooLow,
    /// A user record expected in storage is missing.
    UserNotFound,
    /// A debt record expected in storage is missing.
    DebtNotFound,
    /// Only the Mars token can be deposited to create an allocation.
    InvalidTokenDeposit,
    /// Data already exists for the account.
    DataAlreadyExists { user_address: String },
    /// "price source is not TWAP".
    PriceSourceNotTwap,
    /// "snapshot taken too frequently".
    SnapshotTakenTooFrequently,
    /// "no TWAP snapshot within tolerance".
    NoTwapSnapshotWithinTolerance,
    /// "invalid pair".
    InvalidPair,
    /// "No native price found".
    NoNativePriceFound,
    /// A proposal was refused at submission; `error` says why.
    InvalidProposal { error: String },
    /// The deposit sent with a proposal is below the required deposit.
    InsufficientProposalDeposit { required: u128 },
    /// "Proposal is not active".
    ProposalNotActive,
    /// "Cannot vote on an expired proposal".
    VoteProposalExpired,
    /// "User has already voted on this proposal".
    VoteUserAlreadyVoted,
    /// The voter had no voting power at `block`.
    VoteNoVotingPower { block: u64 },
    /// "Voting period has not ended".
    EndVotingPeriodNotEnded,
    /// A passed proposal cannot be executed before its delay period ends.
    ExecuteProposalDelayNotEnded,
    /// A token amount of zero was given ("Invalid zero amount").
    ZeroAmount,
    /// Minting would take the supply above the cap ("Minting cannot exceed the cap").
    CannotExceedCap,
    /// The asset is not enabled for distribution.
    AssetNotEnabled { label: String },
    /// The amount to distribute is above the available balance.
    AmountTooLarge { amount: u128, balance: u128 },
    /// Nothing is stored for `kind` ("{kind} not found").
    NotFound { kind: String },
    /// Staking has been switched off.
    StakingNotAllowed,
    /// Any other generic error, carrying its message.
    Generic { msg: String },
}

/// `r` failed with a `Generic` error whose message is `m`.
pub open spec fn is_generic_err<T>(r: Result<T, ContractError>, m: Seq<char>) -> bool {
    r matches Err(ContractError::Generic { msg }) && msg@ == m
}

/// `r` failed with an `InvalidProposal` error whose reason is `m`.
pub open spec fn is_invalid_proposal_err<T>(r: Result<T, ContractError>, m: Seq<char>) -> bool {
    r matches Err(ContractError::InvalidProposal { error }) && error@ == m
}

impl ContractError {
    /// An `InvalidProposal` error with the given reason.
    pub fn invalid_proposal(error: &str) -> (e: ContractError)
        ensures
            e matches ContractError::InvalidProposal { error: m } && m@ == error@,
    {
        ContractError::InvalidProposal { error: error.to_owned() }
    }

    /// A `Generic` error with the given message.
    pub fn generic_err(msg: &str) -> (e: ContractError)
        ensures
            e matches ContractError::Generic { msg: m } && m@ == msg@,
    {
        ContractError::Generic { msg: msg.to_owned() }
    }
}

/// The handler whose zero amount was rejected.
#[derive(Debug, Clone, Copy, PartialEq, Eq, Structural)]
pub enum Action {
    Deposit,
    Borrow,
    Repay,
    Liquidate,
}

} // verus!
