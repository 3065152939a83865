use vstd::prelude::*;
use vstd::string::StringExecFns;

use crate::error::ContractError;

verus! {

/// The message carried by cw20 tokens sent to the red bank.
#[derive(Debug, Clone)]
pub enum ReceiveMsg {
    /// maTokens sent back to be burnt for the underlying asset.
    Redeem,
    /// Tokens deposited into their reserve.
    DepositCw20,
    /// Tokens repaying the sender's debt in them.
    RepayCw20,
    /// Tokens repaying another user's debt in a liquidation.
    LiquidateCw20 {
        /// The collateral asset to liquidate (its denom or token address).
        collateral_asset: String,
        /// The token that must be the one sent.
        debt_asset_address: String,
        user_address: String,
        receive_ma_token: bool,
    },
}

/// What the red bank does with cw20 tokens it received.
#[derive(Debug, Clone)]
pub enum ReceiveAction {
    /// Burn `amount` maTokens of the reserve `reference` for `redeemer`.
    Redeem { reference: Vec<u8>, redeemer: String, amount: u128 },
    /// Deposit `amount` of the token `asset` for `depositor`.
    Deposit { depositor: String, asset: String, amount: u128 },
    /// Repay `amount` of the token `asset` for `repayer`.
    Repay { repayer: String, asset: String, amount: u128 },
    /// Liquidate `user` with `amount` of the debt token `debt_asset`.
    Liquidate {
        liquidator: String,
        collateral_asset: String,
        debt_asset: String,
        user: String,
        amount: u128,
        receive_ma_token: bool,
    },
}

/// The message of the error for a liquidation paid in another token than its debt asset.
pub open spec fn incorrect_asset_message(debt_asset: Seq<char>) -> Seq<char> {
    "Incorrect asset, must send "@ + debt_asset + " in order to liquidate"@
}

/// Decides what to do with `amount` tokens of the contract `token` that `sender` sent to the
/// red bank with `msg`. A redemption is accepted only from a reserve's maToken, whose
/// reserve is `ma_token_reference`; a liquidation only in its debt token; a transfer with
/// no message is refused.
pub fn receive_cw20(
    token: &String,
    sender: String,
    amount: u128,
    msg: Option<ReceiveMsg>,
    ma_token_reference: Option<Vec<u8>>,
) -> (r: Result<ReceiveAction, ContractError>)
    ensures
        match msg {
            None => r matches Err(ContractError::Generic { msg: m }) && m@ == "Invalid Cw20ReceiveMsg"@,
            Some(ReceiveMsg::Redeem) => match ma_token_reference {
                Some(reference) => r == Ok::<ReceiveAction, ContractError>(
                    ReceiveAction::Redeem { reference, redeemer: sender, amount },
                ),
                None => r == Err::<ReceiveAction, ContractError>(ContractError::Unauthorized),
            },
            Some(ReceiveMsg::DepositCw20) => r == Ok::<ReceiveAction, ContractError>(
                ReceiveAction::Deposit { depositor: sender, asset: *token, amount },
            ),
            Some(ReceiveMsg::RepayCw20) => r == Ok::<ReceiveAction, ContractError>(
                ReceiveAction::Repay { repayer: sender, asset: *token, amount },
            ),
            Some(
                ReceiveMsg::LiquidateCw20 {
                    collateral_asset,
                    debt_asset_address,
                    user_address,
                    receive_ma_token,
                },
            ) => if token@ != debt_asset_address@ {
                r matches Err(ContractError::Generic { msg: m }) && m@ == incorrect_asset_message(
                    debt_asset_address@,
                )
            } else {
                r == Ok::<ReceiveAction, ContractError>(
                    ReceiveAction::Liquidate {
                        liquidator: sender,
                        collateral_asset,
                        debt_asset: debt_asset_address,
                        user: user_address,
                        amount,
                        receive_ma_token,
                    },
                )
            },
        },
{
    match msg {
        None => Err(ContractError::generic_err("Invalid Cw20ReceiveMsg")),
        Some(ReceiveMsg::Redeem) => match ma_token_reference {
            Some(reference) => Ok(ReceiveAction::Redeem { reference, redeemer: sender, amount }),
            None => Err(ContractError::Unauthorized),
        },
        Some(ReceiveMsg::DepositCw20) => Ok(
            ReceiveAction::Deposit { depositor: sender, asset: token.clone(), amount },
        ),
        Some(ReceiveMsg::RepayCw20) => Ok(
            ReceiveAction::Repay { repayer: sender, asset: token.clone(), amount },
        ),
        Some(
            ReceiveMsg::LiquidateCw20 {
                collateral_asset,
                debt_asset_address,
                user_address,
                receive_ma_token,
            },
        ) => {
            if *token != debt_asset_address {
                let mut m = String::from_str("Incorrect asset, must send ");
                m.append(debt_asset_address.as_str());
                m.append(" in order to liquidate");
                return Err(ContractError::Generic { msg: m });
            }
            Ok(
                ReceiveAction::Liquidate {
                    liquidator: sender,
                    collateral_asset,
                    debt_asset: debt_asset_address,
                    user: user_address,
                    amount,
                    receive_ma_token,
                },
            )
        },
    }
}

} // verus!
