//! Shared data-model types of the ledger.

use vstd::prelude::*;

verus! {

/// Identifier of a coin.  Ids are allocated densely starting at 0.
pub type CoinId = u32;

/// Metadata stored for one coin.
#[derive(Clone, PartialEq, Eq, Debug)]
pub struct CoinInfo<Symbol, Name, AccountId, Balance, FeeConfig> {
    /// The coin symbol (e.g., "BTC", "ETH").
    pub symbol: Symbol,
    /// The coin name (e.g., "Bitcoin", "Ethereum").
    pub name: Name,
    /// Number of decimal places.
    pub decimals: u8,
    /// The account that owns this coin.
    pub owner: AccountId,
    /// Deposit paid for creating this coin.
    pub deposit: Balance,
    /// Fee configuration of this coin.
    pub fee_config: FeeConfig,
}

/// Fee configuration for a coin.
#[derive(Clone, Copy, PartialEq, Eq, Debug, Default)]
pub struct FeeConfig {
    /// Fee charged per transfer, destroyed from total supply.
    pub transfer_fee: u128,
    /// Floor a sender's balance must retain after a transfer.
    pub minimum_balance: u128,
    /// Whether this coin may be used to pay the cost of an operation.
    pub can_pay_tx_fees: bool,
}

/// Coin creation parameters.
#[derive(Clone, PartialEq, Eq, Debug)]
pub struct CreateCoinParams {
    /// The coin symbol.
    pub symbol: Vec<u8>,
    /// The coin name.
    pub name: Vec<u8>,
    /// Number of decimal places.
    pub decimals: u8,
    /// Initial supply to mint to the creator.
    pub initial_supply: u128,
}

/// Transfer parameters.
#[derive(Clone, PartialEq, Eq, Debug)]
pub struct TransferParams<AccountId> {
    /// The coin to transfer.
    pub coin_id: CoinId,
    /// The recipient.
    pub to: AccountId,
    /// The amount to transfer.
    pub amount: u128,
}

/// Mint parameters.
#[derive(Clone, PartialEq, Eq, Debug)]
pub struct MintParams<AccountId> {
    /// The coin to mint.
    pub coin_id: CoinId,
    /// The account to mint to.
    pub to: AccountId,
    /// The amount to mint.
    pub amount: u128,
}

/// Burn parameters.
#[derive(Clone, PartialEq, Eq, Debug)]
pub struct BurnParams {
    /// The coin to burn.
    pub coin_id: CoinId,
    /// The amount to burn.
    pub amount: u128,
}

/// Balance information for an account in the native asset.
#[derive(Clone, Copy, PartialEq, Eq, Debug, Default)]
pub struct AccountBalance {
    /// Free balance.
    pub free: u128,
    /// Reserved balance.
    pub reserved: u128,
    /// Frozen balance.
    pub frozen: u128,
}

impl AccountBalance {
    /// The total balance (free + reserved), saturating at the maximum.
    pub fn total(&self) -> (r: u128)
        ensures
            r == if self.free + self.reserved > u128::MAX {
                u128::MAX
            } else {
                (self.free + self.reserved) as u128
            },
    {
        if self.free <= u128::MAX - self.reserved {
            self.free + self.reserved
        } else {
            u128::MAX
        }
    }

    /// The usable balance (free - frozen), saturating at zero.
    pub fn usable(&self) -> (r: u128)
        ensures
            r == if self.free >= self.frozen {
                (self.free - self.frozen) as u128
            } else {
                0u128
            },
    {
        if self.free >= self.frozen {
            self.free - self.frozen
        } else {
            0
        }
    }
}

/// Coin statistics.
#[derive(Clone, Copy, PartialEq, Eq, Debug, Default)]
pub struct CoinStats {
    /// Total supply.
    pub total_supply: u128,
    /// Number of holders.
    pub holders: u32,
    /// Number of transfers.
    pub transfers: u64,
    /// Total minted.
    pub total_minted: u128,
    /// Total burned.
    pub total_burned: u128,
}

/// Role permissions for a coin.
#[derive(Clone, Copy, PartialEq, Eq, Debug, Default)]
pub struct CoinPermissions {
    /// Can mint new coins.
    pub can_mint: bool,
    /// Can burn coins.
    pub can_burn: bool,
    /// Can modify metadata.
    pub can_modify_metadata: bool,
    /// Can transfer ownership.
    pub can_transfer_ownership: bool,
}

/// Transfer fee schedule.
#[derive(Clone, Copy, PartialEq, Eq, Debug, Default)]
pub struct TransferFeeConfig {
    /// Fixed fee per transfer.
    pub fixed_fee: u128,
    /// Percentage fee (in basis points, 10000 = 100%).
    pub percentage_fee: u16,
    /// Minimum fee.
    pub minimum_fee: u128,
    /// Maximum fee.
    pub maximum_fee: u128,
}

/// An operation value that names the coin in which its execution cost
/// should be settled.  The hosting environment implements this for its
/// own operation representation and hands the resolved choice to the
/// fee-settlement functions as a plain `Option<CoinId>`.
pub trait CallWithFeeCoin {
    /// The fee coin this operation asks for, if any.
    fn fee_coin(&self) -> Option<CoinId>;
}

} // verus!
