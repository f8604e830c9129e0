//! Settlement of an operation's execution cost in a chosen coin.
//!
//! The hosting environment settles the cost of every operation outside
//! the ledger calls themselves: it first asks whether the payer can
//! cover the fee, then charges it irrevocably, and after the operation
//! refunds any overcharge.  The asset is resolved from the operation's
//! explicit fee-coin choice (carried alongside the operation by its
//! caller), falling back to the payer's stored preference, and finally
//! to the native asset.  The native asset itself lives with the host:
//! its free balance comes in as a plain value, and a charge or refund
//! in it goes back out as a directive the host performs.

use vstd::prelude::*;
use crate::ledger::Ledger;
use crate::model::{balance_get, balance_set, coin_sum, lemma_lookup_le_sum};
use crate::types::CoinId;

verus! {

/// Failure of fee settlement: the payment is invalid.
#[derive(Clone, Copy, PartialEq, Eq, Debug)]
pub enum FeeError {
    /// The fee cannot be paid as requested.
    Payment,
}

/// Receipt of an irrevocable fee charge.  A refund must go back into
/// the same asset, so the receipt records payer, chosen asset (`None`
/// for the native asset) and the amount charged.
#[derive(Clone, Copy, PartialEq, Eq, Debug)]
pub struct FeeReceipt {
    /// The account that paid.
    pub payer: u64,
    /// The coin the fee was charged in, or `None` for the native asset.
    pub fee_coin: Option<CoinId>,
    /// The amount charged.
    pub amount: u128,
}

/// A credit the host must create in the native asset.
#[derive(Clone, Copy, PartialEq, Eq, Debug)]
pub struct NativeRefund {
    /// The account to credit.
    pub account: u64,
    /// The amount to credit.
    pub amount: u128,
}

impl Ledger {
    /// The fee coin an operation resolves to for `who`: its explicit
    /// choice when present, else the payer's stored preference, else
    /// none (the native asset).
    pub open spec fn spec_resolved_fee_coin(
        self,
        call_fee_coin: Option<CoinId>,
        who: u64,
    ) -> Option<CoinId> {
        match call_fee_coin {
            Option::Some(c) => Some(c),
            Option::None => self.spec_preferred(who),
        }
    }

    /// Whether `who` can pay `fee` in the resolved asset: a ledger coin
    /// must exist, be fee-eligible and hold a sufficient balance; the
    /// native asset must hold a sufficient free balance.
    pub open spec fn spec_fee_payable(
        self,
        who: u64,
        resolved: Option<CoinId>,
        fee: u128,
        native_free: u128,
    ) -> bool {
        match resolved {
            Option::Some(c) => self.fee_eligible(c) && self.spec_balance(c, who) >= fee,
            Option::None => native_free >= fee,
        }
    }

    /// Resolves the fee coin for an operation run by `who`.
    pub fn determine_fee_coin(&self, call_fee_coin: Option<CoinId>, who: u64) -> (r: Option<
        CoinId,
    >)
        requires
            self.wf(),
        ensures
            r == self.spec_resolved_fee_coin(call_fee_coin, who),
    {
        match call_fee_coin {
            Option::Some(c) => Some(c),
            Option::None => self.get_preferred_fee_coin(&who),
        }
    }

    /// Read-only check that `who` could pay `fee` in the resolved
    /// asset.  `native_free` is the payer's free native balance as the
    /// host read it.
    pub fn can_withdraw_fee(
        &self,
        who: u64,
        call_fee_coin: Option<CoinId>,
        fee: u128,
        native_free: u128,
    ) -> (r: Result<(), FeeError>)
        requires
            self.wf(),
        ensures
            r is Ok <==> self.spec_fee_payable(
                who,
                self.spec_resolved_fee_coin(call_fee_coin, who),
                fee,
                native_free,
            ),
            r is Err ==> r == Err::<(), FeeError>(FeeError::Payment),
    {
        let selected = self.determine_fee_coin(call_fee_coin, who);
        match selected {
            Option::Some(coin_id) => {
                if !((coin_id as usize) < self.coin_metadata.len()) {
                    return Err(FeeError::Payment);
                }
                if !self.coin_metadata[coin_id as usize].fee_config.can_pay_tx_fees {
                    return Err(FeeError::Payment);
                }
                let current_balance = balance_get(&self.balances, coin_id, who);
                if current_balance < fee {
                    return Err(FeeError::Payment);
                }
                Ok(())
            },
            Option::None => {
                if native_free < fee {
                    return Err(FeeError::Payment);
                }
                Ok(())
            },
        }
    }

    /// Irrevocably charges `fee` from `who` in the resolved asset.  For
    /// a ledger coin the charge is destroyed: the balance and the total
    /// supply both drop by `fee`.  For the native asset nothing here
    /// changes; the returned receipt names no coin and the host must
    /// perform the withdrawal itself.  Fails, changing nothing, exactly
    /// when the fee is not payable.
    pub fn withdraw_fee(
        &mut self,
        who: u64,
        call_fee_coin: Option<CoinId>,
        fee: u128,
        native_free: u128,
    ) -> (r: Result<FeeReceipt, FeeError>)
        requires
            old(self).wf(),
        ensures
            final(self).wf(),
            ({
                let resolved = old(self).spec_resolved_fee_coin(call_fee_coin, who);
                if old(self).spec_fee_payable(who, resolved, fee, native_free) {
                    &&& r == Ok::<FeeReceipt, FeeError>(
                        FeeReceipt { payer: who, fee_coin: resolved, amount: fee },
                    )
                    &&& match resolved {
                        Option::Some(c) => {
                            &&& final(self).spec_balance(c, who) as int == old(self).spec_balance(
                                c,
                                who,
                            ) - fee
                            &&& forall|c2: CoinId, a: u64|
                                !(c2 == c && a == who) ==> #[trigger] final(self).spec_balance(
                                    c2,
                                    a,
                                ) == old(self).spec_balance(c2, a)
                            &&& final(self).spec_supply(c) as int == old(self).spec_supply(c) - fee
                            &&& forall|c2: CoinId|
                                (c2 as int) < old(self).coin_count() && c2 != c ==> #[trigger]
                                    final(self).spec_supply(c2) == old(self).spec_supply(c2)
                            &&& final(self).coin_metadata@ == old(self).coin_metadata@
                            &&& final(self).mint_permissions@ == old(self).mint_permissions@
                            &&& final(self).burn_permissions@ == old(self).burn_permissions@
                            &&& final(self).preferred_fee_coin@ == old(self).preferred_fee_coin@
                            &&& final(self).minted_cumulative@ == old(self).minted_cumulative@
                            &&& final(self).burned_cumulative@ == old(self).burned_cumulative@
                            &&& final(self).fee_burned_cumulative@ == old(self).fee_burned_cumulative@.update(
                                c as int,
                                old(self).fee_burned_cumulative@[c as int] + fee,
                            )
                        },
                        Option::None => *final(self) == *old(self),
                    }
                } else {
                    r == Err::<FeeReceipt, FeeError>(FeeError::Payment) && *final(self) == *old(self)
                }
            }),
    {
        let selected = self.determine_fee_coin(call_fee_coin, who);
        match selected {
            Option::Some(coin_id) => {
                if !((coin_id as usize) < self.coin_metadata.len()) {
                    return Err(FeeError::Payment);
                }
                if !self.coin_metadata[coin_id as usize].fee_config.can_pay_tx_fees {
                    return Err(FeeError::Payment);
                }
                let current_balance = balance_get(&self.balances, coin_id, who);
                if current_balance < fee {
                    return Err(FeeError::Payment);
                }
                proof {
                    lemma_lookup_le_sum(self.balances@, coin_id, who);
                }
                let new_balance = current_balance - fee;
                let current_supply = self.total_supply[coin_id as usize];
                let new_supply = if current_supply >= fee {
                    current_supply - fee
                } else {
                    0
                };
                let ghost pre = *self;
                balance_set(&mut self.balances, coin_id, who, new_balance);
                self.total_supply[coin_id as usize] = new_supply;
                proof {
                    self.fee_burned_cumulative@ = self.fee_burned_cumulative@.update(
                        coin_id as int,
                        self.fee_burned_cumulative@[coin_id as int] + fee,
                    );
                    assert forall|c: CoinId| (c as int) < self.coin_count() implies #[trigger]
                        coin_sum(self.balances@, c) == self.spec_supply(c) as int by {
                        assert(coin_sum(pre.balances@, c) == pre.spec_supply(c) as int);
                    }
                    assert forall|c: CoinId| (c as int) < self.coin_count() implies
                        self.minted_cumulative@[c as int] - self.burned_cumulative@[c as int]
                        - self.fee_burned_cumulative@[c as int] == #[trigger] self.spec_supply(
                        c,
                    ) as int by {
                        assert(pre.minted_cumulative@[c as int] - pre.burned_cumulative@[c as int]
                            - pre.fee_burned_cumulative@[c as int] == pre.spec_supply(c) as int);
                    }
                }
                Ok(FeeReceipt { payer: who, fee_coin: Some(coin_id), amount: fee })
            },
            Option::None => {
                if native_free < fee {
                    return Err(FeeError::Payment);
                }
                Ok(FeeReceipt { payer: who, fee_coin: None, amount: fee })
            },
        }
    }

    /// Refunds the overcharge recorded by a receipt once the corrected
    /// fee is known.  For a ledger coin the refund re-creates balance
    /// and supply; for the native asset the returned directive tells
    /// the host what credit to create.  A receipt of `None` (no charge
    /// was taken) refunds nothing.
    ///
    /// The receipt must come from `withdraw_fee` on this ledger, so a
    /// coin it names exists.
    pub fn correct_and_deposit_fee(
        &mut self,
        receipt: Option<FeeReceipt>,
        corrected_fee: u128,
    ) -> (r: Result<Option<NativeRefund>, FeeError>)
        requires
            old(self).wf(),
            match receipt {
                Some(rec) => match rec.fee_coin {
                    Some(c) => old(self).coin_exists(c),
                    None => true,
                },
                None => true,
            },
        ensures
            final(self).wf(),
            match receipt {
                None => r == Ok::<Option<NativeRefund>, FeeError>(None) && *final(self) == *old(self),
                Some(rec) => {
                    if corrected_fee >= rec.amount {
                        r == Ok::<Option<NativeRefund>, FeeError>(None) && *final(self) == *old(self)
                    } else {
                        let refund = rec.amount - corrected_fee;
                        match rec.fee_coin {
                            Option::None => r == Ok::<Option<NativeRefund>, FeeError>(
                                Some(NativeRefund { account: rec.payer, amount: refund as u128 }),
                            ) && *final(self) == *old(self),
                            Option::Some(c) => {
                                if old(self).spec_balance(c, rec.payer) + refund > u128::MAX || old(self).spec_supply(c) + refund > u128::MAX {
                                    r == Err::<Option<NativeRefund>, FeeError>(FeeError::Payment)
                                        && *final(self) == *old(self)
                                } else {
                                    &&& r == Ok::<Option<NativeRefund>, FeeError>(None)
                                    &&& final(self).spec_balance(c, rec.payer) as int == old(self).spec_balance(c, rec.payer) + refund
                                    &&& forall|c2: CoinId, a: u64|
                                        !(c2 == c && a == rec.payer) ==> #[trigger] final(self).spec_balance(c2, a) == old(self).spec_balance(c2, a)
                                    &&& final(self).spec_supply(c) as int == old(self).spec_supply(
                                        c,
                                    ) + refund
                                    &&& forall|c2: CoinId|
                                        (c2 as int) < old(self).coin_count() && c2 != c
                                            ==> #[trigger] final(self).spec_supply(c2) == old(self).spec_supply(c2)
                                    &&& final(self).coin_metadata@ == old(self).coin_metadata@
                                    &&& final(self).mint_permissions@ == old(self).mint_permissions@
                                    &&& final(self).burn_permissions@ == old(self).burn_permissions@
                                    &&& final(self).preferred_fee_coin@ == old(self).preferred_fee_coin@
                                    &&& final(self).minted_cumulative@ == old(self).minted_cumulative@
                                    &&& final(self).burned_cumulative@ == old(self).burned_cumulative@
                                    &&& final(self).fee_burned_cumulative@ == old(self).fee_burned_cumulative@.update(
                                        c as int,
                                        old(self).fee_burned_cumulative@[c as int] - refund,
                                    )
                                }
                            },
                        }
                    }
                },
            },
    {
        let rec = match receipt {
            Some(rec) => rec,
            None => {
                return Ok(None);
            },
        };
        if corrected_fee >= rec.amount {
            return Ok(None);
        }
        let refund = rec.amount - corrected_fee;
        let coin_id = match rec.fee_coin {
            Some(c) => c,
            None => {
                return Ok(Some(NativeRefund { account: rec.payer, amount: refund }));
            },
        };
        let current_balance = balance_get(&self.balances, coin_id, rec.payer);
        let new_balance = match current_balance.checked_add(refund) {
            Some(b) => b,
            None => {
                return Err(FeeError::Payment);
            },
        };
        let current_supply = self.total_supply[coin_id as usize];
        let new_supply = match current_supply.checked_add(refund) {
            Some(s) => s,
            None => {
                return Err(FeeError::Payment);
            },
        };
        let ghost pre = *self;
        balance_set(&mut self.balances, coin_id, rec.payer, new_balance);
        self.total_supply[coin_id as usize] = new_supply;
        proof {
            self.fee_burned_cumulative@ = self.fee_burned_cumulative@.update(
                coin_id as int,
                self.fee_burned_cumulative@[coin_id as int] - refund,
            );
            assert forall|c: CoinId| (c as int) < self.coin_count() implies #[trigger] coin_sum(
                self.balances@,
                c,
            ) == self.spec_supply(c) as int by {
                assert(coin_sum(pre.balances@, c) == pre.spec_supply(c) as int);
            }
            assert forall|c: CoinId| (c as int) < self.coin_count() implies
                self.minted_cumulative@[c as int] - self.burned_cumulative@[c as int]
                - self.fee_burned_cumulative@[c as int] == #[trigger] self.spec_supply(c) as int by {
                assert(pre.minted_cumulative@[c as int] - pre.burned_cumulative@[c as int]
                    - pre.fee_burned_cumulative@[c as int] == pre.spec_supply(c) as int);
            }
        }
        Ok(None)
    }
}

} // verus!
