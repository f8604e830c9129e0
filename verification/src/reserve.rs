//! The reserve workflow: a deposit/withdrawal request state machine
//! bridging off-ledger collateral to on-ledger native supply.
//!
//! A request is stored under a fresh id drawn from a monotonic counter,
//! starts Pending and moves exactly once to a terminal state.  The
//! funds themselves move in the native asset, which the hosting
//! environment owns: the user's free balance comes in as a plain value,
//! and every transfer or withdrawal to perform goes back out in the
//! returned notification, which the host executes inside the same
//! atomic scope.

use vstd::prelude::*;
use crate::model::{
    assoc_find, assoc_has_key, assoc_insert_new, assoc_keys_lt, assoc_lookup,
    lemma_assoc_lookup_absent, lemma_assoc_lookup_at, lemma_assoc_update_at,
    unique_assoc_keys,
};

verus! {

/// A request index of one account holds at most this many entries;
/// past the cap the submitting operation fails outright.
pub const MAX_REQUESTS_PER_ACCOUNT: usize = 100;

/// Reasons a reserve operation can fail.
#[derive(Clone, Copy, PartialEq, Eq, Debug)]
pub enum Error {
    /// Request not found.
    RequestNotFound,
    /// Only validators can approve/reject.
    NotAuthorized,
    /// Request already processed.
    AlreadyProcessed,
    /// Invalid amount.
    InvalidAmount,
    /// Insufficient balance for withdrawal.
    InsufficientBalance,
    /// Invalid ratio.
    InvalidRatio,
    /// Arithmetic overflow.
    ArithmeticOverflow,
    /// Data too long.
    DataTooLong,
    /// User cannot approve own request.
    CannotApproveOwnRequest,
}

/// Status of a deposit request.
#[derive(Clone, Copy, PartialEq, Eq, Debug)]
pub enum DepositStatus {
    Pending,
    Approved,
    Rejected,
}

/// Status of a withdrawal request.
#[derive(Clone, Copy, PartialEq, Eq, Debug)]
pub enum WithdrawalStatus {
    Pending,
    Completed,
    Rejected,
}

/// A deposit request: external collateral waiting to be honoured with
/// native funds from the custody account.
#[derive(Clone, PartialEq, Eq, Debug)]
pub struct DepositRequest {
    /// Account that submitted the request.
    pub submitter: u64,
    /// Account that will receive the native funds.
    pub recipient: u64,
    /// External transaction reference.
    pub external_tx_id: Vec<u8>,
    /// External wallet the collateral came from.
    pub external_wallet: Vec<u8>,
    /// Name tag of the external coin.
    pub coin_name: Vec<u8>,
    /// Amount deposited in the external coin.
    pub external_amount: u128,
    /// Exchange ratio (external value to native value).
    pub ratio: u128,
    /// Native amount computed as external amount times ratio.
    pub native_amount: u128,
    /// Current status.
    pub status: DepositStatus,
    /// Block height when submitted.
    pub submitted_at: u64,
    /// Validator who approved, if any.
    pub approved_by: Option<u64>,
}

/// A withdrawal request: native funds to be released as external
/// collateral.
#[derive(Clone, PartialEq, Eq, Debug)]
pub struct WithdrawalRequest {
    /// User requesting the withdrawal.
    pub user: u64,
    /// External wallet to receive the funds.
    pub external_wallet: Vec<u8>,
    /// Name tag of the external coin.
    pub coin_name: Vec<u8>,
    /// Amount of native funds to withdraw.
    pub native_amount: u128,
    /// External amount computed as native amount divided by ratio.
    pub external_amount: u128,
    /// Exchange ratio at the time of the request.
    pub ratio: u128,
    /// Current status.
    pub status: WithdrawalStatus,
    /// Block height when submitted.
    pub submitted_at: u64,
    /// Processor who completed the withdrawal, if any.
    pub processed_by: Option<u64>,
}

/// Notifications a reserve operation emits on success.  The approval
/// and completion notifications double as the host's directive: on
/// approval the host transfers the native amount from the custody
/// account to the user, on completion it withdraws it from the user.
#[derive(Clone, PartialEq, Eq, Debug)]
pub enum Event {
    /// A user submitted a deposit request.
    DepositRequested {
        request_id: u64,
        submitter: u64,
        recipient: u64,
        external_tx_id: Vec<u8>,
        external_wallet: Vec<u8>,
        coin_name: Vec<u8>,
        external_amount: u128,
        native_amount: u128,
    },
    /// A validator approved a deposit.
    DepositApproved { request_id: u64, user: u64, validator: u64, native_amount: u128 },
    /// A deposit request was rejected.
    DepositRejected { request_id: u64, validator: u64 },
    /// A user requested a withdrawal.
    WithdrawalRequested {
        request_id: u64,
        user: u64,
        external_wallet: Vec<u8>,
        native_amount: u128,
        external_amount: u128,
    },
    /// A withdrawal was processed.
    WithdrawalCompleted { request_id: u64, user: u64, processor: u64, native_amount: u128 },
    /// A withdrawal request was rejected.
    WithdrawalRejected { request_id: u64, processor: u64 },
}

/// The request ids one account's index holds.
pub open spec fn index_list(s: Seq<(u64, Vec<u64>)>, account: u64) -> Seq<u64> {
    match assoc_lookup(s, account) {
        Option::Some(l) => l@,
        Option::None => Seq::empty(),
    }
}

/// Number of ids in the index of `account`.
fn index_len(v: &Vec<(u64, Vec<u64>)>, account: u64) -> (r: usize)
    requires
        unique_assoc_keys(v@),
    ensures
        r == index_list(v@, account).len(),
{
    match assoc_find(v, account) {
        Some(i) => {
            proof {
                lemma_assoc_lookup_at(v@, i as int);
            }
            v[i].1.len()
        },
        None => {
            proof {
                lemma_assoc_lookup_absent(v@, account);
            }
            0
        },
    }
}

/// Appends a request id to the index of `account`.
fn index_append(v: &mut Vec<(u64, Vec<u64>)>, account: u64, id: u64)
    requires
        unique_assoc_keys(old(v)@),
    ensures
        unique_assoc_keys(final(v)@),
        index_list(final(v)@, account) == index_list(old(v)@, account).push(id),
        forall|a: u64|
            a != account ==> #[trigger] index_list(final(v)@, a) == index_list(old(v)@, a),
        forall|x: int|
            0 <= x < final(v)@.len() ==> (#[trigger] final(v)@[x]).0 == account || assoc_has_key(
                old(v)@,
                final(v)@[x].0,
            ),
{
    match assoc_find(v, account) {
        Some(i) => {
            let ghost s = v@;
            let entry = &mut v[i];
            proof {
                lemma_assoc_lookup_at(s, i as int);
            }
            entry.1.push(id);
            proof {
                let s2 = v@;
                assert(s2[i as int].0 == account);
                assert(s2[i as int].1@ == s[i as int].1@.push(id));
                assert(forall|x: int| 0 <= x < s.len() && x != i ==> #[trigger] s2[x] == s[x]);
                lemma_assoc_update_at(s, s2, i as int);
                assert forall|x: int| 0 <= x < s2.len() implies (#[trigger] s2[x]).0 == account
                    || assoc_has_key(s, s2[x].0) by {
                    if x != i {
                        assert(s2[x] == s[x]);
                    }
                }
            }
        },
        None => {
            proof {
                lemma_assoc_lookup_absent(v@, account);
            }
            let mut list: Vec<u64> = Vec::new();
            list.push(id);
            assoc_insert_new(v, account, list);
            proof {
                assert(index_list(v@, account) =~= Seq::empty().push(id));
            }
        },
    }
}

/// The reserve state aggregate.  The three `max_*` fields are the
/// host-chosen field length bounds, fixed at construction.
#[derive(Clone)]
pub struct Reserve {
    /// Maximum length of an external transaction reference.
    pub max_tx_id_length: u32,
    /// Maximum length of an external wallet reference.
    pub max_wallet_length: u32,
    /// Maximum length of an external coin name tag.
    pub max_coin_name_length: u32,
    /// Deposit requests, keyed by request id.
    pub deposits: Vec<(u64, DepositRequest)>,
    /// Withdrawal requests, keyed by request id.
    pub withdrawals: Vec<(u64, WithdrawalRequest)>,
    /// Deposit request ids per recipient account.
    pub user_deposits: Vec<(u64, Vec<u64>)>,
    /// Withdrawal request ids per user account.
    pub user_withdrawals: Vec<(u64, Vec<u64>)>,
    /// Total native amount minted by approved deposits.
    pub minted_total: u128,
    /// Total native amount burned by completed withdrawals.
    pub burned_total: u128,
    /// Monotonic counter from which request ids are drawn.
    pub request_counter: u64,
}

impl Reserve {
    /// The deposit request stored under `id`, if any.
    pub open spec fn deposit(self, id: u64) -> Option<DepositRequest> {
        assoc_lookup(self.deposits@, id)
    }

    /// The withdrawal request stored under `id`, if any.
    pub open spec fn withdrawal(self, id: u64) -> Option<WithdrawalRequest> {
        assoc_lookup(self.withdrawals@, id)
    }

    /// The deposit request ids indexed under `account`.
    pub open spec fn deposit_index(self, account: u64) -> Seq<u64> {
        index_list(self.user_deposits@, account)
    }

    /// The withdrawal request ids indexed under `account`.
    pub open spec fn withdrawal_index(self, account: u64) -> Seq<u64> {
        index_list(self.user_withdrawals@, account)
    }

    /// Well-formedness: request keys are unique and below the counter,
    /// every stored deposit satisfies the exact ratio conversion
    /// (native = external × ratio), every stored withdrawal the exact
    /// floored conversion (external = native / ratio), and no account
    /// index exceeds the cap.
    pub open spec fn wf(self) -> bool {
        &&& unique_assoc_keys(self.deposits@)
        &&& unique_assoc_keys(self.withdrawals@)
        &&& unique_assoc_keys(self.user_deposits@)
        &&& unique_assoc_keys(self.user_withdrawals@)
        &&& assoc_keys_lt(self.deposits@, self.request_counter)
        &&& assoc_keys_lt(self.withdrawals@, self.request_counter)
        &&& forall|x: int|
            0 <= x < self.deposits@.len() ==> {
                let req = (#[trigger] self.deposits@[x]).1;
                req.external_amount > 0 && req.ratio > 0 && req.native_amount
                    == req.external_amount * req.ratio
            }
        &&& forall|x: int|
            0 <= x < self.withdrawals@.len() ==> {
                let req = (#[trigger] self.withdrawals@[x]).1;
                req.native_amount > 0 && req.ratio > 0 && req.external_amount as int
                    == req.native_amount as int / req.ratio as int
            }
        &&& forall|x: int|
            0 <= x < self.user_deposits@.len() ==> (#[trigger] self.user_deposits@[x]).1@.len()
                <= MAX_REQUESTS_PER_ACCOUNT as int
        &&& forall|x: int|
            0 <= x < self.user_withdrawals@.len() ==> (
            #[trigger] self.user_withdrawals@[x]).1@.len() <= MAX_REQUESTS_PER_ACCOUNT as int
    }

    /// An empty reserve under the given host-chosen field bounds.
    pub fn new(max_tx_id_length: u32, max_wallet_length: u32, max_coin_name_length: u32) -> (r:
        Reserve)
        ensures
            r.wf(),
            r.request_counter == 0,
            r.deposits@.len() == 0,
            r.withdrawals@.len() == 0,
            r.user_deposits@.len() == 0,
            r.user_withdrawals@.len() == 0,
            r.minted_total == 0,
            r.burned_total == 0,
            r.max_tx_id_length == max_tx_id_length,
            r.max_wallet_length == max_wallet_length,
            r.max_coin_name_length == max_coin_name_length,
    {
        Reserve {
            max_tx_id_length,
            max_wallet_length,
            max_coin_name_length,
            deposits: Vec::new(),
            withdrawals: Vec::new(),
            user_deposits: Vec::new(),
            user_withdrawals: Vec::new(),
            minted_total: 0,
            burned_total: 0,
            request_counter: 0,
        }
    }

    /// The first failing validation of a deposit request, if any.
    pub open spec fn request_deposit_err(
        self,
        recipient: u64,
        external_tx_id: Seq<u8>,
        external_wallet: Seq<u8>,
        coin_name: Seq<u8>,
        external_amount: u128,
        ratio: u128,
    ) -> Option<Error> {
        if external_amount == 0 {
            Some(Error::InvalidAmount)
        } else if ratio == 0 {
            Some(Error::InvalidRatio)
        } else if external_tx_id.len() > self.max_tx_id_length as int {
            Some(Error::DataTooLong)
        } else if external_wallet.len() > self.max_wallet_length as int {
            Some(Error::DataTooLong)
        } else if coin_name.len() > self.max_coin_name_length as int {
            Some(Error::DataTooLong)
        } else if external_amount * ratio > u128::MAX {
            Some(Error::ArithmeticOverflow)
        } else if self.deposit_index(recipient).len() >= MAX_REQUESTS_PER_ACCOUNT as int {
            Some(Error::ArithmeticOverflow)
        } else {
            None
        }
    }

    /// Stores a Pending deposit request for collateral the submitter
    /// sent to the custody wallet.  The native amount is exactly
    /// `external_amount × ratio`; the request id is the current value
    /// of the monotonic counter, so ids are never reused; the request
    /// is indexed under the recipient, whose index must be below the
    /// cap.  `now` is the host-provided block height.
    pub fn request_deposit(
        &mut self,
        submitter: u64,
        onchain_account: u64,
        external_tx_id: Vec<u8>,
        external_wallet: Vec<u8>,
        coin_name: Vec<u8>,
        external_amount: u128,
        ratio: u128,
        now: u64,
    ) -> (r: Result<Event, Error>)
        requires
            old(self).wf(),
            old(self).request_counter < u64::MAX,
        ensures
            final(self).wf(),
            match old(self).request_deposit_err(
                onchain_account,
                external_tx_id@,
                external_wallet@,
                coin_name@,
                external_amount,
                ratio,
            ) {
                Some(e) => r == Err::<Event, Error>(e) && *final(self) == *old(self),
                None => {
                    let id = old(self).request_counter;
                    &&& r matches Ok(ev)
                    &&& ev matches Event::DepositRequested {
                        request_id,
                        submitter: ev_submitter,
                        recipient,
                        external_tx_id: ev_tx,
                        external_wallet: ev_wallet,
                        coin_name: ev_coin,
                        external_amount: ev_ext,
                        native_amount: ev_native,
                    } && request_id == id && ev_submitter == submitter && recipient
                        == onchain_account && ev_tx@ == external_tx_id@ && ev_wallet@
                        == external_wallet@ && ev_coin@ == coin_name@ && ev_ext == external_amount
                        && ev_native == external_amount * ratio
                    &&& final(self).request_counter == old(self).request_counter + 1
                    &&& final(self).deposit(id) matches Some(req) && req.submitter == submitter
                        && req.recipient == onchain_account && req.external_tx_id@
                        == external_tx_id@ && req.external_wallet@ == external_wallet@
                        && req.coin_name@ == coin_name@ && req.external_amount == external_amount
                        && req.ratio == ratio && req.native_amount == external_amount * ratio
                        && req.status is Pending && req.submitted_at == now && req.approved_by
                        is None
                    &&& forall|k: u64|
                        k != id ==> #[trigger] final(self).deposit(k) == old(self).deposit(k)
                    &&& final(self).deposit_index(onchain_account) == old(self).deposit_index(
                        onchain_account,
                    ).push(id)
                    &&& forall|a: u64|
                        a != onchain_account ==> #[trigger] final(self).deposit_index(a) == old(
                            self,
                        ).deposit_index(a)
                    &&& final(self).withdrawals@ == old(self).withdrawals@
                    &&& final(self).user_withdrawals@ == old(self).user_withdrawals@
                    &&& final(self).minted_total == old(self).minted_total
                    &&& final(self).burned_total == old(self).burned_total
                },
            },
    {
        if external_amount == 0 {
            return Err(Error::InvalidAmount);
        }
        if ratio == 0 {
            return Err(Error::InvalidRatio);
        }
        if external_tx_id.len() > self.max_tx_id_length as usize {
            return Err(Error::DataTooLong);
        }
        if external_wallet.len() > self.max_wallet_length as usize {
            return Err(Error::DataTooLong);
        }
        if coin_name.len() > self.max_coin_name_length as usize {
            return Err(Error::DataTooLong);
        }
        let native_amount = match external_amount.checked_mul(ratio) {
            Some(n) => n,
            None => {
                return Err(Error::ArithmeticOverflow);
            },
        };
        if index_len(&self.user_deposits, onchain_account) >= MAX_REQUESTS_PER_ACCOUNT {
            return Err(Error::ArithmeticOverflow);
        }

        let request_id = self.request_counter;
        self.request_counter = self.request_counter + 1;
        let ghost pre = *self;
        let request = DepositRequest {
            submitter,
            recipient: onchain_account,
            external_tx_id: crate::ledger::clone_bytes(&external_tx_id),
            external_wallet: crate::ledger::clone_bytes(&external_wallet),
            coin_name: crate::ledger::clone_bytes(&coin_name),
            external_amount,
            ratio,
            native_amount,
            status: DepositStatus::Pending,
            submitted_at: now,
            approved_by: None,
        };
        proof {
            assert(!assoc_has_key(self.deposits@, request_id));
        }
        assoc_insert_new(&mut self.deposits, request_id, request);
        index_append(&mut self.user_deposits, onchain_account, request_id);
        proof {
            assert forall|x: int| 0 <= x < self.deposits@.len() implies {
                let req = (#[trigger] self.deposits@[x]).1;
                req.external_amount > 0 && req.ratio > 0 && req.native_amount
                    == req.external_amount * req.ratio
            } by {
                if pre.deposits@.contains(self.deposits@[x]) {
                    let j = choose|j: int|
                        0 <= j < pre.deposits@.len() && pre.deposits@[j] == self.deposits@[x];
                }
            }
            assert forall|x: int| 0 <= x < self.user_deposits@.len() implies (
            #[trigger] self.user_deposits@[x]).1@.len() <= MAX_REQUESTS_PER_ACCOUNT as int by {
                let key = self.user_deposits@[x].0;
                lemma_assoc_lookup_at(self.user_deposits@, x);
                if key == onchain_account {
                    assert(index_list(self.user_deposits@, key) == index_list(
                        pre.user_deposits@,
                        key,
                    ).push(request_id));
                } else {
                    assert(index_list(self.user_deposits@, key) == index_list(
                        pre.user_deposits@,
                        key,
                    ));
                    assert(assoc_has_key(pre.user_deposits@, key));
                    let j = choose|j: int|
                        0 <= j < pre.user_deposits@.len() && (#[trigger] pre.user_deposits@[j]).0
                            == key;
                    lemma_assoc_lookup_at(pre.user_deposits@, j);
                }
            }
        }
        Ok(
            Event::DepositRequested {
                request_id,
                submitter,
                recipient: onchain_account,
                external_tx_id,
                external_wallet,
                coin_name,
                external_amount,
                native_amount,
            },
        )
    }

    /// The first failing validation of a deposit resolution, if any.
    /// Self-approval is refused only when approving, not rejecting.
    pub open spec fn resolve_deposit_err(
        self,
        validator: u64,
        request_id: u64,
        approving: bool,
    ) -> Option<Error> {
        match self.deposit(request_id) {
            Option::None => Some(Error::RequestNotFound),
            Option::Some(req) => if !(req.status is Pending) {
                Some(Error::AlreadyProcessed)
            } else if approving && req.submitter == validator {
                Some(Error::CannotApproveOwnRequest)
            } else {
                None
            },
        }
    }

    /// Marks a Pending deposit request Approved, records the approver
    /// and accounts the native amount as minted (saturating).  A
    /// validator never approves a request they submitted themselves,
    /// and a request that already reached a terminal state is never
    /// touched again.  The host must then transfer the native amount
    /// from the custody account to the recipient, as the returned
    /// notification directs.
    pub fn approve_deposit(&mut self, validator: u64, request_id: u64) -> (r: Result<
        Event,
        Error,
    >)
        requires
            old(self).wf(),
        ensures
            final(self).wf(),
            match old(self).resolve_deposit_err(validator, request_id, true) {
                Some(e) => r == Err::<Event, Error>(e) && *final(self) == *old(self),
                None => {
                    let req = old(self).deposit(request_id) -> Some_0;
                    &&& r == Ok::<Event, Error>(
                        Event::DepositApproved {
                            request_id,
                            user: req.recipient,
                            validator,
                            native_amount: req.native_amount,
                        },
                    )
                    &&& final(self).deposit(request_id) matches Some(req2) && req2.status
                        is Approved && req2.approved_by == Some(validator) && req2.submitter
                        == req.submitter && req2.recipient == req.recipient && req2.external_tx_id@
                        == req.external_tx_id@ && req2.external_wallet@ == req.external_wallet@
                        && req2.coin_name@ == req.coin_name@ && req2.external_amount
                        == req.external_amount && req2.ratio == req.ratio && req2.native_amount
                        == req.native_amount && req2.submitted_at == req.submitted_at
                    &&& forall|k: u64|
                        k != request_id ==> #[trigger] final(self).deposit(k) == old(self).deposit(
                            k,
                        )
                    &&& final(self).minted_total == if old(self).minted_total
                        + req.native_amount > u128::MAX {
                        u128::MAX
                    } else {
                        (old(self).minted_total + req.native_amount) as u128
                    }
                    &&& final(self).withdrawals@ == old(self).withdrawals@
                    &&& final(self).user_deposits@ == old(self).user_deposits@
                    &&& final(self).user_withdrawals@ == old(self).user_withdrawals@
                    &&& final(self).burned_total == old(self).burned_total
                    &&& final(self).request_counter == old(self).request_counter
                },
            },
    {
        let i = match assoc_find(&self.deposits, request_id) {
            Some(i) => i,
            None => {
                proof {
                    lemma_assoc_lookup_absent(self.deposits@, request_id);
                }
                return Err(Error::RequestNotFound);
            },
        };
        proof {
            lemma_assoc_lookup_at(self.deposits@, i as int);
        }
        if !matches!(self.deposits[i].1.status, DepositStatus::Pending) {
            return Err(Error::AlreadyProcessed);
        }
        if self.deposits[i].1.submitter == validator {
            return Err(Error::CannotApproveOwnRequest);
        }
        let recipient = self.deposits[i].1.recipient;
        let native_amount = self.deposits[i].1.native_amount;

        let ghost pre = *self;
        let entry = &mut self.deposits[i];
        entry.1.status = DepositStatus::Approved;
        entry.1.approved_by = Some(validator);
        proof {
            lemma_assoc_update_at(pre.deposits@, self.deposits@, i as int);
        }
        self.minted_total = if self.minted_total <= u128::MAX - native_amount {
            self.minted_total + native_amount
        } else {
            u128::MAX
        };
        Ok(Event::DepositApproved { request_id, user: recipient, validator, native_amount })
    }

    /// Marks a Pending deposit request Rejected.  No funds move, and a
    /// request that already reached a terminal state is never touched
    /// again.
    pub fn reject_deposit(&mut self, validator: u64, request_id: u64) -> (r: Result<Event, Error>)
        requires
            old(self).wf(),
        ensures
            final(self).wf(),
            match old(self).resolve_deposit_err(validator, request_id, false) {
                Some(e) => r == Err::<Event, Error>(e) && *final(self) == *old(self),
                None => {
                    let req = old(self).deposit(request_id) -> Some_0;
                    &&& r == Ok::<Event, Error>(Event::DepositRejected { request_id, validator })
                    &&& final(self).deposit(request_id) matches Some(req2) && req2.status
                        is Rejected && req2.approved_by == req.approved_by && req2.submitter
                        == req.submitter && req2.recipient == req.recipient && req2.external_tx_id@
                        == req.external_tx_id@ && req2.external_wallet@ == req.external_wallet@
                        && req2.coin_name@ == req.coin_name@ && req2.external_amount
                        == req.external_amount && req2.ratio == req.ratio && req2.native_amount
                        == req.native_amount && req2.submitted_at == req.submitted_at
                    &&& forall|k: u64|
                        k != request_id ==> #[trigger] final(self).deposit(k) == old(self).deposit(
                            k,
                        )
                    &&& final(self).withdrawals@ == old(self).withdrawals@
                    &&& final(self).user_deposits@ == old(self).user_deposits@
                    &&& final(self).user_withdrawals@ == old(self).user_withdrawals@
                    &&& final(self).minted_total == old(self).minted_total
                    &&& final(self).burned_total == old(self).burned_total
                    &&& final(self).request_counter == old(self).request_counter
                },
            },
    {
        let i = match assoc_find(&self.deposits, request_id) {
            Some(i) => i,
            None => {
                proof {
                    lemma_assoc_lookup_absent(self.deposits@, request_id);
                }
                return Err(Error::RequestNotFound);
            },
        };
        proof {
            lemma_assoc_lookup_at(self.deposits@, i as int);
        }
        if !matches!(self.deposits[i].1.status, DepositStatus::Pending) {
            return Err(Error::AlreadyProcessed);
        }

        let ghost pre = *self;
        let entry = &mut self.deposits[i];
        entry.1.status = DepositStatus::Rejected;
        proof {
            lemma_assoc_update_at(pre.deposits@, self.deposits@, i as int);
        }
        Ok(Event::DepositRejected { request_id, validator })
    }

    /// The first failing validation of a withdrawal request, if any.
    /// `user_free_balance` is the user's free native balance as the
    /// host read it.
    pub open spec fn request_withdrawal_err(
        self,
        user: u64,
        external_wallet: Seq<u8>,
        coin_name: Seq<u8>,
        native_amount: u128,
        ratio: u128,
        user_free_balance: u128,
    ) -> Option<Error> {
        if native_amount == 0 {
            Some(Error::InvalidAmount)
        } else if ratio == 0 {
            Some(Error::InvalidRatio)
        } else if user_free_balance < native_amount {
            Some(Error::InsufficientBalance)
        } else if external_wallet.len() > self.max_wallet_length as int {
            Some(Error::DataTooLong)
        } else if coin_name.len() > self.max_coin_name_length as int {
            Some(Error::DataTooLong)
        } else if self.withdrawal_index(user).len() >= MAX_REQUESTS_PER_ACCOUNT as int {
            Some(Error::ArithmeticOverflow)
        } else {
            None
        }
    }

    /// Stores a Pending withdrawal request.  The external amount is
    /// exactly `native_amount / ratio`, rounded down; the request id is
    /// the current counter value; the request is indexed under the
    /// user, whose index must be below the cap.  `now` is the
    /// host-provided block height.
    pub fn request_withdrawal(
        &mut self,
        user: u64,
        external_wallet: Vec<u8>,
        coin_name: Vec<u8>,
        native_amount: u128,
        ratio: u128,
        now: u64,
        user_free_balance: u128,
    ) -> (r: Result<Event, Error>)
        requires
            old(self).wf(),
            old(self).request_counter < u64::MAX,
        ensures
            final(self).wf(),
            match old(self).request_withdrawal_err(
                user,
                external_wallet@,
                coin_name@,
                native_amount,
                ratio,
                user_free_balance,
            ) {
                Some(e) => r == Err::<Event, Error>(e) && *final(self) == *old(self),
                None => {
                    let id = old(self).request_counter;
                    let external = native_amount as int / ratio as int;
                    &&& r matches Ok(ev)
                    &&& ev matches Event::WithdrawalRequested {
                        request_id,
                        user: ev_user,
                        external_wallet: ev_wallet,
                        native_amount: ev_native,
                        external_amount: ev_ext,
                    } && request_id == id && ev_user == user && ev_wallet@ == external_wallet@
                        && ev_native == native_amount && ev_ext == external
                    &&& final(self).request_counter == old(self).request_counter + 1
                    &&& final(self).withdrawal(id) matches Some(req) && req.user == user
                        && req.external_wallet@ == external_wallet@ && req.coin_name@ == coin_name@
                        && req.native_amount == native_amount && req.ratio == ratio
                        && req.external_amount == external && req.status is Pending
                        && req.submitted_at == now && req.processed_by is None
                    &&& forall|k: u64|
                        k != id ==> #[trigger] final(self).withdrawal(k) == old(self).withdrawal(k)
                    &&& final(self).withdrawal_index(user) == old(self).withdrawal_index(
                        user,
                    ).push(id)
                    &&& forall|a: u64|
                        a != user ==> #[trigger] final(self).withdrawal_index(a) == old(
                            self,
                        ).withdrawal_index(a)
                    &&& final(self).deposits@ == old(self).deposits@
                    &&& final(self).user_deposits@ == old(self).user_deposits@
                    &&& final(self).minted_total == old(self).minted_total
                    &&& final(self).burned_total == old(self).burned_total
                },
            },
    {
        if native_amount == 0 {
            return Err(Error::InvalidAmount);
        }
        if ratio == 0 {
            return Err(Error::InvalidRatio);
        }
        if user_free_balance < native_amount {
            return Err(Error::InsufficientBalance);
        }
        if external_wallet.len() > self.max_wallet_length as usize {
            return Err(Error::DataTooLong);
        }
        if coin_name.len() > self.max_coin_name_length as usize {
            return Err(Error::DataTooLong);
        }
        let external_amount = native_amount / ratio;
        if index_len(&self.user_withdrawals, user) >= MAX_REQUESTS_PER_ACCOUNT {
            return Err(Error::ArithmeticOverflow);
        }

        let request_id = self.request_counter;
        self.request_counter = self.request_counter + 1;
        let ghost pre = *self;
        let request = WithdrawalRequest {
            user,
            external_wallet: crate::ledger::clone_bytes(&external_wallet),
            coin_name: crate::ledger::clone_bytes(&coin_name),
            native_amount,
            external_amount,
            ratio,
            status: WithdrawalStatus::Pending,
            submitted_at: now,
            processed_by: None,
        };
        proof {
            assert(!assoc_has_key(self.withdrawals@, request_id));
        }
        assoc_insert_new(&mut self.withdrawals, request_id, request);
        index_append(&mut self.user_withdrawals, user, request_id);
        proof {
            assert forall|x: int| 0 <= x < self.withdrawals@.len() implies {
                let req = (#[trigger] self.withdrawals@[x]).1;
                req.native_amount > 0 && req.ratio > 0 && req.external_amount as int
                    == req.native_amount as int / req.ratio as int
            } by {
                if pre.withdrawals@.contains(self.withdrawals@[x]) {
                    let j = choose|j: int|
                        0 <= j < pre.withdrawals@.len() && pre.withdrawals@[j]
                            == self.withdrawals@[x];
                }
            }
            assert forall|x: int| 0 <= x < self.user_withdrawals@.len() implies (
            #[trigger] self.user_withdrawals@[x]).1@.len() <= MAX_REQUESTS_PER_ACCOUNT as int by {
                let key = self.user_withdrawals@[x].0;
                lemma_assoc_lookup_at(self.user_withdrawals@, x);
                if key == user {
                    assert(index_list(self.user_withdrawals@, key) == index_list(
                        pre.user_withdrawals@,
                        key,
                    ).push(request_id));
                } else {
                    assert(index_list(self.user_withdrawals@, key) == index_list(
                        pre.user_withdrawals@,
                        key,
                    ));
                    assert(assoc_has_key(pre.user_withdrawals@, key));
                    let j = choose|j: int|
                        0 <= j < pre.user_withdrawals@.len() && (
                        #[trigger] pre.user_withdrawals@[j]).0 == key;
                    lemma_assoc_lookup_at(pre.user_withdrawals@, j);
                }
            }
        }
        Ok(
            Event::WithdrawalRequested {
                request_id,
                user,
                external_wallet,
                native_amount,
                external_amount,
            },
        )
    }

    /// The first failing validation of a withdrawal resolution, if any.
    pub open spec fn resolve_withdrawal_err(self, request_id: u64) -> Option<Error> {
        match self.withdrawal(request_id) {
            Option::None => Some(Error::RequestNotFound),
            Option::Some(req) => if !(req.status is Pending) {
                Some(Error::AlreadyProcessed)
            } else {
                None
            },
        }
    }

    /// Marks a Pending withdrawal request Completed, records the
    /// processor and accounts the native amount as burned (saturating).
    /// A request that already reached a terminal state is never touched
    /// again.  The host must then withdraw the native amount from the
    /// user, keeping the account alive, as the returned notification
    /// directs.
    pub fn complete_withdrawal(&mut self, processor: u64, request_id: u64) -> (r: Result<
        Event,
        Error,
    >)
        requires
            old(self).wf(),
        ensures
            final(self).wf(),
            match old(self).resolve_withdrawal_err(request_id) {
                Some(e) => r == Err::<Event, Error>(e) && *final(self) == *old(self),
                None => {
                    let req = old(self).withdrawal(request_id) -> Some_0;
                    &&& r == Ok::<Event, Error>(
                        Event::WithdrawalCompleted {
                            request_id,
                            user: req.user,
                            processor,
                            native_amount: req.native_amount,
                        },
                    )
                    &&& final(self).withdrawal(request_id) matches Some(req2) && req2.status
                        is Completed && req2.processed_by == Some(processor) && req2.user
                        == req.user && req2.external_wallet@ == req.external_wallet@
                        && req2.coin_name@ == req.coin_name@ && req2.native_amount
                        == req.native_amount && req2.external_amount == req.external_amount
                        && req2.ratio == req.ratio && req2.submitted_at == req.submitted_at
                    &&& forall|k: u64|
                        k != request_id ==> #[trigger] final(self).withdrawal(k) == old(
                            self,
                        ).withdrawal(k)
                    &&& final(self).burned_total == if old(self).burned_total + req.native_amount
                        > u128::MAX {
                        u128::MAX
                    } else {
                        (old(self).burned_total + req.native_amount) as u128
                    }
                    &&& final(self).deposits@ == old(self).deposits@
                    &&& final(self).user_deposits@ == old(self).user_deposits@
                    &&& final(self).user_withdrawals@ == old(self).user_withdrawals@
                    &&& final(self).minted_total == old(self).minted_total
                    &&& final(self).request_counter == old(self).request_counter
                },
            },
    {
        let i = match assoc_find(&self.withdrawals, request_id) {
            Some(i) => i,
            None => {
                proof {
                    lemma_assoc_lookup_absent(self.withdrawals@, request_id);
                }
                return Err(Error::RequestNotFound);
            },
        };
        proof {
            lemma_assoc_lookup_at(self.withdrawals@, i as int);
        }
        if !matches!(self.withdrawals[i].1.status, WithdrawalStatus::Pending) {
            return Err(Error::AlreadyProcessed);
        }
        let user = self.withdrawals[i].1.user;
        let native_amount = self.withdrawals[i].1.native_amount;

        let ghost pre = *self;
        let entry = &mut self.withdrawals[i];
        entry.1.status = WithdrawalStatus::Completed;
        entry.1.processed_by = Some(processor);
        proof {
            lemma_assoc_update_at(pre.withdrawals@, self.withdrawals@, i as int);
        }
        self.burned_total = if self.burned_total <= u128::MAX - native_amount {
            self.burned_total + native_amount
        } else {
            u128::MAX
        };
        Ok(Event::WithdrawalCompleted { request_id, user, processor, native_amount })
    }

    /// Marks a Pending withdrawal request Rejected.  No funds move, and
    /// a request that already reached a terminal state is never touched
    /// again.
    pub fn reject_withdrawal(&mut self, processor: u64, request_id: u64) -> (r: Result<
        Event,
        Error,
    >)
        requires
            old(self).wf(),
        ensures
            final(self).wf(),
            match old(self).resolve_withdrawal_err(request_id) {
                Some(e) => r == Err::<Event, Error>(e) && *final(self) == *old(self),
                None => {
                    let req = old(self).withdrawal(request_id) -> Some_0;
                    &&& r == Ok::<Event, Error>(
                        Event::WithdrawalRejected { request_id, processor },
                    )
                    &&& final(self).withdrawal(request_id) matches Some(req2) && req2.status
                        is Rejected && req2.processed_by == req.processed_by && req2.user
                        == req.user && req2.external_wallet@ == req.external_wallet@
                        && req2.coin_name@ == req.coin_name@ && req2.native_amount
                        == req.native_amount && req2.external_amount == req.external_amount
                        && req2.ratio == req.ratio && req2.submitted_at == req.submitted_at
                    &&& forall|k: u64|
                        k != request_id ==> #[trigger] final(self).withdrawal(k) == old(
                            self,
                        ).withdrawal(k)
                    &&& final(self).deposits@ == old(self).deposits@
                    &&& final(self).user_deposits@ == old(self).user_deposits@
                    &&& final(self).user_withdrawals@ == old(self).user_withdrawals@
                    &&& final(self).minted_total == old(self).minted_total
                    &&& final(self).burned_total == old(self).burned_total
                    &&& final(self).request_counter == old(self).request_counter
                },
            },
    {
        let i = match assoc_find(&self.withdrawals, request_id) {
            Some(i) => i,
            None => {
                proof {
                    lemma_assoc_lookup_absent(self.withdrawals@, request_id);
                }
                return Err(Error::RequestNotFound);
            },
        };
        proof {
            lemma_assoc_lookup_at(self.withdrawals@, i as int);
        }
        if !matches!(self.withdrawals[i].1.status, WithdrawalStatus::Pending) {
            return Err(Error::AlreadyProcessed);
        }

        let ghost pre = *self;
        let entry = &mut self.withdrawals[i];
        entry.1.status = WithdrawalStatus::Rejected;
        proof {
            lemma_assoc_update_at(pre.withdrawals@, self.withdrawals@, i as int);
        }
        Ok(Event::WithdrawalRejected { request_id, processor })
    }

    /// Total native amount minted by approved deposits.
    pub fn total_minted(&self) -> (r: u128)
        ensures
            r == self.minted_total,
    {
        self.minted_total
    }

    /// Total native amount burned by completed withdrawals.
    pub fn total_burned(&self) -> (r: u128)
        ensures
            r == self.burned_total,
    {
        self.burned_total
    }

    /// Net supply bridged in: total minted less total burned,
    /// saturating at zero.
    pub fn net_supply(&self) -> (r: u128)
        ensures
            r == if self.minted_total >= self.burned_total {
                (self.minted_total - self.burned_total) as u128
            } else {
                0u128
            },
    {
        if self.minted_total >= self.burned_total {
            self.minted_total - self.burned_total
        } else {
            0
        }
    }

    /// The deposit request stored under `request_id`, if any.
    pub fn get_deposit_request(&self, request_id: u64) -> (r: Option<&DepositRequest>)
        requires
            self.wf(),
        ensures
            match r {
                Some(req) => self.deposit(request_id) == Some(*req),
                None => self.deposit(request_id) is None,
            },
    {
        match assoc_find(&self.deposits, request_id) {
            Some(i) => {
                proof {
                    lemma_assoc_lookup_at(self.deposits@, i as int);
                }
                Some(&self.deposits[i].1)
            },
            None => {
                proof {
                    lemma_assoc_lookup_absent(self.deposits@, request_id);
                }
                None
            },
        }
    }

    /// The withdrawal request stored under `request_id`, if any.
    pub fn get_withdrawal_request(&self, request_id: u64) -> (r: Option<&WithdrawalRequest>)
        requires
            self.wf(),
        ensures
            match r {
                Some(req) => self.withdrawal(request_id) == Some(*req),
                None => self.withdrawal(request_id) is None,
            },
    {
        match assoc_find(&self.withdrawals, request_id) {
            Some(i) => {
                proof {
                    lemma_assoc_lookup_at(self.withdrawals@, i as int);
                }
                Some(&self.withdrawals[i].1)
            },
            None => {
                proof {
                    lemma_assoc_lookup_absent(self.withdrawals@, request_id);
                }
                None
            },
        }
    }
}

/// For every accepted deposit request, the stored native amount is
/// exactly the external amount times the ratio.
pub proof fn lemma_deposit_conversion_exact(rsv: Reserve, id: u64)
    requires
        rsv.wf(),
        rsv.deposit(id) is Some,
    ensures
        (rsv.deposit(id) -> Some_0).native_amount == (rsv.deposit(id) -> Some_0).external_amount
            * (rsv.deposit(id) -> Some_0).ratio,
    decreases rsv.deposits@.len(),
{
    lemma_request_value_stored(rsv.deposits@, id);
}

/// For every accepted withdrawal request, the stored external amount is
/// exactly the native amount divided by the ratio, rounded down.
pub proof fn lemma_withdrawal_conversion_exact(rsv: Reserve, id: u64)
    requires
        rsv.wf(),
        rsv.withdrawal(id) is Some,
    ensures
        (rsv.withdrawal(id) -> Some_0).external_amount as int == (rsv.withdrawal(
            id,
        ) -> Some_0).native_amount as int / (rsv.withdrawal(id) -> Some_0).ratio as int,
        (rsv.withdrawal(id) -> Some_0).ratio > 0,
{
    lemma_withdrawal_value_stored(rsv.withdrawals@, id);
}

/// A lookup that succeeds returns the value of some stored entry.
proof fn lemma_request_value_stored(s: Seq<(u64, DepositRequest)>, id: u64)
    requires
        assoc_lookup(s, id) is Some,
    ensures
        exists|x: int|
            0 <= x < s.len() && (#[trigger] s[x]).1 == assoc_lookup(s, id) -> Some_0,
    decreases s.len(),
{
    if s.len() > 0 {
        if s.last().0 == id {
            assert(s[s.len() - 1].1 == assoc_lookup(s, id) -> Some_0);
        } else {
            lemma_request_value_stored(s.drop_last(), id);
            let x = choose|x: int|
                0 <= x < s.drop_last().len() && (#[trigger] s.drop_last()[x]).1 == assoc_lookup(
                    s.drop_last(),
                    id,
                ) -> Some_0;
            assert(s[x].1 == assoc_lookup(s, id) -> Some_0);
        }
    }
}

/// A lookup that succeeds returns the value of some stored entry.
proof fn lemma_withdrawal_value_stored(s: Seq<(u64, WithdrawalRequest)>, id: u64)
    requires
        assoc_lookup(s, id) is Some,
    ensures
        exists|x: int|
            0 <= x < s.len() && (#[trigger] s[x]).1 == assoc_lookup(s, id) -> Some_0,
    decreases s.len(),
{
    if s.len() > 0 {
        if s.last().0 == id {
            assert(s[s.len() - 1].1 == assoc_lookup(s, id) -> Some_0);
        } else {
            lemma_withdrawal_value_stored(s.drop_last(), id);
            let x = choose|x: int|
                0 <= x < s.drop_last().len() && (#[trigger] s.drop_last()[x]).1 == assoc_lookup(
                    s.drop_last(),
                    id,
                ) -> Some_0;
            assert(s[x].1 == assoc_lookup(s, id) -> Some_0);
        }
    }
}

} // verus!
