//! The ledger state aggregate: coin registry, balances, supply,
//! permission tables and fee configuration, with the atomic operations
//! that mutate them.
//!
//! Every operation is total over the aggregate: it validates first and
//! mutates only on success, so an error return leaves the aggregate
//! exactly as it was.  Interactions with the hosting environment (the
//! native currency primitive used for the creation deposit, and the
//! delivery of notifications) cross the boundary as plain values: the
//! outcome of the host's deposit reservation comes in as a flag, and the
//! notifications to deliver go out as the returned event list.

use vstd::prelude::*;
use crate::model::{
    BalanceEntry, balance_coins_lt, balance_get, balance_set, coin_sum, has_balance_key,
    has_pair, lemma_coin_sum_no_entries, lemma_lookup_absent, lemma_lookup_le_sum,
    lemma_two_lookups_le_sum, lookup_balance, pair_coins_lt, pair_contains, pair_insert,
    pair_remove, unique_balance_keys, unique_pairs, assoc_lookup, assoc_find, assoc_replace_at,
    assoc_insert_new, assoc_remove_key, unique_assoc_keys,
};
use crate::types::{CoinId, CoinInfo, FeeConfig};

verus! {

/// Metadata record stored per coin.
pub type CoinRecord = CoinInfo<Vec<u8>, Vec<u8>, u64, u128, FeeConfig>;

/// Reasons a ledger operation can fail.
#[derive(Clone, Copy, PartialEq, Eq, Debug)]
pub enum Error {
    /// The coin does not exist.
    CoinNotFound,
    /// Insufficient balance for the operation.
    InsufficientBalance,
    /// Arithmetic overflow occurred.
    Overflow,
    /// The symbol is already in use.
    SymbolAlreadyExists,
    /// Symbol is too long.
    SymbolTooLong,
    /// Name is too long.
    NameTooLong,
    /// Maximum number of coins reached.
    TooManyCoins,
    /// Not authorized for this operation.
    NotAuthorized,
    /// Cannot transfer to the same account.
    TransferToSelf,
    /// Initial supply exceeds maximum allowed.
    ExceedsMaxSupply,
    /// Amount is zero.
    ZeroAmount,
    /// No minting permission.
    NoMintPermission,
    /// No burning permission.
    NoBurnPermission,
    /// Balance would fall below minimum required.
    BelowMinimumBalance,
    /// Coin cannot be used to pay transaction fees.
    CannotPayFees,
}

/// Notifications a ledger operation emits on success.
#[derive(Clone, PartialEq, Eq, Debug)]
pub enum Event {
    /// A new coin was created.
    CoinCreated { coin_id: CoinId, symbol: Vec<u8>, name: Vec<u8>, creator: u64, initial_supply: u128 },
    /// Coins were transferred.
    Transfer { coin_id: CoinId, from: u64, to: u64, amount: u128 },
    /// Coins were minted.
    Minted { coin_id: CoinId, to: u64, amount: u128 },
    /// Coins were burned.
    Burned { coin_id: CoinId, from: u64, amount: u128 },
    /// Coin ownership was transferred.
    OwnershipTransferred { coin_id: CoinId, old_owner: u64, new_owner: u64 },
    /// Mint permission was granted or revoked.
    MintPermissionSet { coin_id: CoinId, account: u64, can_mint: bool },
    /// Burn permission was granted or revoked.
    BurnPermissionSet { coin_id: CoinId, account: u64, can_burn: bool },
    /// Fee configuration was updated.
    FeeConfigUpdated { coin_id: CoinId, transfer_fee: u128, minimum_balance: u128, can_pay_tx_fees: bool },
    /// Preferred fee coin set for an account.
    PreferredFeeCoinSet { account: u64, coin_id: Option<CoinId> },
}

/// The ledger state aggregate.
///
/// The five `max_*`/`coin_deposit` fields are the host-chosen limits,
/// fixed at construction.  The remaining fields are the persisted
/// tables.  The three ghost sequences account, per coin, for the
/// cumulative amounts ever minted (creation supply included), burned,
/// and destroyed as fees (fee refunds subtract from the latter).
#[derive(Clone)]
pub struct Ledger {
    /// Maximum length of a coin symbol.
    pub max_symbol_length: u32,
    /// Maximum length of a coin name.
    pub max_name_length: u32,
    /// Maximum number of coins that can be created.
    pub max_coins: u32,
    /// Deposit reserved from a creator when a coin is created.
    pub coin_deposit: u128,
    /// Maximum supply for any coin.
    pub max_supply: u128,
    /// Per-coin metadata; the index is the coin id.
    pub coin_metadata: Vec<CoinRecord>,
    /// Per-coin total supply; the index is the coin id.
    pub total_supply: Vec<u128>,
    /// Balance cells, keyed by (coin, account).
    pub balances: Vec<BalanceEntry>,
    /// Accounts granted minting, keyed by (coin, account).
    pub mint_permissions: Vec<(u32, u64)>,
    /// Accounts granted burning, keyed by (coin, account).
    pub burn_permissions: Vec<(u32, u64)>,
    /// Preferred fee coin per account.
    pub preferred_fee_coin: Vec<(u64, u32)>,
    /// Cumulative amount ever minted, per coin.
    pub minted_cumulative: Ghost<Seq<int>>,
    /// Cumulative amount ever burned, per coin.
    pub burned_cumulative: Ghost<Seq<int>>,
    /// Cumulative amount destroyed as fees, per coin, net of refunds.
    pub fee_burned_cumulative: Ghost<Seq<int>>,
}

/// The supply bookkeeping clauses of well-formedness carry over to an
/// aggregate that keeps the balances, supply and cumulative accounts.
pub proof fn lemma_supply_clauses_preserved(pre: Ledger, post: Ledger)
    requires
        pre.wf(),
        post.total_supply@ == pre.total_supply@,
        post.balances@ == pre.balances@,
        post.minted_cumulative@ == pre.minted_cumulative@,
        post.burned_cumulative@ == pre.burned_cumulative@,
        post.fee_burned_cumulative@ == pre.fee_burned_cumulative@,
        post.coin_count() == pre.coin_count(),
    ensures
        forall|c: CoinId|
            (c as int) < post.coin_count() ==> #[trigger] coin_sum(post.balances@, c)
                == post.spec_supply(c) as int,
        forall|c: CoinId|
            (c as int) < post.coin_count() ==> post.minted_cumulative@[c as int]
                - post.burned_cumulative@[c as int] - post.fee_burned_cumulative@[c as int]
                == #[trigger] post.spec_supply(c) as int,
{
    assert forall|c: CoinId| (c as int) < post.coin_count() implies #[trigger] coin_sum(
        post.balances@,
        c,
    ) == post.spec_supply(c) as int by {
        assert(coin_sum(pre.balances@, c) == pre.spec_supply(c) as int);
    }
    assert forall|c: CoinId| (c as int) < post.coin_count() implies post.minted_cumulative@[c
        as int] - post.burned_cumulative@[c as int] - post.fee_burned_cumulative@[c as int]
        == #[trigger] post.spec_supply(c) as int by {
        assert(pre.minted_cumulative@[c as int] - pre.burned_cumulative@[c as int]
            - pre.fee_burned_cumulative@[c as int] == pre.spec_supply(c) as int);
    }
}

impl Ledger {
    /// Number of coins created so far; also the next coin id.
    pub open spec fn coin_count(self) -> int {
        self.coin_metadata@.len() as int
    }

    /// Whether a coin with this id has been created.
    pub open spec fn coin_exists(self, c: CoinId) -> bool {
        (c as int) < self.coin_count()
    }

    /// The metadata record of coin `c`.
    pub open spec fn coin_at(self, c: CoinId) -> CoinRecord {
        self.coin_metadata@[c as int]
    }

    /// The balance account `a` holds of coin `c` (zero by default).
    pub open spec fn spec_balance(self, c: CoinId, a: u64) -> u128 {
        lookup_balance(self.balances@, c, a)
    }

    /// The total supply of coin `c`.
    pub open spec fn spec_supply(self, c: CoinId) -> u128 {
        self.total_supply@[c as int]
    }

    /// Whether account `a` may mint coin `c`.
    pub open spec fn spec_can_mint(self, c: CoinId, a: u64) -> bool {
        has_pair(self.mint_permissions@, c, a)
    }

    /// Whether account `a` may burn coin `c`.
    pub open spec fn spec_can_burn(self, c: CoinId, a: u64) -> bool {
        has_pair(self.burn_permissions@, c, a)
    }

    /// The preferred fee coin of account `a`, if set.
    pub open spec fn spec_preferred(self, a: u64) -> Option<CoinId> {
        assoc_lookup(self.preferred_fee_coin@, a)
    }

    /// Whether coin `c` exists and may pay operation costs.
    pub open spec fn fee_eligible(self, c: CoinId) -> bool {
        self.coin_exists(c) && self.coin_at(c).fee_config.can_pay_tx_fees
    }

    /// Whether some coin carries this symbol.
    pub open spec fn has_symbol(self, s: Seq<u8>) -> bool {
        exists|i: int| 0 <= i < self.coin_count() && (#[trigger] self.coin_metadata@[i]).symbol@ == s
    }

    /// The error the pre-check of an operation's fee-coin override
    /// yields, if any: the override must name an existing, fee-eligible
    /// coin.
    pub open spec fn tx_fee_check_err(self, t: Option<CoinId>) -> Option<Error> {
        match t {
            Option::None => None,
            Option::Some(c) => if !self.coin_exists(c) {
                Some(Error::CoinNotFound)
            } else if !self.coin_at(c).fee_config.can_pay_tx_fees {
                Some(Error::CannotPayFees)
            } else {
                None
            },
        }
    }

    /// Well-formedness of the aggregate: table keys are unique and in
    /// range, symbols are unique and within bounds, and for every coin
    /// the balance cells sum exactly to the total supply, which in turn
    /// equals cumulative mints less cumulative burns and fee burns.
    pub open spec fn wf(self) -> bool {
        &&& self.total_supply@.len() == self.coin_count()
        &&& self.coin_count() <= self.max_coins as int
        &&& unique_balance_keys(self.balances@)
        &&& balance_coins_lt(self.balances@, self.coin_count())
        &&& unique_pairs(self.mint_permissions@)
        &&& pair_coins_lt(self.mint_permissions@, self.coin_count())
        &&& unique_pairs(self.burn_permissions@)
        &&& pair_coins_lt(self.burn_permissions@, self.coin_count())
        &&& unique_assoc_keys(self.preferred_fee_coin@)
        &&& forall|i: int|
            0 <= i < self.preferred_fee_coin@.len() ==> (
            (#[trigger] self.preferred_fee_coin@[i]).1 as int) < self.coin_count()
        &&& forall|i: int|
            0 <= i < self.coin_count() ==> (#[trigger] self.coin_metadata@[i]).symbol@.len()
                <= self.max_symbol_length as int
        &&& forall|i: int|
            0 <= i < self.coin_count() ==> (#[trigger] self.coin_metadata@[i]).name@.len()
                <= self.max_name_length as int
        &&& forall|i: int, j: int|
            0 <= i < j < self.coin_count() ==> (#[trigger] self.coin_metadata@[i]).symbol@ != (
            #[trigger] self.coin_metadata@[j]).symbol@
        &&& self.minted_cumulative@.len() == self.coin_count()
        &&& self.burned_cumulative@.len() == self.coin_count()
        &&& self.fee_burned_cumulative@.len() == self.coin_count()
        &&& forall|c: CoinId|
            (c as int) < self.coin_count() ==> #[trigger] coin_sum(self.balances@, c)
                == self.spec_supply(c) as int
        &&& forall|c: CoinId|
            (c as int) < self.coin_count() ==> self.minted_cumulative@[c as int]
                - self.burned_cumulative@[c as int] - self.fee_burned_cumulative@[c as int]
                == #[trigger] self.spec_supply(c) as int
    }

    /// An empty ledger under the given host-chosen limits.
    pub fn new(
        max_symbol_length: u32,
        max_name_length: u32,
        max_coins: u32,
        coin_deposit: u128,
        max_supply: u128,
    ) -> (r: Ledger)
        ensures
            r.wf(),
            r.coin_count() == 0,
            r.max_symbol_length == max_symbol_length,
            r.max_name_length == max_name_length,
            r.max_coins == max_coins,
            r.coin_deposit == coin_deposit,
            r.max_supply == max_supply,
            r.balances@.len() == 0,
            r.preferred_fee_coin@.len() == 0,
    {
        Ledger {
            max_symbol_length,
            max_name_length,
            max_coins,
            coin_deposit,
            max_supply,
            coin_metadata: Vec::new(),
            total_supply: Vec::new(),
            balances: Vec::new(),
            mint_permissions: Vec::new(),
            burn_permissions: Vec::new(),
            preferred_fee_coin: Vec::new(),
            minted_cumulative: Ghost(Seq::empty()),
            burned_cumulative: Ghost(Seq::empty()),
            fee_burned_cumulative: Ghost(Seq::empty()),
        }
    }

    /// Validates an operation's fee-coin override: it must name an
    /// existing, fee-eligible coin.
    pub fn check_tx_fee_coin(&self, t: Option<CoinId>) -> (r: Result<(), Error>)
        ensures
            match self.tx_fee_check_err(t) {
                Some(e) => r == Err::<(), Error>(e),
                None => r == Ok::<(), Error>(()),
            },
    {
        match t {
            Option::None => Ok(()),
            Option::Some(c) => {
                if (c as usize) < self.coin_metadata.len() {
                    if self.coin_metadata[c as usize].fee_config.can_pay_tx_fees {
                        Ok(())
                    } else {
                        Err(Error::CannotPayFees)
                    }
                } else {
                    Err(Error::CoinNotFound)
                }
            },
        }
    }
}

/// A fresh byte vector holding the same bytes.
pub fn clone_bytes(v: &Vec<u8>) -> (r: Vec<u8>)
    ensures
        r@ == v@,
{
    let mut r: Vec<u8> = Vec::new();
    let mut i: usize = 0;
    while i < v.len()
        invariant
            i <= v@.len(),
            r@ == v@.subrange(0, i as int),
        decreases v@.len() - i,
    {
        r.push(v[i]);
        proof {
            assert(r@ =~= v@.subrange(0, i + 1));
        }
        i = i + 1;
    }
    proof {
        assert(r@ =~= v@);
    }
    r
}

/// Whether two byte vectors hold the same bytes.
pub fn bytes_eq(a: &Vec<u8>, b: &Vec<u8>) -> (r: bool)
    ensures
        r == (a@ == b@),
{
    if a.len() != b.len() {
        return false;
    }
    let mut i: usize = 0;
    while i < a.len()
        invariant
            a@.len() == b@.len(),
            i <= a@.len(),
            forall|k: int| 0 <= k < i ==> a@[k] == b@[k],
        decreases a@.len() - i,
    {
        if a[i] != b[i] {
            return false;
        }
        i = i + 1;
    }
    proof {
        assert(a@ =~= b@);
    }
    true
}

impl Ledger {
    /// The id of the coin carrying this symbol, if any.
    fn find_symbol(&self, symbol: &Vec<u8>) -> (r: Option<CoinId>)
        requires
            self.coin_count() <= u32::MAX,
        ensures
            match r {
                Some(c) => self.coin_exists(c) && self.coin_at(c).symbol@ == symbol@,
                None => !self.has_symbol(symbol@),
            },
    {
        let mut i: usize = 0;
        while i < self.coin_metadata.len()
            invariant
                self.coin_count() <= u32::MAX,
                i <= self.coin_count(),
                forall|k: int| 0 <= k < i ==> (#[trigger] self.coin_metadata@[k]).symbol@
                    != symbol@,
            decreases self.coin_count() - i,
        {
            if bytes_eq(&self.coin_metadata[i].symbol, symbol) {
                return Some(i as u32);
            }
            i = i + 1;
        }
        None
    }

    /// The first failing validation of a coin creation, if any.
    pub open spec fn create_coin_err(
        self,
        who: u64,
        symbol: Seq<u8>,
        name: Seq<u8>,
        initial_supply: u128,
        tx_fee_coin: Option<CoinId>,
        can_reserve_deposit: bool,
    ) -> Option<Error> {
        if self.tx_fee_check_err(tx_fee_coin) is Some {
            self.tx_fee_check_err(tx_fee_coin)
        } else if initial_supply > self.max_supply {
            Some(Error::ExceedsMaxSupply)
        } else if initial_supply == 0 {
            Some(Error::ZeroAmount)
        } else if symbol.len() > self.max_symbol_length as int {
            Some(Error::SymbolTooLong)
        } else if name.len() > self.max_name_length as int {
            Some(Error::NameTooLong)
        } else if self.has_symbol(symbol) {
            Some(Error::SymbolAlreadyExists)
        } else if self.coin_count() >= self.max_coins as int {
            Some(Error::TooManyCoins)
        } else if !can_reserve_deposit {
            Some(Error::InsufficientBalance)
        } else {
            None
        }
    }

    /// Number of accounts in an optional grant list.
    pub open spec fn grant_count(grants: Option<Vec<u64>>) -> int {
        match grants {
            Option::Some(v) => v@.len() as int,
            Option::None => 0,
        }
    }

    /// Whether an optional grant list contains the account.
    pub open spec fn grant_listed(grants: Option<Vec<u64>>, a: u64) -> bool {
        match grants {
            Option::Some(v) => v@.contains(a),
            Option::None => false,
        }
    }

    /// The two aggregates agree on everything but the mint grants.
    pub open spec fn same_but_mint_grants(a: Ledger, b: Ledger) -> bool {
        &&& a.max_symbol_length == b.max_symbol_length
        &&& a.max_name_length == b.max_name_length
        &&& a.max_coins == b.max_coins
        &&& a.coin_deposit == b.coin_deposit
        &&& a.max_supply == b.max_supply
        &&& a.coin_metadata == b.coin_metadata
        &&& a.total_supply == b.total_supply
        &&& a.balances == b.balances
        &&& a.burn_permissions == b.burn_permissions
        &&& a.preferred_fee_coin == b.preferred_fee_coin
        &&& a.minted_cumulative@ == b.minted_cumulative@
        &&& a.burned_cumulative@ == b.burned_cumulative@
        &&& a.fee_burned_cumulative@ == b.fee_burned_cumulative@
    }

    /// The two aggregates agree on everything but the burn grants.
    pub open spec fn same_but_burn_grants(a: Ledger, b: Ledger) -> bool {
        &&& a.max_symbol_length == b.max_symbol_length
        &&& a.max_name_length == b.max_name_length
        &&& a.max_coins == b.max_coins
        &&& a.coin_deposit == b.coin_deposit
        &&& a.max_supply == b.max_supply
        &&& a.coin_metadata == b.coin_metadata
        &&& a.total_supply == b.total_supply
        &&& a.balances == b.balances
        &&& a.mint_permissions == b.mint_permissions
        &&& a.preferred_fee_coin == b.preferred_fee_coin
        &&& a.minted_cumulative@ == b.minted_cumulative@
        &&& a.burned_cumulative@ == b.burned_cumulative@
        &&& a.fee_burned_cumulative@ == b.fee_burned_cumulative@
    }

    /// Creates a new coin owned by `who`, registering its symbol,
    /// setting total supply and the creator's balance to
    /// `initial_supply`, and granting mint and burn to the creator and
    /// to the listed accounts.  The fee configuration starts zeroed but
    /// for the given eligibility flag.
    ///
    /// `can_reserve_deposit` is the host's answer to whether the fixed
    /// creation deposit can be reserved from `who` in the native
    /// currency; when the answer is no the creation fails with
    /// `InsufficientBalance` and the host reserves nothing.  On success
    /// the host must then perform the reservation.
    ///
    /// Returns the notifications to deliver: one per listed grant, then
    /// the creation notification.
    #[verifier::loop_isolation(false)]
    pub fn create_coin(
        &mut self,
        who: u64,
        symbol: Vec<u8>,
        name: Vec<u8>,
        decimals: u8,
        initial_supply: u128,
        initial_minters: Option<Vec<u64>>,
        initial_burners: Option<Vec<u64>>,
        can_pay_tx_fees: bool,
        tx_fee_coin: Option<CoinId>,
        can_reserve_deposit: bool,
    ) -> (r: Result<Vec<Event>, Error>)
        requires
            old(self).wf(),
        ensures
            final(self).wf(),
            match old(self).create_coin_err(
                who,
                symbol@,
                name@,
                initial_supply,
                tx_fee_coin,
                can_reserve_deposit,
            ) {
                Some(e) => r == Err::<Vec<Event>, Error>(e) && *final(self) == *old(self),
                None => {
                    let c = old(self).coin_count() as CoinId;
                    let nm = Self::grant_count(initial_minters);
                    let nb = Self::grant_count(initial_burners);
                    &&& r matches Ok(ev)
                    &&& final(self).coin_count() == old(self).coin_count() + 1
                    &&& final(self).coin_at(c).symbol@ == symbol@
                    &&& final(self).coin_at(c).name@ == name@
                    &&& final(self).coin_at(c).decimals == decimals
                    &&& final(self).coin_at(c).owner == who
                    &&& final(self).coin_at(c).deposit == old(self).coin_deposit
                    &&& final(self).coin_at(c).fee_config == (FeeConfig {
                        transfer_fee: 0,
                        minimum_balance: 0,
                        can_pay_tx_fees,
                    })
                    &&& forall|i: int|
                        0 <= i < old(self).coin_count() ==> #[trigger] final(self).coin_metadata@[i]
                            == old(self).coin_metadata@[i]
                    &&& final(self).spec_supply(c) == initial_supply
                    &&& forall|c2: CoinId|
                        (c2 as int) < old(self).coin_count() ==> #[trigger] final(self).spec_supply(
                            c2,
                        ) == old(self).spec_supply(c2)
                    &&& final(self).spec_balance(c, who) == initial_supply
                    &&& forall|c2: CoinId, a: u64|
                        !(c2 == c && a == who) ==> #[trigger] final(self).spec_balance(c2, a)
                            == old(self).spec_balance(c2, a)
                    &&& forall|a: u64|
                        #[trigger] final(self).spec_can_mint(c, a) <==> (a == who
                            || Self::grant_listed(initial_minters, a))
                    &&& forall|a: u64|
                        #[trigger] final(self).spec_can_burn(c, a) <==> (a == who
                            || Self::grant_listed(initial_burners, a))
                    &&& forall|c2: CoinId, a: u64|
                        c2 != c ==> #[trigger] final(self).spec_can_mint(c2, a) == old(
                            self,
                        ).spec_can_mint(c2, a)
                    &&& forall|c2: CoinId, a: u64|
                        c2 != c ==> #[trigger] final(self).spec_can_burn(c2, a) == old(
                            self,
                        ).spec_can_burn(c2, a)
                    &&& final(self).preferred_fee_coin@ == old(self).preferred_fee_coin@
                    &&& final(self).minted_cumulative@ == old(self).minted_cumulative@.push(
                        initial_supply as int,
                    )
                    &&& final(self).burned_cumulative@ == old(self).burned_cumulative@.push(0)
                    &&& final(self).fee_burned_cumulative@ == old(
                        self,
                    ).fee_burned_cumulative@.push(0)
                    &&& ev@.len() == nm + nb + 1
                    &&& forall|k: int|
                        0 <= k < nm ==> #[trigger] ev@[k] == (Event::MintPermissionSet {
                            coin_id: c,
                            account: initial_minters -> Some_0@[k],
                            can_mint: true,
                        })
                    &&& forall|k: int|
                        0 <= k < nb ==> #[trigger] ev@[nm + k] == (Event::BurnPermissionSet {
                            coin_id: c,
                            account: initial_burners -> Some_0@[k],
                            can_burn: true,
                        })
                    &&& ev@.last() matches Event::CoinCreated {
                        coin_id: cc,
                        symbol: sy,
                        name: na,
                        creator,
                        initial_supply: isup,
                    } && cc == c && sy@ == symbol@ && na@ == name@ && creator == who && isup
                        == initial_supply
                },
            },
    {
        if let Err(e) = self.check_tx_fee_coin(tx_fee_coin) {
            return Err(e);
        }
        if initial_supply > self.max_supply {
            return Err(Error::ExceedsMaxSupply);
        }
        if initial_supply == 0 {
            return Err(Error::ZeroAmount);
        }
        if symbol.len() > self.max_symbol_length as usize {
            return Err(Error::SymbolTooLong);
        }
        if name.len() > self.max_name_length as usize {
            return Err(Error::NameTooLong);
        }
        if self.find_symbol(&symbol).is_some() {
            return Err(Error::SymbolAlreadyExists);
        }
        if self.coin_metadata.len() >= self.max_coins as usize {
            return Err(Error::TooManyCoins);
        }
        if !can_reserve_deposit {
            return Err(Error::InsufficientBalance);
        }

        let ghost pre = *self;
        let coin_id: CoinId = self.coin_metadata.len() as u32;
        let record = CoinInfo {
            symbol: clone_bytes(&symbol),
            name: clone_bytes(&name),
            decimals,
            owner: who,
            deposit: self.coin_deposit,
            fee_config: FeeConfig { transfer_fee: 0, minimum_balance: 0, can_pay_tx_fees },
        };
        self.coin_metadata.push(record);
        self.total_supply.push(initial_supply);
        proof {
            assert(!has_balance_key(self.balances@, coin_id, who));
        }
        balance_set(&mut self.balances, coin_id, who, initial_supply);
        pair_insert(&mut self.mint_permissions, coin_id, who);
        pair_insert(&mut self.burn_permissions, coin_id, who);

        let mut events: Vec<Event> = Vec::new();
        let ghost nm = Self::grant_count(initial_minters);
        let ghost mid1 = *self;
        match &initial_minters {
            Option::Some(minters) => {
                let mut k: usize = 0;
                while k < minters.len()
                    invariant
                        k <= minters@.len(),
                        Self::same_but_mint_grants(*self, mid1),
                        unique_pairs(self.mint_permissions@),
                        pair_coins_lt(self.mint_permissions@, pre.coin_count() + 1),
                        forall|a: u64|
                            #[trigger] has_pair(self.mint_permissions@, coin_id, a) <==> (a == who
                                || exists|j: int| 0 <= j < k && minters@[j] == a),
                        forall|c2: CoinId, a: u64|
                            c2 != coin_id ==> #[trigger] has_pair(self.mint_permissions@, c2, a)
                                == has_pair(pre.mint_permissions@, c2, a),
                        events@.len() == k,
                        forall|j: int|
                            0 <= j < k ==> #[trigger] events@[j] == (Event::MintPermissionSet {
                                coin_id,
                                account: minters@[j],
                                can_mint: true,
                            }),
                    decreases minters@.len() - k,
                {
                    pair_insert(&mut self.mint_permissions, coin_id, minters[k]);
                    events.push(
                        Event::MintPermissionSet {
                            coin_id,
                            account: minters[k],
                            can_mint: true,
                        },
                    );
                    k = k + 1;
                }
            },
            Option::None => {},
        }
        let ghost nb = Self::grant_count(initial_burners);
        let ghost mid2 = *self;
        match &initial_burners {
            Option::Some(burners) => {
                let mut k: usize = 0;
                while k < burners.len()
                    invariant
                        k <= burners@.len(),
                        Self::same_but_burn_grants(*self, mid2),
                        unique_pairs(self.burn_permissions@),
                        pair_coins_lt(self.burn_permissions@, pre.coin_count() + 1),
                        forall|a: u64|
                            #[trigger] has_pair(self.burn_permissions@, coin_id, a) <==> (a == who
                                || exists|j: int| 0 <= j < k && burners@[j] == a),
                        forall|c2: CoinId, a: u64|
                            c2 != coin_id ==> #[trigger] has_pair(self.burn_permissions@, c2, a)
                                == has_pair(pre.burn_permissions@, c2, a),
                        events@.len() == nm + k,
                        forall|j: int|
                            0 <= j < nm ==> #[trigger] events@[j] == (Event::MintPermissionSet {
                                coin_id,
                                account: initial_minters -> Some_0@[j],
                                can_mint: true,
                            }),
                        forall|j: int|
                            0 <= j < k ==> #[trigger] events@[nm + j] == (
                            Event::BurnPermissionSet {
                                coin_id,
                                account: burners@[j],
                                can_burn: true,
                            }),
                    decreases burners@.len() - k,
                {
                    pair_insert(&mut self.burn_permissions, coin_id, burners[k]);
                    events.push(
                        Event::BurnPermissionSet {
                            coin_id,
                            account: burners[k],
                            can_burn: true,
                        },
                    );
                    k = k + 1;
                }
            },
            Option::None => {},
        }
        events.push(
            Event::CoinCreated { coin_id, symbol, name, creator: who, initial_supply },
        );

        proof {
            self.minted_cumulative@ = self.minted_cumulative@.push(initial_supply as int);
            self.burned_cumulative@ = self.burned_cumulative@.push(0);
            self.fee_burned_cumulative@ = self.fee_burned_cumulative@.push(0);
        }

        proof {
            lemma_coin_sum_no_entries(pre.balances@, coin_id);
            lemma_lookup_absent(pre.balances@, coin_id, who);
            assert forall|c: CoinId| (c as int) < self.coin_count() implies #[trigger] coin_sum(
                self.balances@,
                c,
            ) == self.spec_supply(c) as int by {
                if (c as int) < pre.coin_count() {
                    assert(coin_sum(pre.balances@, c) == pre.spec_supply(c) as int);
                }
            }
            assert forall|c: CoinId| (c as int) < self.coin_count() implies
                self.minted_cumulative@[c as int] - self.burned_cumulative@[c as int]
                - self.fee_burned_cumulative@[c as int] == #[trigger] self.spec_supply(c) as int by {
                if (c as int) < pre.coin_count() {
                    assert(pre.minted_cumulative@[c as int] - pre.burned_cumulative@[c as int]
                        - pre.fee_burned_cumulative@[c as int] == pre.spec_supply(c) as int);
                }
            }
        }
        Ok(events)
    }

    /// The first failing validation of a transfer, if any.
    pub open spec fn transfer_err(
        self,
        from: u64,
        coin_id: CoinId,
        to: u64,
        amount: u128,
        tx_fee_coin: Option<CoinId>,
    ) -> Option<Error> {
        if self.tx_fee_check_err(tx_fee_coin) is Some {
            self.tx_fee_check_err(tx_fee_coin)
        } else if amount == 0 {
            Some(Error::ZeroAmount)
        } else if from == to {
            Some(Error::TransferToSelf)
        } else if !self.coin_exists(coin_id) {
            Some(Error::CoinNotFound)
        } else if amount + self.coin_at(coin_id).fee_config.transfer_fee > u128::MAX {
            Some(Error::Overflow)
        } else if self.spec_balance(coin_id, from) < amount + self.coin_at(
            coin_id,
        ).fee_config.transfer_fee {
            Some(Error::InsufficientBalance)
        } else if self.spec_balance(coin_id, from) - amount - self.coin_at(
            coin_id,
        ).fee_config.transfer_fee < self.coin_at(coin_id).fee_config.minimum_balance {
            Some(Error::BelowMinimumBalance)
        } else {
            None
        }
    }

    /// Moves `amount` of `coin_id` from `from` to `to`, additionally
    /// deducting the coin's transfer fee from the sender and destroying
    /// it from total supply.  The sender must retain at least the
    /// coin's minimum balance.  On success the sender's balance never
    /// ends below that minimum, and a transfer of zero or to oneself
    /// never succeeds.
    pub fn transfer(
        &mut self,
        from: u64,
        coin_id: CoinId,
        to: u64,
        amount: u128,
        tx_fee_coin: Option<CoinId>,
    ) -> (r: Result<Vec<Event>, Error>)
        requires
            old(self).wf(),
        ensures
            final(self).wf(),
            match old(self).transfer_err(from, coin_id, to, amount, tx_fee_coin) {
                Some(e) => r == Err::<Vec<Event>, Error>(e) && *final(self) == *old(self),
                None => {
                    let fee = old(self).coin_at(coin_id).fee_config.transfer_fee;
                    &&& r matches Ok(ev)
                    &&& final(self).spec_balance(coin_id, from) as int == old(self).spec_balance(
                        coin_id,
                        from,
                    ) - amount - fee
                    &&& final(self).spec_balance(coin_id, from) >= old(self).coin_at(
                        coin_id,
                    ).fee_config.minimum_balance
                    &&& final(self).spec_balance(coin_id, to) as int == old(self).spec_balance(
                        coin_id,
                        to,
                    ) + amount
                    &&& forall|c: CoinId, a: u64|
                        !(c == coin_id && (a == from || a == to)) ==> #[trigger] final(self).spec_balance(c, a) == old(self).spec_balance(c, a)
                    &&& final(self).spec_supply(coin_id) as int == old(self).spec_supply(coin_id)
                        - fee
                    &&& forall|c: CoinId|
                        (c as int) < old(self).coin_count() && c != coin_id ==> #[trigger] final(self).spec_supply(c) == old(self).spec_supply(c)
                    &&& final(self).coin_metadata@ == old(self).coin_metadata@
                    &&& final(self).mint_permissions@ == old(self).mint_permissions@
                    &&& final(self).burn_permissions@ == old(self).burn_permissions@
                    &&& final(self).preferred_fee_coin@ == old(self).preferred_fee_coin@
                    &&& final(self).minted_cumulative@ == old(self).minted_cumulative@
                    &&& final(self).burned_cumulative@ == old(self).burned_cumulative@
                    &&& final(self).fee_burned_cumulative@ == old(
                        self,
                    ).fee_burned_cumulative@.update(
                        coin_id as int,
                        old(self).fee_burned_cumulative@[coin_id as int] + fee,
                    )
                    &&& ev@ == if fee > 0 {
                        seq![
                            Event::Burned { coin_id, from, amount: fee },
                            Event::Transfer { coin_id, from, to, amount },
                        ]
                    } else {
                        seq![Event::Transfer { coin_id, from, to, amount }]
                    }
                },
            },
    {
        if let Err(e) = self.check_tx_fee_coin(tx_fee_coin) {
            return Err(e);
        }
        if amount == 0 {
            return Err(Error::ZeroAmount);
        }
        if from == to {
            return Err(Error::TransferToSelf);
        }
        if !((coin_id as usize) < self.coin_metadata.len()) {
            return Err(Error::CoinNotFound);
        }
        let transfer_fee = self.coin_metadata[coin_id as usize].fee_config.transfer_fee;
        let minimum_balance = self.coin_metadata[coin_id as usize].fee_config.minimum_balance;
        let total_deduct = match amount.checked_add(transfer_fee) {
            Some(t) => t,
            None => {
                return Err(Error::Overflow);
            },
        };
        let from_balance = balance_get(&self.balances, coin_id, from);
        if from_balance < total_deduct {
            return Err(Error::InsufficientBalance);
        }
        let new_from_balance = from_balance - total_deduct;
        if new_from_balance < minimum_balance {
            return Err(Error::BelowMinimumBalance);
        }
        let to_balance = balance_get(&self.balances, coin_id, to);
        proof {
            lemma_two_lookups_le_sum(self.balances@, coin_id, from, to);
        }
        let new_to_balance = match to_balance.checked_add(amount) {
            Some(t) => t,
            None => {
                // impossible: both cells are bounded by the coin's
                // supply, which the sender's debit covers
                assert(false);
                0
            },
        };

        let ghost pre = *self;
        balance_set(&mut self.balances, coin_id, from, new_from_balance);
        balance_set(&mut self.balances, coin_id, to, new_to_balance);
        let mut events: Vec<Event> = Vec::new();
        if transfer_fee > 0 {
            proof {
                lemma_lookup_le_sum(pre.balances@, coin_id, from);
            }
            let current_supply = self.total_supply[coin_id as usize];
            let new_supply = if current_supply >= transfer_fee {
                current_supply - transfer_fee
            } else {
                0
            };
            self.total_supply[coin_id as usize] = new_supply;
            events.push(Event::Burned { coin_id, from, amount: transfer_fee });
        }
        proof {
            self.fee_burned_cumulative@ = self.fee_burned_cumulative@.update(
                coin_id as int,
                self.fee_burned_cumulative@[coin_id as int] + transfer_fee,
            );
        }
        events.push(Event::Transfer { coin_id, from, to, amount });
        proof {
            if transfer_fee > 0 {
                assert(events@ =~= seq![
                    Event::Burned { coin_id, from, amount: transfer_fee },
                    Event::Transfer { coin_id, from, to, amount },
                ]);
            } else {
                assert(events@ =~= seq![Event::Transfer { coin_id, from, to, amount }]);
            }
            assert forall|c: CoinId| (c as int) < self.coin_count() implies #[trigger] coin_sum(
                self.balances@,
                c,
            ) == self.spec_supply(c) as int by {
                assert(coin_sum(pre.balances@, c) == pre.spec_supply(c) as int);
            }
            assert forall|c: CoinId| (c as int) < self.coin_count() implies
                self.minted_cumulative@[c as int] - self.burned_cumulative@[c as int]
                - self.fee_burned_cumulative@[c as int] == #[trigger] self.spec_supply(c) as int by {
                assert(pre.minted_cumulative@[c as int] - pre.burned_cumulative@[c as int]
                    - pre.fee_burned_cumulative@[c as int] == pre.spec_supply(c) as int);
            }
        }
        Ok(events)
    }

    /// The first failing validation of a mint, if any.
    pub open spec fn mint_err(
        self,
        who: u64,
        coin_id: CoinId,
        amount: u128,
        tx_fee_coin: Option<CoinId>,
    ) -> Option<Error> {
        if self.tx_fee_check_err(tx_fee_coin) is Some {
            self.tx_fee_check_err(tx_fee_coin)
        } else if amount == 0 {
            Some(Error::ZeroAmount)
        } else if !self.coin_exists(coin_id) {
            Some(Error::CoinNotFound)
        } else if !self.spec_can_mint(coin_id, who) {
            Some(Error::NoMintPermission)
        } else if self.spec_supply(coin_id) + amount > u128::MAX {
            Some(Error::Overflow)
        } else if self.spec_supply(coin_id) + amount > self.max_supply {
            Some(Error::ExceedsMaxSupply)
        } else {
            None
        }
    }

    /// Mints `amount` of `coin_id` to `to`.  The caller must hold mint
    /// permission, and the new total supply never exceeds the maximum
    /// supply.
    pub fn mint(
        &mut self,
        who: u64,
        coin_id: CoinId,
        to: u64,
        amount: u128,
        tx_fee_coin: Option<CoinId>,
    ) -> (r: Result<Vec<Event>, Error>)
        requires
            old(self).wf(),
        ensures
            final(self).wf(),
            match old(self).mint_err(who, coin_id, amount, tx_fee_coin) {
                Some(e) => r == Err::<Vec<Event>, Error>(e) && *final(self) == *old(self),
                None => {
                    &&& r matches Ok(ev)
                    &&& final(self).spec_balance(coin_id, to) as int == old(self).spec_balance(
                        coin_id,
                        to,
                    ) + amount
                    &&& forall|c: CoinId, a: u64|
                        !(c == coin_id && a == to) ==> #[trigger] final(self).spec_balance(c, a)
                            == old(self).spec_balance(c, a)
                    &&& final(self).spec_supply(coin_id) as int == old(self).spec_supply(coin_id)
                        + amount
                    &&& final(self).spec_supply(coin_id) <= old(self).max_supply
                    &&& forall|c: CoinId|
                        (c as int) < old(self).coin_count() && c != coin_id ==> #[trigger] final(self).spec_supply(c) == old(self).spec_supply(c)
                    &&& final(self).coin_metadata@ == old(self).coin_metadata@
                    &&& final(self).mint_permissions@ == old(self).mint_permissions@
                    &&& final(self).burn_permissions@ == old(self).burn_permissions@
                    &&& final(self).preferred_fee_coin@ == old(self).preferred_fee_coin@
                    &&& final(self).minted_cumulative@ == old(self).minted_cumulative@.update(
                        coin_id as int,
                        old(self).minted_cumulative@[coin_id as int] + amount,
                    )
                    &&& final(self).burned_cumulative@ == old(self).burned_cumulative@
                    &&& final(self).fee_burned_cumulative@ == old(self).fee_burned_cumulative@
                    &&& ev@ == seq![Event::Minted { coin_id, to, amount }]
                },
            },
    {
        if let Err(e) = self.check_tx_fee_coin(tx_fee_coin) {
            return Err(e);
        }
        if amount == 0 {
            return Err(Error::ZeroAmount);
        }
        if !((coin_id as usize) < self.coin_metadata.len()) {
            return Err(Error::CoinNotFound);
        }
        if !pair_contains(&self.mint_permissions, coin_id, who) {
            return Err(Error::NoMintPermission);
        }
        let current_supply = self.total_supply[coin_id as usize];
        let new_supply = match current_supply.checked_add(amount) {
            Some(s) => s,
            None => {
                return Err(Error::Overflow);
            },
        };
        if new_supply > self.max_supply {
            return Err(Error::ExceedsMaxSupply);
        }
        let current_balance = balance_get(&self.balances, coin_id, to);
        proof {
            lemma_lookup_le_sum(self.balances@, coin_id, to);
        }
        let new_balance = match current_balance.checked_add(amount) {
            Some(b) => b,
            None => {
                // impossible: the cell is bounded by the coin's supply
                assert(false);
                0
            },
        };

        let ghost pre = *self;
        balance_set(&mut self.balances, coin_id, to, new_balance);
        self.total_supply[coin_id as usize] = new_supply;
        proof {
            self.minted_cumulative@ = self.minted_cumulative@.update(
                coin_id as int,
                self.minted_cumulative@[coin_id as int] + amount,
            );
            assert forall|c: CoinId| (c as int) < self.coin_count() implies #[trigger] coin_sum(
                self.balances@,
                c,
            ) == self.spec_supply(c) as int by {
                assert(coin_sum(pre.balances@, c) == pre.spec_supply(c) as int);
            }
            assert forall|c: CoinId| (c as int) < self.coin_count() implies
                self.minted_cumulative@[c as int] - self.burned_cumulative@[c as int]
                - self.fee_burned_cumulative@[c as int] == #[trigger] self.spec_supply(c) as int by {
                assert(pre.minted_cumulative@[c as int] - pre.burned_cumulative@[c as int]
                    - pre.fee_burned_cumulative@[c as int] == pre.spec_supply(c) as int);
            }
        }
        let mut events: Vec<Event> = Vec::new();
        events.push(Event::Minted { coin_id, to, amount });
        proof {
            assert(events@ =~= seq![Event::Minted { coin_id, to, amount }]);
        }
        Ok(events)
    }

    /// The first failing validation of a burn, if any.
    pub open spec fn burn_err(
        self,
        who: u64,
        coin_id: CoinId,
        amount: u128,
        tx_fee_coin: Option<CoinId>,
    ) -> Option<Error> {
        if self.tx_fee_check_err(tx_fee_coin) is Some {
            self.tx_fee_check_err(tx_fee_coin)
        } else if amount == 0 {
            Some(Error::ZeroAmount)
        } else if !self.coin_exists(coin_id) {
            Some(Error::CoinNotFound)
        } else if !self.spec_can_burn(coin_id, who) {
            Some(Error::NoBurnPermission)
        } else if self.spec_balance(coin_id, who) < amount {
            Some(Error::InsufficientBalance)
        } else {
            None
        }
    }

    /// Burns `amount` of `coin_id` from the caller's balance, reducing
    /// total supply by the same amount.  The caller must hold burn
    /// permission and a sufficient balance.
    pub fn burn(
        &mut self,
        who: u64,
        coin_id: CoinId,
        amount: u128,
        tx_fee_coin: Option<CoinId>,
    ) -> (r: Result<Vec<Event>, Error>)
        requires
            old(self).wf(),
        ensures
            final(self).wf(),
            match old(self).burn_err(who, coin_id, amount, tx_fee_coin) {
                Some(e) => r == Err::<Vec<Event>, Error>(e) && *final(self) == *old(self),
                None => {
                    &&& r matches Ok(ev)
                    &&& final(self).spec_balance(coin_id, who) as int == old(self).spec_balance(
                        coin_id,
                        who,
                    ) - amount
                    &&& forall|c: CoinId, a: u64|
                        !(c == coin_id && a == who) ==> #[trigger] final(self).spec_balance(c, a)
                            == old(self).spec_balance(c, a)
                    &&& final(self).spec_supply(coin_id) as int == old(self).spec_supply(coin_id)
                        - amount
                    &&& forall|c: CoinId|
                        (c as int) < old(self).coin_count() && c != coin_id ==> #[trigger] final(self).spec_supply(c) == old(self).spec_supply(c)
                    &&& final(self).coin_metadata@ == old(self).coin_metadata@
                    &&& final(self).mint_permissions@ == old(self).mint_permissions@
                    &&& final(self).burn_permissions@ == old(self).burn_permissions@
                    &&& final(self).preferred_fee_coin@ == old(self).preferred_fee_coin@
                    &&& final(self).minted_cumulative@ == old(self).minted_cumulative@
                    &&& final(self).burned_cumulative@ == old(self).burned_cumulative@.update(
                        coin_id as int,
                        old(self).burned_cumulative@[coin_id as int] + amount,
                    )
                    &&& final(self).fee_burned_cumulative@ == old(self).fee_burned_cumulative@
                    &&& ev@ == seq![Event::Burned { coin_id, from: who, amount }]
                },
            },
    {
        if let Err(e) = self.check_tx_fee_coin(tx_fee_coin) {
            return Err(e);
        }
        if amount == 0 {
            return Err(Error::ZeroAmount);
        }
        if !((coin_id as usize) < self.coin_metadata.len()) {
            return Err(Error::CoinNotFound);
        }
        if !pair_contains(&self.burn_permissions, coin_id, who) {
            return Err(Error::NoBurnPermission);
        }
        let current_balance = balance_get(&self.balances, coin_id, who);
        if current_balance < amount {
            return Err(Error::InsufficientBalance);
        }
        proof {
            lemma_lookup_le_sum(self.balances@, coin_id, who);
        }
        let new_balance = if current_balance >= amount {
            current_balance - amount
        } else {
            0
        };
        let current_supply = self.total_supply[coin_id as usize];
        let new_supply = if current_supply >= amount {
            current_supply - amount
        } else {
            0
        };

        let ghost pre = *self;
        balance_set(&mut self.balances, coin_id, who, new_balance);
        self.total_supply[coin_id as usize] = new_supply;
        proof {
            self.burned_cumulative@ = self.burned_cumulative@.update(
                coin_id as int,
                self.burned_cumulative@[coin_id as int] + amount,
            );
            assert forall|c: CoinId| (c as int) < self.coin_count() implies #[trigger] coin_sum(
                self.balances@,
                c,
            ) == self.spec_supply(c) as int by {
                assert(coin_sum(pre.balances@, c) == pre.spec_supply(c) as int);
            }
            assert forall|c: CoinId| (c as int) < self.coin_count() implies
                self.minted_cumulative@[c as int] - self.burned_cumulative@[c as int]
                - self.fee_burned_cumulative@[c as int] == #[trigger] self.spec_supply(c) as int by {
                assert(pre.minted_cumulative@[c as int] - pre.burned_cumulative@[c as int]
                    - pre.fee_burned_cumulative@[c as int] == pre.spec_supply(c) as int);
            }
        }
        let mut events: Vec<Event> = Vec::new();
        events.push(Event::Burned { coin_id, from: who, amount });
        proof {
            assert(events@ =~= seq![Event::Burned { coin_id, from: who, amount }]);
        }
        Ok(events)
    }

    /// The first failing validation of an owner-only operation, if any.
    pub open spec fn owner_op_err(
        self,
        who: u64,
        coin_id: CoinId,
        tx_fee_coin: Option<CoinId>,
    ) -> Option<Error> {
        if self.tx_fee_check_err(tx_fee_coin) is Some {
            self.tx_fee_check_err(tx_fee_coin)
        } else if !self.coin_exists(coin_id) {
            Some(Error::CoinNotFound)
        } else if self.coin_at(coin_id).owner != who {
            Some(Error::NotAuthorized)
        } else {
            None
        }
    }

    /// Everything but the record of `coin_id`, the mint grants and the
    /// events is unchanged between the two aggregates, and the record
    /// keeps its symbol, name, decimals and deposit.
    pub open spec fn metadata_update_frame(pre: Ledger, post: Ledger, coin_id: CoinId) -> bool {
        &&& post.coin_count() == pre.coin_count()
        &&& forall|i: int|
            0 <= i < pre.coin_count() && i != coin_id ==> #[trigger] post.coin_metadata@[i]
                == pre.coin_metadata@[i]
        &&& post.coin_at(coin_id).symbol@ == pre.coin_at(coin_id).symbol@
        &&& post.coin_at(coin_id).name@ == pre.coin_at(coin_id).name@
        &&& post.coin_at(coin_id).decimals == pre.coin_at(coin_id).decimals
        &&& post.coin_at(coin_id).deposit == pre.coin_at(coin_id).deposit
        &&& post.total_supply@ == pre.total_supply@
        &&& post.balances@ == pre.balances@
        &&& post.burn_permissions@ == pre.burn_permissions@
        &&& post.preferred_fee_coin@ == pre.preferred_fee_coin@
        &&& post.minted_cumulative@ == pre.minted_cumulative@
        &&& post.burned_cumulative@ == pre.burned_cumulative@
        &&& post.fee_burned_cumulative@ == pre.fee_burned_cumulative@
    }

    /// Transfers ownership of `coin_id` to `new_owner`.  Only the
    /// current owner may do so.  The mint grant moves from the old
    /// owner to the new one; burn grants are untouched.
    pub fn transfer_ownership(
        &mut self,
        who: u64,
        coin_id: CoinId,
        new_owner: u64,
        tx_fee_coin: Option<CoinId>,
    ) -> (r: Result<Vec<Event>, Error>)
        requires
            old(self).wf(),
        ensures
            final(self).wf(),
            match old(self).owner_op_err(who, coin_id, tx_fee_coin) {
                Some(e) => r == Err::<Vec<Event>, Error>(e) && *final(self) == *old(self),
                None => {
                    let old_owner = old(self).coin_at(coin_id).owner;
                    &&& r matches Ok(ev)
                    &&& Self::metadata_update_frame(*old(self), *final(self), coin_id)
                    &&& final(self).coin_at(coin_id).owner == new_owner
                    &&& final(self).coin_at(coin_id).fee_config == old(self).coin_at(
                        coin_id,
                    ).fee_config
                    &&& forall|a: u64|
                        #[trigger] final(self).spec_can_mint(coin_id, a) <==> (a == new_owner || (
                        old(self).spec_can_mint(coin_id, a) && a != old_owner))
                    &&& forall|c: CoinId, a: u64|
                        c != coin_id ==> #[trigger] final(self).spec_can_mint(c, a) == old(
                            self,
                        ).spec_can_mint(c, a)
                    &&& ev@ == seq![
                        Event::OwnershipTransferred { coin_id, old_owner, new_owner },
                    ]
                },
            },
    {
        if let Err(e) = self.check_tx_fee_coin(tx_fee_coin) {
            return Err(e);
        }
        if !((coin_id as usize) < self.coin_metadata.len()) {
            return Err(Error::CoinNotFound);
        }
        if self.coin_metadata[coin_id as usize].owner != who {
            return Err(Error::NotAuthorized);
        }
        let old_owner = self.coin_metadata[coin_id as usize].owner;
        let old_record = self.coin_metadata.remove(coin_id as usize);
        let ghost pre = *self;
        let CoinInfo { symbol, name, decimals, owner: _, deposit, fee_config } = old_record;
        self.coin_metadata.insert(
            coin_id as usize,
            CoinInfo { symbol, name, decimals, owner: new_owner, deposit, fee_config },
        );
        proof {
            assert(self.coin_metadata@ =~= old(self).coin_metadata@.update(
                coin_id as int,
                self.coin_metadata@[coin_id as int],
            ));
            assert forall|c: CoinId| (c as int) < self.coin_count() implies #[trigger] coin_sum(
                self.balances@,
                c,
            ) == self.spec_supply(c) as int by {
                assert(coin_sum(old(self).balances@, c) == old(self).spec_supply(c) as int);
            }
            assert forall|c: CoinId| (c as int) < self.coin_count() implies
                self.minted_cumulative@[c as int] - self.burned_cumulative@[c as int]
                - self.fee_burned_cumulative@[c as int] == #[trigger] self.spec_supply(c) as int by {
                assert(old(self).minted_cumulative@[c as int] - old(self).burned_cumulative@[c
                    as int] - old(self).fee_burned_cumulative@[c as int] == old(self).spec_supply(
                    c,
                ) as int);
            }
        }
        pair_remove(&mut self.mint_permissions, coin_id, old_owner);
        pair_insert(&mut self.mint_permissions, coin_id, new_owner);
        proof {
            lemma_supply_clauses_preserved(*old(self), *self);
        }
        let mut events: Vec<Event> = Vec::new();
        events.push(Event::OwnershipTransferred { coin_id, old_owner, new_owner });
        proof {
            assert(events@ =~= seq![
                Event::OwnershipTransferred { coin_id, old_owner, new_owner },
            ]);
        }
        Ok(events)
    }

    /// Grants or revokes the mint permission of `account` on `coin_id`.
    /// Only the coin owner may do so.
    pub fn set_mint_permission(
        &mut self,
        who: u64,
        coin_id: CoinId,
        account: u64,
        can_mint: bool,
        tx_fee_coin: Option<CoinId>,
    ) -> (r: Result<Vec<Event>, Error>)
        requires
            old(self).wf(),
        ensures
            final(self).wf(),
            match old(self).owner_op_err(who, coin_id, tx_fee_coin) {
                Some(e) => r == Err::<Vec<Event>, Error>(e) && *final(self) == *old(self),
                None => {
                    &&& r matches Ok(ev)
                    &&& final(self).spec_can_mint(coin_id, account) == can_mint
                    &&& forall|c: CoinId, a: u64|
                        !(c == coin_id && a == account) ==> #[trigger] final(self).spec_can_mint(
                            c,
                            a,
                        ) == old(self).spec_can_mint(c, a)
                    &&& final(self).coin_metadata@ == old(self).coin_metadata@
                    &&& final(self).total_supply@ == old(self).total_supply@
                    &&& final(self).balances@ == old(self).balances@
                    &&& final(self).burn_permissions@ == old(self).burn_permissions@
                    &&& final(self).preferred_fee_coin@ == old(self).preferred_fee_coin@
                    &&& final(self).minted_cumulative@ == old(self).minted_cumulative@
                    &&& final(self).burned_cumulative@ == old(self).burned_cumulative@
                    &&& final(self).fee_burned_cumulative@ == old(self).fee_burned_cumulative@
                    &&& ev@ == seq![Event::MintPermissionSet { coin_id, account, can_mint }]
                },
            },
    {
        if let Err(e) = self.check_tx_fee_coin(tx_fee_coin) {
            return Err(e);
        }
        if !((coin_id as usize) < self.coin_metadata.len()) {
            return Err(Error::CoinNotFound);
        }
        if self.coin_metadata[coin_id as usize].owner != who {
            return Err(Error::NotAuthorized);
        }
        let ghost pre = *self;
        if can_mint {
            pair_insert(&mut self.mint_permissions, coin_id, account);
        } else {
            pair_remove(&mut self.mint_permissions, coin_id, account);
        }
        proof {
            lemma_supply_clauses_preserved(pre, *self);
        }
        let mut events: Vec<Event> = Vec::new();
        events.push(Event::MintPermissionSet { coin_id, account, can_mint });
        proof {
            assert(events@ =~= seq![Event::MintPermissionSet { coin_id, account, can_mint }]);
        }
        Ok(events)
    }

    /// Grants or revokes the burn permission of `account` on `coin_id`.
    /// Only the coin owner may do so.
    pub fn set_burn_permission(
        &mut self,
        who: u64,
        coin_id: CoinId,
        account: u64,
        can_burn: bool,
        tx_fee_coin: Option<CoinId>,
    ) -> (r: Result<Vec<Event>, Error>)
        requires
            old(self).wf(),
        ensures
            final(self).wf(),
            match old(self).owner_op_err(who, coin_id, tx_fee_coin) {
                Some(e) => r == Err::<Vec<Event>, Error>(e) && *final(self) == *old(self),
                None => {
                    &&& r matches Ok(ev)
                    &&& final(self).spec_can_burn(coin_id, account) == can_burn
                    &&& forall|c: CoinId, a: u64|
                        !(c == coin_id && a == account) ==> #[trigger] final(self).spec_can_burn(
                            c,
                            a,
                        ) == old(self).spec_can_burn(c, a)
                    &&& final(self).coin_metadata@ == old(self).coin_metadata@
                    &&& final(self).total_supply@ == old(self).total_supply@
                    &&& final(self).balances@ == old(self).balances@
                    &&& final(self).mint_permissions@ == old(self).mint_permissions@
                    &&& final(self).preferred_fee_coin@ == old(self).preferred_fee_coin@
                    &&& final(self).minted_cumulative@ == old(self).minted_cumulative@
                    &&& final(self).burned_cumulative@ == old(self).burned_cumulative@
                    &&& final(self).fee_burned_cumulative@ == old(self).fee_burned_cumulative@
                    &&& ev@ == seq![Event::BurnPermissionSet { coin_id, account, can_burn }]
                },
            },
    {
        if let Err(e) = self.check_tx_fee_coin(tx_fee_coin) {
            return Err(e);
        }
        if !((coin_id as usize) < self.coin_metadata.len()) {
            return Err(Error::CoinNotFound);
        }
        if self.coin_metadata[coin_id as usize].owner != who {
            return Err(Error::NotAuthorized);
        }
        let ghost pre = *self;
        if can_burn {
            pair_insert(&mut self.burn_permissions, coin_id, account);
        } else {
            pair_remove(&mut self.burn_permissions, coin_id, account);
        }
        proof {
            lemma_supply_clauses_preserved(pre, *self);
        }
        let mut events: Vec<Event> = Vec::new();
        events.push(Event::BurnPermissionSet { coin_id, account, can_burn });
        proof {
            assert(events@ =~= seq![Event::BurnPermissionSet { coin_id, account, can_burn }]);
        }
        Ok(events)
    }

    /// Overwrites the fee configuration of `coin_id`.  Only the coin
    /// owner may do so.
    pub fn set_fee_config(
        &mut self,
        who: u64,
        coin_id: CoinId,
        transfer_fee: u128,
        minimum_balance: u128,
        can_pay_tx_fees: bool,
        tx_fee_coin: Option<CoinId>,
    ) -> (r: Result<Vec<Event>, Error>)
        requires
            old(self).wf(),
        ensures
            final(self).wf(),
            match old(self).owner_op_err(who, coin_id, tx_fee_coin) {
                Some(e) => r == Err::<Vec<Event>, Error>(e) && *final(self) == *old(self),
                None => {
                    &&& r matches Ok(ev)
                    &&& Self::metadata_update_frame(*old(self), *final(self), coin_id)
                    &&& final(self).coin_at(coin_id).owner == old(self).coin_at(coin_id).owner
                    &&& final(self).coin_at(coin_id).fee_config == (FeeConfig {
                        transfer_fee,
                        minimum_balance,
                        can_pay_tx_fees,
                    })
                    &&& final(self).mint_permissions@ == old(self).mint_permissions@
                    &&& ev@ == seq![
                        Event::FeeConfigUpdated {
                            coin_id,
                            transfer_fee,
                            minimum_balance,
                            can_pay_tx_fees,
                        },
                    ]
                },
            },
    {
        if let Err(e) = self.check_tx_fee_coin(tx_fee_coin) {
            return Err(e);
        }
        if !((coin_id as usize) < self.coin_metadata.len()) {
            return Err(Error::CoinNotFound);
        }
        if self.coin_metadata[coin_id as usize].owner != who {
            return Err(Error::NotAuthorized);
        }
        let old_record = self.coin_metadata.remove(coin_id as usize);
        let ghost pre = *self;
        let CoinInfo { symbol, name, decimals, owner, deposit, fee_config: _ } = old_record;
        self.coin_metadata.insert(
            coin_id as usize,
            CoinInfo {
                symbol,
                name,
                decimals,
                owner,
                deposit,
                fee_config: FeeConfig { transfer_fee, minimum_balance, can_pay_tx_fees },
            },
        );
        proof {
            assert(self.coin_metadata@ =~= old(self).coin_metadata@.update(
                coin_id as int,
                self.coin_metadata@[coin_id as int],
            ));
            assert forall|c: CoinId| (c as int) < self.coin_count() implies #[trigger] coin_sum(
                self.balances@,
                c,
            ) == self.spec_supply(c) as int by {
                assert(coin_sum(old(self).balances@, c) == old(self).spec_supply(c) as int);
            }
            assert forall|c: CoinId| (c as int) < self.coin_count() implies
                self.minted_cumulative@[c as int] - self.burned_cumulative@[c as int]
                - self.fee_burned_cumulative@[c as int] == #[trigger] self.spec_supply(c) as int by {
                assert(old(self).minted_cumulative@[c as int] - old(self).burned_cumulative@[c
                    as int] - old(self).fee_burned_cumulative@[c as int] == old(self).spec_supply(
                    c,
                ) as int);
            }
        }
        let mut events: Vec<Event> = Vec::new();
        events.push(
            Event::FeeConfigUpdated { coin_id, transfer_fee, minimum_balance, can_pay_tx_fees },
        );
        proof {
            assert(events@ =~= seq![
                Event::FeeConfigUpdated {
                    coin_id,
                    transfer_fee,
                    minimum_balance,
                    can_pay_tx_fees,
                },
            ]);
        }
        Ok(events)
    }

    /// The first failing validation of setting a preferred fee coin.
    pub open spec fn set_preferred_err(
        self,
        coin_id: Option<CoinId>,
        tx_fee_coin: Option<CoinId>,
    ) -> Option<Error> {
        if self.tx_fee_check_err(tx_fee_coin) is Some {
            self.tx_fee_check_err(tx_fee_coin)
        } else if self.tx_fee_check_err(coin_id) is Some {
            self.tx_fee_check_err(coin_id)
        } else {
            None
        }
    }

    /// Stores or clears the caller's preferred fee coin.  A stored coin
    /// must exist and be fee-eligible.
    pub fn set_preferred_fee_coin(
        &mut self,
        who: u64,
        coin_id: Option<CoinId>,
        tx_fee_coin: Option<CoinId>,
    ) -> (r: Result<Vec<Event>, Error>)
        requires
            old(self).wf(),
        ensures
            final(self).wf(),
            match old(self).set_preferred_err(coin_id, tx_fee_coin) {
                Some(e) => r == Err::<Vec<Event>, Error>(e) && *final(self) == *old(self),
                None => {
                    &&& r matches Ok(ev)
                    &&& final(self).spec_preferred(who) == coin_id
                    &&& forall|a: u64|
                        a != who ==> #[trigger] final(self).spec_preferred(a) == old(
                            self,
                        ).spec_preferred(a)
                    &&& final(self).coin_metadata@ == old(self).coin_metadata@
                    &&& final(self).total_supply@ == old(self).total_supply@
                    &&& final(self).balances@ == old(self).balances@
                    &&& final(self).mint_permissions@ == old(self).mint_permissions@
                    &&& final(self).burn_permissions@ == old(self).burn_permissions@
                    &&& final(self).minted_cumulative@ == old(self).minted_cumulative@
                    &&& final(self).burned_cumulative@ == old(self).burned_cumulative@
                    &&& final(self).fee_burned_cumulative@ == old(self).fee_burned_cumulative@
                    &&& ev@ == seq![Event::PreferredFeeCoinSet { account: who, coin_id }]
                },
            },
    {
        if let Err(e) = self.check_tx_fee_coin(tx_fee_coin) {
            return Err(e);
        }
        if let Err(e) = self.check_tx_fee_coin(coin_id) {
            return Err(e);
        }
        let ghost pre = *self;
        match coin_id {
            Option::Some(c) => {
                match assoc_find(&self.preferred_fee_coin, who) {
                    Some(i) => {
                        assoc_replace_at(&mut self.preferred_fee_coin, i, c);
                    },
                    None => {
                        assoc_insert_new(&mut self.preferred_fee_coin, who, c);
                    },
                }
            },
            Option::None => {
                assoc_remove_key(&mut self.preferred_fee_coin, who);
            },
        }
        proof {
            lemma_supply_clauses_preserved(pre, *self);
            assert forall|i: int| 0 <= i < self.preferred_fee_coin@.len() implies ((
            #[trigger] self.preferred_fee_coin@[i]).1 as int) < self.coin_count() by {
                if pre.preferred_fee_coin@.contains(self.preferred_fee_coin@[i]) {
                    let j = choose|j: int|
                        0 <= j < pre.preferred_fee_coin@.len() && pre.preferred_fee_coin@[j]
                            == self.preferred_fee_coin@[i];
                }
            }
        }
        let mut events: Vec<Event> = Vec::new();
        events.push(Event::PreferredFeeCoinSet { account: who, coin_id });
        proof {
            assert(events@ =~= seq![Event::PreferredFeeCoinSet { account: who, coin_id }]);
        }
        Ok(events)
    }

    /// The balance of `account` for coin `coin_id`.
    pub fn balance_of(&self, account: &u64, coin_id: CoinId) -> (r: u128)
        requires
            self.wf(),
        ensures
            r == self.spec_balance(coin_id, *account),
    {
        balance_get(&self.balances, coin_id, *account)
    }

    /// The total supply of coin `coin_id`, zero for an unknown coin.
    pub fn total_supply_of(&self, coin_id: CoinId) -> (r: u128)
        requires
            self.wf(),
        ensures
            r == if self.coin_exists(coin_id) {
                self.spec_supply(coin_id)
            } else {
                0
            },
    {
        if (coin_id as usize) < self.total_supply.len() {
            self.total_supply[coin_id as usize]
        } else {
            0
        }
    }

    /// The metadata record of coin `coin_id`, if it exists.
    pub fn get_coin_metadata(&self, coin_id: CoinId) -> (r: Option<&CoinRecord>)
        ensures
            match r {
                Some(info) => self.coin_exists(coin_id) && *info == self.coin_at(coin_id),
                None => !self.coin_exists(coin_id),
            },
    {
        if (coin_id as usize) < self.coin_metadata.len() {
            Some(&self.coin_metadata[coin_id as usize])
        } else {
            None
        }
    }

    /// The id of the coin registered under `symbol`, if any.  A symbol
    /// longer than the symbol bound is registered nowhere.
    pub fn get_coin_id_by_symbol(&self, symbol: &Vec<u8>) -> (r: Option<CoinId>)
        requires
            self.wf(),
        ensures
            match r {
                Some(c) => self.coin_exists(c) && self.coin_at(c).symbol@ == symbol@,
                None => !self.has_symbol(symbol@),
            },
    {
        if symbol.len() > self.max_symbol_length as usize {
            return None;
        }
        self.find_symbol(symbol)
    }

    /// Whether `account` holds mint permission for `coin_id`.
    pub fn has_mint_permission(&self, coin_id: CoinId, account: &u64) -> (r: bool)
        ensures
            r == self.spec_can_mint(coin_id, *account),
    {
        pair_contains(&self.mint_permissions, coin_id, *account)
    }

    /// Whether `account` holds burn permission for `coin_id`.
    pub fn has_burn_permission(&self, coin_id: CoinId, account: &u64) -> (r: bool)
        ensures
            r == self.spec_can_burn(coin_id, *account),
    {
        pair_contains(&self.burn_permissions, coin_id, *account)
    }

    /// The id the next created coin will get.
    pub fn next_coin_id(&self) -> (r: CoinId)
        requires
            self.wf(),
        ensures
            r == self.coin_count(),
    {
        self.coin_metadata.len() as u32
    }

    /// The preferred fee coin stored for `account`, if any.
    pub fn get_preferred_fee_coin(&self, account: &u64) -> (r: Option<CoinId>)
        requires
            self.wf(),
        ensures
            r == self.spec_preferred(*account),
    {
        match assoc_find(&self.preferred_fee_coin, *account) {
            Some(i) => {
                proof {
                    crate::model::lemma_assoc_lookup_at(self.preferred_fee_coin@, i as int);
                }
                Some(self.preferred_fee_coin[i].1)
            },
            None => {
                proof {
                    crate::model::lemma_assoc_lookup_absent(self.preferred_fee_coin@, *account);
                }
                None
            },
        }
    }
}

/// For every coin, the balance cells sum, plus everything ever
/// destroyed as fees, equals everything ever minted less everything
/// ever burned.  Together with the per-operation contracts this holds
/// after any sequence of successful operations, since each of them
/// keeps the aggregate well-formed.
pub proof fn lemma_conservation(l: Ledger, c: CoinId)
    requires
        l.wf(),
        l.coin_exists(c),
    ensures
        coin_sum(l.balances@, c) + l.fee_burned_cumulative@[c as int] == l.minted_cumulative@[c
            as int] - l.burned_cumulative@[c as int],
{
}

/// Coin ids are dense: exactly the ids below the creation count name a
/// coin.  A new coin always gets id `coin_count`, which then grows by
/// one, so ids start at 0, strictly increase and are never reused.
pub proof fn lemma_dense_coin_ids(l: Ledger, c: CoinId)
    requires
        l.wf(),
    ensures
        l.coin_exists(c) <==> (c as int) < l.coin_count(),
{
}

/// A symbol names at most one coin: two coins carrying the same symbol
/// are the same coin.  No operation ever rewrites a stored symbol, so a
/// symbol, once registered, keeps naming that one coin.
pub proof fn lemma_symbol_unique(l: Ledger, i: CoinId, j: CoinId)
    requires
        l.wf(),
        l.coin_exists(i),
        l.coin_exists(j),
        l.coin_at(i).symbol@ == l.coin_at(j).symbol@,
    ensures
        i == j,
{
    if (i as int) < (j as int) {
        assert(l.coin_metadata@[i as int].symbol@ != l.coin_metadata@[j as int].symbol@);
    } else if (j as int) < (i as int) {
        assert(l.coin_metadata@[j as int].symbol@ != l.coin_metadata@[i as int].symbol@);
    }
}

} // verus!
