use crate::errors::LPError;
use crate::identity::Identity;
use crate::math::fits_i128;
use vstd::prelude::*;

verus! {

/// What the lending pool keeps of one lender: whether the administrator has
/// registered it, and what it has in the pool. An address that was never
/// registered reads as `LenderAccount::absent()`.
#[derive(Clone, Copy, Debug, PartialEq, Eq, Structural)]
pub struct LenderAccount {
    pub registered: bool,
    pub balance: i128,
}

impl LenderAccount {
    /// The account of an address that is not registered as a lender.
    pub open spec fn absent_spec() -> LenderAccount {
        LenderAccount { registered: false, balance: 0 }
    }

    /// The account of an address that is not registered as a lender.
    #[verifier::when_used_as_spec(absent_spec)]
    pub fn absent() -> (account: LenderAccount)
        ensures
            account == LenderAccount::absent_spec(),
    {
        LenderAccount { registered: false, balance: 0 }
    }
}

/// What the lending pool keeps of one borrower: whether the administrator
/// has registered it, and whether it has a loan running. A borrower has at
/// most one loan at a time.
#[derive(Clone, Copy, Debug, PartialEq, Eq, Structural)]
pub struct BorrowerAccount {
    pub registered: bool,
    pub has_loan: bool,
}

impl BorrowerAccount {
    /// The account of an address that is not registered as a borrower.
    pub open spec fn absent_spec() -> BorrowerAccount {
        BorrowerAccount { registered: false, has_loan: false }
    }

    /// The account of an address that is not registered as a borrower.
    #[verifier::when_used_as_spec(absent_spec)]
    pub fn absent() -> (account: BorrowerAccount)
        ensures
            account == BorrowerAccount::absent_spec(),
    {
        BorrowerAccount { registered: false, has_loan: false }
    }
}

/// The state of the lending pool itself, as a mathematical value.
#[verifier::ext_equal]
pub struct LendingState {
    /// Whether `initialize` has succeeded.
    pub initialized: bool,
    /// The identity of the administrator.
    pub admin: Seq<u8>,
    /// The identity of the one asset that is lent.
    pub token: Seq<u8>,
    /// What the pool has available to lend or to pay back.
    pub total_balance: int,
}

impl LendingState {
    /// The lending pool before `initialize`.
    pub open spec fn uninitialized() -> LendingState {
        LendingState {
            initialized: false,
            admin: Seq::empty(),
            token: Seq::empty(),
            total_balance: 0,
        }
    }

    /// Whether `address` is the administrator of an initialized pool.
    pub open spec fn is_admin(self, address: Seq<u8>) -> bool {
        self.initialized && self.admin == address
    }

    /// Why a request that only the administrator may make is refused before
    /// the account it is about is looked at, if it is.
    pub open spec fn admin_refusal(self, admin: Seq<u8>) -> Option<LPError> {
        if !self.initialized {
            Some(LPError::NotInitialized)
        } else if self.admin != admin {
            Some(LPError::NotAuthorized)
        } else {
            None
        }
    }

    /// Why a deposit of `amount` by `lender` is refused, if it is.
    pub open spec fn deposit_refusal(
        self,
        authorized: bool,
        lender: LenderAccount,
        amount: int,
    ) -> Option<LPError> {
        if !authorized {
            Some(LPError::NotAuthorized)
        } else if !lender.registered {
            Some(LPError::LenderNotRegistered)
        } else if amount <= 0 {
            Some(LPError::AmountMustBePositive)
        } else if !self.initialized {
            Some(LPError::NotInitialized)
        } else if !fits_i128(self.total_balance + amount) || !fits_i128(lender.balance + amount) {
            Some(LPError::ArithmeticError)
        } else {
            None
        }
    }

    /// Why a withdrawal of `amount` by `lender` is refused, if it is.
    pub open spec fn withdraw_refusal(
        self,
        authorized: bool,
        lender: LenderAccount,
        amount: int,
    ) -> Option<LPError> {
        if !authorized {
            Some(LPError::NotAuthorized)
        } else if !lender.registered {
            Some(LPError::LenderNotRegistered)
        } else if amount <= 0 {
            Some(LPError::AmountMustBePositive)
        } else if lender.balance < amount {
            Some(LPError::BalanceNotAvailableForAmountRequested)
        } else if self.total_balance < amount {
            Some(LPError::InsufficientBalance)
        } else if !self.initialized {
            Some(LPError::NotInitialized)
        } else {
            None
        }
    }

    /// Why a loan of `amount` to `borrower` is refused, if it is.
    pub open spec fn loan_refusal(
        self,
        authorized: bool,
        borrower: BorrowerAccount,
        amount: int,
    ) -> Option<LPError> {
        if !authorized {
            Some(LPError::NotAuthorized)
        } else if amount <= 0 {
            Some(LPError::AmountMustBePositive)
        } else if !borrower.registered {
            Some(LPError::BorrowerNotRegistered)
        } else if borrower.has_loan {
            Some(LPError::LoanNotFoundOrExists)
        } else if self.total_balance < amount {
            Some(LPError::BalanceNotAvailableForAmountRequested)
        } else if !self.initialized {
            Some(LPError::NotInitialized)
        } else {
            None
        }
    }
}

/// A pooled lending contract: lenders that the administrator has registered
/// put one asset into the pool, and registered borrowers draw loans from it.
///
/// The contract keeps the pool's own balance. The account of a lender or a
/// borrower is handed to each operation as it was read from where the
/// accounts are kept, and is changed in place where the operation succeeds.
#[derive(Debug, PartialEq, Eq)]
pub struct LiquidityPoolContract {
    initialized: bool,
    admin: Identity,
    token: Identity,
    total_balance: i128,
}

impl View for LiquidityPoolContract {
    type V = LendingState;

    closed spec fn view(&self) -> LendingState {
        LendingState {
            initialized: self.initialized,
            admin: self.admin@,
            token: self.token@,
            total_balance: self.total_balance as int,
        }
    }
}

impl LiquidityPoolContract {
    /// A lending pool that has not been initialized.
    pub fn new() -> (pool: LiquidityPoolContract)
        ensures
            pool@ == LendingState::uninitialized(),
    {
        LiquidityPoolContract {
            initialized: false,
            admin: Identity::new(Vec::new()),
            token: Identity::new(Vec::new()),
            total_balance: 0,
        }
    }

    /// An initialized lending pool with the given contents, as read back from
    /// where its state is kept.
    pub fn restore(admin: Identity, token: Identity, total_balance: i128) -> (pool:
        LiquidityPoolContract)
        ensures
            pool@ == (LendingState {
                initialized: true,
                admin: admin@,
                token: token@,
                total_balance: total_balance as int,
            }),
    {
        LiquidityPoolContract { initialized: true, admin, token, total_balance }
    }

    /// Initializes the pool with its administrator and the asset it lends,
    /// and a balance of zero. Refused with `AlreadyInitialized` where the
    /// pool has an administrator already.
    pub fn initialize(&mut self, admin: Identity, token: Identity) -> (r: Result<(), LPError>)
        ensures
            match r {
                Ok(()) => !old(self)@.initialized && final(self)@ == (LendingState {
                    initialized: true,
                    admin: admin@,
                    token: token@,
                    total_balance: 0,
                }),
                Err(e) => old(self)@.initialized && e == LPError::AlreadyInitialized && final(self)@ == old(self)@,
            },
    {
        if self.initialized {
            return Err(LPError::AlreadyInitialized);
        }
        *self = LiquidityPoolContract { initialized: true, admin, token, total_balance: 0 };
        Ok(())
    }

    /// Whether `initialize` has succeeded.
    pub fn has_admin(&self) -> (r: bool)
        ensures
            r == self@.initialized,
    {
        self.initialized
    }

    /// The identity of the administrator.
    pub fn read_admin(&self) -> (id: &Identity)
        ensures
            id@ == self@.admin,
    {
        &self.admin
    }

    /// The identity of the asset that the pool lends.
    pub fn read_token(&self) -> (id: &Identity)
        ensures
            id@ == self@.token,
    {
        &self.token
    }

    /// What the pool has available.
    pub fn read_contract_balance(&self) -> (r: i128)
        ensures
            r == self@.total_balance,
    {
        self.total_balance
    }

    /// The balance that `address` may ask about: the pool's own for the
    /// administrator, and its own for a registered lender, whose account is
    /// `lender`.
    pub fn balance(&self, address: &Identity, lender: &LenderAccount) -> (r: Result<i128, LPError>)
        ensures
            match r {
                Ok(balance) => {
                    &&& self@.initialized
                    &&& if self@.admin == address@ {
                        balance == self@.total_balance
                    } else {
                        lender.registered && balance == lender.balance
                    }
                },
                Err(e) => if !self@.initialized {
                    e == LPError::NotInitialized
                } else {
                    &&& e == LPError::AddressNotRegistered
                    &&& self@.admin != address@
                    &&& !lender.registered
                },
            },
    {
        if !self.initialized {
            Err(LPError::NotInitialized)
        } else if self.admin.same_as(address) {
            Ok(self.total_balance)
        } else if lender.registered {
            Ok(lender.balance)
        } else {
            Err(LPError::AddressNotRegistered)
        }
    }

    /// Books a deposit of `amount` by `lender`: the pool's balance and the
    /// lender's both grow by it. The asset itself is moved by the ledger.
    pub fn deposit(&mut self, authorized: bool, lender: &mut LenderAccount, amount: i128) -> (r:
        Result<(), LPError>)
        ensures
            match r {
                Ok(()) => {
                    &&& old(self)@.deposit_refusal(authorized, *old(lender), amount as int) is None
                    &&& final(self)@ == (LendingState {
                        total_balance: old(self)@.total_balance + amount,
                        ..old(self)@
                    })
                    &&& final(lender).registered
                    &&& final(lender).balance == old(lender).balance + amount
                },
                Err(e) => {
                    &&& old(self)@.deposit_refusal(authorized, *old(lender), amount as int) == Some(
                        e,
                    )
                    &&& final(self)@ == old(self)@
                    &&& *final(lender) == *old(lender)
                },
            },
    {
        if !authorized {
            return Err(LPError::NotAuthorized);
        }
        if !lender.registered {
            return Err(LPError::LenderNotRegistered);
        }
        if amount <= 0 {
            return Err(LPError::AmountMustBePositive);
        }
        if !self.initialized {
            return Err(LPError::NotInitialized);
        }
        let total_balance = match self.total_balance.checked_add(amount) {
            Some(sum) => sum,
            None => {
                return Err(LPError::ArithmeticError);
            },
        };
        let lender_balance = match lender.balance.checked_add(amount) {
            Some(sum) => sum,
            None => {
                return Err(LPError::ArithmeticError);
            },
        };
        self.total_balance = total_balance;
        lender.balance = lender_balance;
        Ok(())
    }

    /// Books a withdrawal of `amount` by `lender`: the pool's balance and the
    /// lender's both shrink by it. The result says whether the lender has
    /// nothing left in the pool, so that it no longer counts among the
    /// contributors.
    pub fn withdraw(&mut self, authorized: bool, lender: &mut LenderAccount, amount: i128) -> (r:
        Result<bool, LPError>)
        ensures
            match r {
                Ok(emptied) => {
                    &&& old(self)@.withdraw_refusal(authorized, *old(lender), amount as int) is None
                    &&& final(self)@ == (LendingState {
                        total_balance: old(self)@.total_balance - amount,
                        ..old(self)@
                    })
                    &&& final(lender).registered
                    &&& final(lender).balance == old(lender).balance - amount
                    &&& emptied == (old(lender).balance - amount <= 0)
                },
                Err(e) => {
                    &&& old(self)@.withdraw_refusal(authorized, *old(lender), amount as int)
                        == Some(e)
                    &&& final(self)@ == old(self)@
                    &&& *final(lender) == *old(lender)
                },
            },
    {
        if !authorized {
            return Err(LPError::NotAuthorized);
        }
        if !lender.registered {
            return Err(LPError::LenderNotRegistered);
        }
        if amount <= 0 {
            return Err(LPError::AmountMustBePositive);
        }
        if lender.balance < amount {
            return Err(LPError::BalanceNotAvailableForAmountRequested);
        }
        if self.total_balance < amount {
            return Err(LPError::InsufficientBalance);
        }
        if !self.initialized {
            return Err(LPError::NotInitialized);
        }
        self.total_balance = self.total_balance - amount;
        lender.balance = lender.balance - amount;
        Ok(lender.balance <= 0)
    }

    /// Books a loan of `amount` to `borrower`: the pool's balance shrinks by
    /// it and the borrower has a loan running from now on.
    pub fn loan(&mut self, authorized: bool, borrower: &mut BorrowerAccount, amount: i128) -> (r:
        Result<(), LPError>)
        ensures
            match r {
                Ok(()) => {
                    &&& old(self)@.loan_refusal(authorized, *old(borrower), amount as int) is None
                    &&& final(self)@ == (LendingState {
                        total_balance: old(self)@.total_balance - amount,
                        ..old(self)@
                    })
                    &&& *final(borrower) == (BorrowerAccount { registered: true, has_loan: true })
                },
                Err(e) => {
                    &&& old(self)@.loan_refusal(authorized, *old(borrower), amount as int) == Some(
                        e,
                    )
                    &&& final(self)@ == old(self)@
                    &&& *final(borrower) == *old(borrower)
                },
            },
    {
        if !authorized {
            return Err(LPError::NotAuthorized);
        }
        if amount <= 0 {
            return Err(LPError::AmountMustBePositive);
        }
        if !borrower.registered {
            return Err(LPError::BorrowerNotRegistered);
        }
        if borrower.has_loan {
            return Err(LPError::LoanNotFoundOrExists);
        }
        if self.total_balance < amount {
            return Err(LPError::BalanceNotAvailableForAmountRequested);
        }
        if !self.initialized {
            return Err(LPError::NotInitialized);
        }
        self.total_balance = self.total_balance - amount;
        borrower.has_loan = true;
        Ok(())
    }

    /// Why a request of `admin` that only the administrator may make is
    /// refused, if it is.
    fn check_admin(&self, admin: &Identity) -> (r: Result<(), LPError>)
        ensures
            match r {
                Ok(()) => self@.admin_refusal(admin@) is None,
                Err(e) => self@.admin_refusal(admin@) == Some(e),
            },
    {
        if !self.initialized {
            Err(LPError::NotInitialized)
        } else if !self.admin.same_as(admin) {
            Err(LPError::NotAuthorized)
        } else {
            Ok(())
        }
    }

    /// Registers `borrower`, on the administrator's request.
    pub fn add_borrower(&self, admin: &Identity, borrower: &mut BorrowerAccount) -> (r: Result<
        (),
        LPError,
    >)
        ensures
            match r {
                Ok(()) => {
                    &&& self@.admin_refusal(admin@) is None
                    &&& !old(borrower).registered
                    &&& *final(borrower) == (BorrowerAccount { registered: true, ..*old(borrower) })
                },
                Err(e) => {
                    &&& *final(borrower) == *old(borrower)
                    &&& e == (match self@.admin_refusal(admin@) {
                        Some(refusal) => refusal,
                        None => LPError::BorrowerAlreadyRegistered,
                    })
                    &&& self@.admin_refusal(admin@) is None ==> old(borrower).registered
                },
            },
    {
        match self.check_admin(admin) {
            Err(e) => {
                return Err(e);
            },
            Ok(()) => {},
        }
        if borrower.registered {
            return Err(LPError::BorrowerAlreadyRegistered);
        }
        borrower.registered = true;
        Ok(())
    }

    /// Takes `borrower` off the register, on the administrator's request.
    pub fn remove_borrower(&self, admin: &Identity, borrower: &mut BorrowerAccount) -> (r: Result<
        (),
        LPError,
    >)
        ensures
            match r {
                Ok(()) => {
                    &&& self@.admin_refusal(admin@) is None
                    &&& old(borrower).registered
                    &&& *final(borrower) == (BorrowerAccount { registered: false, ..*old(borrower) })
                },
                Err(e) => {
                    &&& *final(borrower) == *old(borrower)
                    &&& e == (match self@.admin_refusal(admin@) {
                        Some(refusal) => refusal,
                        None => LPError::BorrowerNotRegistered,
                    })
                    &&& self@.admin_refusal(admin@) is None ==> !old(borrower).registered
                },
            },
    {
        match self.check_admin(admin) {
            Err(e) => {
                return Err(e);
            },
            Ok(()) => {},
        }
        if !borrower.registered {
            return Err(LPError::BorrowerNotRegistered);
        }
        borrower.registered = false;
        Ok(())
    }

    /// Registers `lender` with a balance of zero, on the administrator's
    /// request.
    pub fn add_lender(&self, admin: &Identity, lender: &mut LenderAccount) -> (r: Result<
        (),
        LPError,
    >)
        ensures
            match r {
                Ok(()) => {
                    &&& self@.admin_refusal(admin@) is None
                    &&& !old(lender).registered
                    &&& *final(lender) == (LenderAccount { registered: true, balance: 0 })
                },
                Err(e) => {
                    &&& *final(lender) == *old(lender)
                    &&& e == (match self@.admin_refusal(admin@) {
                        Some(refusal) => refusal,
                        None => LPError::LenderAlreadyRegistered,
                    })
                    &&& self@.admin_refusal(admin@) is None ==> old(lender).registered
                },
            },
    {
        match self.check_admin(admin) {
            Err(e) => {
                return Err(e);
            },
            Ok(()) => {},
        }
        if lender.registered {
            return Err(LPError::LenderAlreadyRegistered);
        }
        *lender = LenderAccount { registered: true, balance: 0 };
        Ok(())
    }

    /// Takes `lender` off the register, on the administrator's request:
    /// its account reads as absent afterwards.
    pub fn remove_lender(&self, admin: &Identity, lender: &mut LenderAccount) -> (r: Result<
        (),
        LPError,
    >)
        ensures
            match r {
                Ok(()) => {
                    &&& self@.admin_refusal(admin@) is None
                    &&& old(lender).registered
                    &&& *final(lender) == LenderAccount::absent()
                },
                Err(e) => {
                    &&& *final(lender) == *old(lender)
                    &&& e == (match self@.admin_refusal(admin@) {
                        Some(refusal) => refusal,
                        None => LPError::LenderNotRegistered,
                    })
                    &&& self@.admin_refusal(admin@) is None ==> !old(lender).registered
                },
            },
    {
        match self.check_admin(admin) {
            Err(e) => {
                return Err(e);
            },
            Ok(()) => {},
        }
        if !lender.registered {
            return Err(LPError::LenderNotRegistered);
        }
        *lender = LenderAccount::absent();
        Ok(())
    }
}

} // verus!
