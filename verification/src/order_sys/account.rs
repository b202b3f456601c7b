//! Account models used by the order system.
//!
//! The supported model is a plain cash account. It tracks cash only and
//! leaves position valuation to the caller, because marked-to-market exposure
//! depends on external prices and the current holdings.

use vstd::prelude::*;

use crate::decimal::{dec_add, Dec};
use crate::order_sys::AccountId;
use crate::text::{is_blank, is_blank_spec};

verus! {

/// Account model families supported by the system.
#[derive(Clone, Copy, Debug, PartialEq, Eq, Structural)]
pub enum AccountKind {
    /// Cash-only account with no leverage or margin semantics.
    Cash,
}

/// Errors raised while creating or mutating accounts.
#[derive(Clone, Debug, PartialEq, Eq)]
pub enum AccountError {
    /// Base currency code must not be blank.
    EmptyBaseCurrency,
    /// Cash balance must not be negative when constructing an account.
    NegativeCashBalance { cash_balance: Dec },
    /// The requested mutation would push the cash account below zero.
    CashBalanceWouldBecomeNegative { current_balance: Dec, delta: Dec, attempted_balance: Dec },
    /// A decimal result fell outside the range `rust_decimal` can hold.
    ArithmeticOverflow,
}

/// Abstract state of a cash account.
pub struct CashAccountView {
    pub id: AccountId,
    pub base_currency: Seq<char>,
    pub cash_balance: Dec,
}

/// Plain cash account with one cash balance and one base currency.
#[derive(Debug, PartialEq, Eq)]
pub struct CashAccount {
    id: AccountId,
    base_currency: String,
    cash_balance: Dec,
}

impl View for CashAccount {
    type V = CashAccountView;

    closed spec fn view(&self) -> CashAccountView {
        CashAccountView { id: self.id, base_currency: self.base_currency@, cash_balance: self.cash_balance }
    }
}

/// Invariant of every cash account: a non-blank currency and a
/// non-negative balance.
pub open spec fn cash_account_valid(a: CashAccountView) -> bool {
    &&& !is_blank_spec(a.base_currency)
    &&& a.cash_balance.value() >= 0
}

/// The error `CashAccount::new` reports, if any.
pub open spec fn new_cash_account_error(base_currency: Seq<char>, cash_balance: Dec) -> Option<AccountError> {
    if is_blank_spec(base_currency) {
        Some(AccountError::EmptyBaseCurrency)
    } else if cash_balance.value() < 0 {
        Some(AccountError::NegativeCashBalance { cash_balance })
    } else {
        None
    }
}

/// Outcome of applying `delta` to an account with balance `balance`: the new
/// balance, or the error.
pub open spec fn cash_delta_outcome(balance: Dec, delta: Dec) -> Result<Dec, AccountError> {
    match dec_add(balance, delta) {
        None => Err(AccountError::ArithmeticOverflow),
        Some(attempted) => if attempted.value() < 0 {
            Err(
                AccountError::CashBalanceWouldBecomeNegative {
                    current_balance: balance,
                    delta,
                    attempted_balance: attempted,
                },
            )
        } else {
            Ok(attempted)
        },
    }
}

impl CashAccount {
    #[verifier::type_invariant]
    closed spec fn inv(self) -> bool {
        cash_account_valid(self@)
    }

    /// Every cash account satisfies [`cash_account_valid`].
    pub fn lemma_valid(&self)
        ensures
            cash_account_valid(self@),
    {
        proof {
            use_type_invariant(self);
        }
    }

    /// Creates one cash account; the currency must not be blank and the
    /// balance must not be negative.
    pub fn new(id: AccountId, base_currency: &str, cash_balance: Dec) -> (r: Result<CashAccount, AccountError>)
        ensures
            new_cash_account_error(base_currency@, cash_balance) matches Some(e) ==> r == Err::<CashAccount, AccountError>(e),
            new_cash_account_error(base_currency@, cash_balance) is None ==> r is Ok && r.unwrap()@ == (CashAccountView {
                id,
                base_currency: base_currency@,
                cash_balance,
            }),
    {
        if is_blank(base_currency) {
            return Err(AccountError::EmptyBaseCurrency);
        }
        if cash_balance.is_negative() {
            return Err(AccountError::NegativeCashBalance { cash_balance });
        }
        Ok(CashAccount { id, base_currency: base_currency.to_string(), cash_balance })
    }

    pub fn id(&self) -> (r: AccountId)
        ensures
            r == self@.id,
    {
        self.id
    }

    pub fn base_currency(&self) -> (r: &str)
        ensures
            r@ == self@.base_currency,
    {
        self.base_currency.as_str()
    }

    pub fn cash_balance(&self) -> (r: Dec)
        ensures
            r == self@.cash_balance,
    {
        self.cash_balance
    }

    /// Total equity: the cash balance plus the externally supplied marked
    /// value of open positions; `None` on overflow.
    pub fn equity(&self, marked_positions_value: Dec) -> (r: Option<Dec>)
        ensures
            r == dec_add(self@.cash_balance, marked_positions_value),
    {
        self.cash_balance.add(marked_positions_value)
    }

    /// Applies a signed cash movement unless the balance would become
    /// negative; on an error the account is unchanged.
    pub fn apply_cash_delta(&mut self, delta: Dec) -> (r: Result<(), AccountError>)
        ensures
            match cash_delta_outcome(old(self)@.cash_balance, delta) {
                Ok(b) => r is Ok && final(self)@ == (CashAccountView { cash_balance: b, ..old(self)@ }),
                Err(e) => r == Err::<(), AccountError>(e) && final(self)@ == old(self)@,
            },
    {
        proof {
            use_type_invariant(&*self);
        }
        let attempted_balance = match self.cash_balance.add(delta) {
            Some(v) => v,
            None => return Err(AccountError::ArithmeticOverflow),
        };
        if attempted_balance.is_negative() {
            return Err(
                AccountError::CashBalanceWouldBecomeNegative {
                    current_balance: self.cash_balance,
                    delta,
                    attempted_balance,
                },
            );
        }
        self.cash_balance = attempted_balance;
        Ok(())
    }

    /// A copy with the same abstract value.
    pub fn duplicate(&self) -> (r: CashAccount)
        ensures
            r@ == self@,
    {
        proof {
            use_type_invariant(self);
        }
        CashAccount { id: self.id, base_currency: self.base_currency.clone(), cash_balance: self.cash_balance }
    }
}

/// High-level account variants supported by the order system.
#[derive(Debug, PartialEq, Eq)]
pub enum Account {
    /// Plain cash account with no margin or leverage semantics.
    Cash(CashAccount),
}

impl Account {
    /// Creates a cash-only account.
    pub fn new_cash(id: AccountId, base_currency: &str, cash_balance: Dec) -> (r: Result<Account, AccountError>)
        ensures
            new_cash_account_error(base_currency@, cash_balance) matches Some(e) ==> r == Err::<Account, AccountError>(e),
            new_cash_account_error(base_currency@, cash_balance) is None ==> r is Ok && r.unwrap().cash_view() == (CashAccountView {
                id,
                base_currency: base_currency@,
                cash_balance,
            }),
    {
        match CashAccount::new(id, base_currency, cash_balance) {
            Ok(c) => Ok(Account::Cash(c)),
            Err(e) => Err(e),
        }
    }

    /// The inner account's abstract state.
    pub open spec fn cash_view(&self) -> CashAccountView {
        match self {
            Account::Cash(c) => c@,
        }
    }

    pub fn id(&self) -> (r: AccountId)
        ensures
            r == self.cash_view().id,
    {
        match self {
            Account::Cash(account) => account.id(),
        }
    }

    pub fn kind(&self) -> (r: AccountKind)
        ensures
            r == AccountKind::Cash,
    {
        match self {
            Account::Cash(_) => AccountKind::Cash,
        }
    }

    pub fn base_currency(&self) -> (r: &str)
        ensures
            r@ == self.cash_view().base_currency,
    {
        match self {
            Account::Cash(account) => account.base_currency(),
        }
    }

    pub fn cash_balance(&self) -> (r: Dec)
        ensures
            r == self.cash_view().cash_balance,
    {
        match self {
            Account::Cash(account) => account.cash_balance(),
        }
    }

    /// Total equity using the externally supplied marked position value.
    pub fn equity(&self, marked_positions_value: Dec) -> (r: Option<Dec>)
        ensures
            r == dec_add(self.cash_view().cash_balance, marked_positions_value),
    {
        match self {
            Account::Cash(account) => account.equity(marked_positions_value),
        }
    }

    /// The inner cash account; every account is one.
    pub fn as_cash(&self) -> (r: Option<&CashAccount>)
        ensures
            r is Some && r.unwrap()@ == self.cash_view(),
    {
        match self {
            Account::Cash(account) => Some(account),
        }
    }

    /// Mutable access to the inner cash account; every account is one.
    pub fn as_cash_mut(&mut self) -> (r: Option<&mut CashAccount>)
        ensures
            match r {
                Some(c) => *c == (match *old(self) { Account::Cash(inner) => inner })
                    && *final(self) == Account::Cash(*final(c)),
                None => false,
            },
    {
        match self {
            Account::Cash(account) => Some(account),
        }
    }

    /// A copy with the same abstract value.
    pub fn duplicate(&self) -> (r: Account)
        ensures
            r.cash_view() == self.cash_view(),
    {
        match self {
            Account::Cash(account) => Account::Cash(account.duplicate()),
        }
    }
}

} // verus!
