use strategy_api::decimal::Dec;
use strategy_api::order_sys::account::{Account, AccountError, AccountKind, CashAccount};
use strategy_api::order_sys::AccountId;

fn dec(value: i64, scale: u32) -> Dec {
    Dec::new(value, scale)
}

#[test]
fn cash_account_rejects_blank_currency_and_negative_balance() {
    assert_eq!(
        CashAccount::new(AccountId::new(1), "   ", Dec::zero()).unwrap_err(),
        AccountError::EmptyBaseCurrency
    );
    assert_eq!(
        CashAccount::new(AccountId::new(1), "USD", dec(-1, 0)).unwrap_err(),
        AccountError::NegativeCashBalance {
            cash_balance: dec(-1, 0),
        }
    );
}

#[test]
fn cash_account_applies_cash_deltas_without_going_negative() {
    let mut account = CashAccount::new(AccountId::new(1), "USD", dec(1000, 0)).unwrap();

    account.apply_cash_delta(dec(-250, 0)).unwrap();
    account.apply_cash_delta(dec(125, 0)).unwrap();

    assert_eq!(account.cash_balance(), dec(875, 0));
    assert_eq!(account.equity(dec(325, 0)).unwrap(), dec(1200, 0));

    let err = account.apply_cash_delta(dec(-900, 0)).unwrap_err();
    assert_eq!(
        err,
        AccountError::CashBalanceWouldBecomeNegative {
            current_balance: dec(875, 0),
            delta: dec(-900, 0),
            attempted_balance: dec(-25, 0),
        }
    );
}

#[test]
fn account_enum_delegates_cash_behavior() {
    let mut account = Account::new_cash(AccountId::new(7), "USD", dec(500, 0)).unwrap();

    assert_eq!(account.id(), AccountId::new(7));
    assert_eq!(account.kind(), AccountKind::Cash);
    assert_eq!(account.base_currency(), "USD");
    assert_eq!(account.cash_balance(), dec(500, 0));
    assert_eq!(account.equity(dec(40, 0)).unwrap(), dec(540, 0));

    account
        .as_cash_mut()
        .expect("cash account variant must expose mutable access")
        .apply_cash_delta(dec(-100, 0))
        .unwrap();

    assert_eq!(account.cash_balance(), dec(400, 0));
}
