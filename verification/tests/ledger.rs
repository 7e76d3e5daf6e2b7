use token_ledger::token::{Token, TokenError, TokenStorage};

fn s(v: &str) -> String {
    String::from(v)
}

fn new_token(total: u128, caller: &String) -> Token {
    Token::new(s("Example"), s("EXM"), 8, total, caller)
}

#[test]
fn initialize_mints_whole_supply_to_caller() {
    let a = s("alice");
    let b = s("bob");
    let t = new_token(1000, &a);
    assert_eq!(t.balance_of(&a), 1000);
    assert_eq!(t.balance_of(&b), 0);
    assert_eq!(t.total_supply, 1000);
    assert_eq!(t.name, s("Example"));
    assert_eq!(t.symbol, s("EXM"));
    assert_eq!(t.decimals, 8);
}

#[test]
fn transfer_moves_amount() {
    let a = s("alice");
    let b = s("bob");
    let mut t = new_token(1000, &a);
    let r = t.transfer(&a, &b, 300);
    assert_eq!(r, Ok(true));
    assert_eq!(t.balance_of(&a), 700);
    assert_eq!(t.balance_of(&b), 300);
}

#[test]
fn transfer_beyond_balance_fails_without_effect() {
    let a = s("alice");
    let b = s("bob");
    let mut t = new_token(1000, &a);
    assert_eq!(t.transfer(&a, &b, 300), Ok(true));
    let r = t.transfer(&a, &b, 800);
    assert_eq!(r, Err(TokenError::InsufficientBalance));
    assert_eq!(t.balance_of(&a), 700);
    assert_eq!(t.balance_of(&b), 300);
}

#[test]
fn transfer_from_unknown_account_fails() {
    let a = s("alice");
    let c = s("carol");
    let mut t = new_token(1000, &a);
    let r = t.transfer(&c, &a, 1);
    assert_eq!(r, Err(TokenError::InsufficientBalance));
    assert_eq!(t.balance_of(&a), 1000);
    assert_eq!(t.balance_of(&c), 0);
}

#[test]
fn transfer_of_whole_balance_empties_the_row() {
    let a = s("alice");
    let b = s("bob");
    let mut t = new_token(1000, &a);
    assert_eq!(t.transfer(&a, &b, 1000), Ok(true));
    assert_eq!(t.balance_of(&a), 0);
    assert_eq!(t.balance_of(&b), 1000);
}

#[test]
fn transfer_of_zero_succeeds() {
    let a = s("alice");
    let b = s("bob");
    let mut t = new_token(1000, &a);
    assert_eq!(t.transfer(&a, &b, 0), Ok(true));
    assert_eq!(t.balance_of(&a), 1000);
    assert_eq!(t.balance_of(&b), 0);
    assert_eq!(t.transfer(&b, &a, 0), Ok(true));
}

#[test]
fn self_transfer_checks_balance_but_moves_nothing() {
    let a = s("alice");
    let mut t = new_token(1000, &a);
    assert_eq!(t.transfer(&a, &a, 400), Ok(true));
    assert_eq!(t.balance_of(&a), 1000);
    assert_eq!(t.transfer(&a, &a, 1001), Err(TokenError::InsufficientBalance));
    assert_eq!(t.balance_of(&a), 1000);
}

#[test]
fn transfers_conserve_the_total_supply() {
    let a = s("alice");
    let b = s("bob");
    let c = s("carol");
    let mut t = new_token(1000, &a);
    assert_eq!(t.transfer(&a, &b, 250), Ok(true));
    assert_eq!(t.transfer(&b, &c, 100), Ok(true));
    assert_eq!(t.transfer(&c, &a, 30), Ok(true));
    assert_eq!(t.transfer(&a, &a, 7), Ok(true));
    let sum = t.balance_of(&a) + t.balance_of(&b) + t.balance_of(&c);
    assert_eq!(sum, 1000);
    assert!(t.balance_of(&a) <= t.total_supply);
    assert!(t.balance_of(&b) <= t.total_supply);
    assert!(t.balance_of(&c) <= t.total_supply);
}

#[test]
fn recipient_overflow_is_rejected_without_effect() {
    // A ledger built row by row, with more value at stake than one row can
    // absorb; the crediting side must refuse rather than wrap.
    let a = s("alice");
    let b = s("bob");
    let t0 = new_token(0, &a);
    let mut t = Token {
        name: t0.name,
        symbol: t0.symbol,
        decimals: t0.decimals,
        total_supply: t0.total_supply,
        storage: TokenStorage {
            balances: vec![(a.clone(), u128::MAX), (b.clone(), 5)],
            allowances: Vec::new(),
        },
    };
    let r = t.transfer(&b, &a, 5);
    assert_eq!(r, Err(TokenError::ArithmeticOverflow));
    assert_eq!(t.balance_of(&a), u128::MAX);
    assert_eq!(t.balance_of(&b), 5);
}

#[test]
fn approve_overwrites_previous_allowance() {
    let a = s("alice");
    let spender = s("sam");
    let mut t = new_token(1000, &a);
    t.approve(&a, &spender, 50);
    assert_eq!(t.allowance(&a, &spender), 50);
    t.approve(&a, &spender, 10);
    assert_eq!(t.allowance(&a, &spender), 10);
}

#[test]
fn approve_leaves_balances_and_other_allowances_alone() {
    let a = s("alice");
    let b = s("bob");
    let spender = s("sam");
    let mut t = new_token(1000, &a);
    assert_eq!(t.transfer(&a, &b, 300), Ok(true));
    t.approve(&a, &spender, 50);
    t.approve(&b, &spender, 70);
    assert_eq!(t.balance_of(&a), 700);
    assert_eq!(t.balance_of(&b), 300);
    assert_eq!(t.allowance(&a, &spender), 50);
    assert_eq!(t.allowance(&b, &spender), 70);
    // the pair key is ordered: (owner, spender) is not (spender, owner)
    assert_eq!(t.allowance(&spender, &a), 0);
}

#[test]
fn allowance_defaults_to_zero() {
    let a = s("alice");
    let b = s("bob");
    let t = new_token(1000, &a);
    assert_eq!(t.allowance(&a, &b), 0);
    assert_eq!(t.allowance(&b, &a), 0);
}
