use lockup_stake::coins::Coin;
use lockup_stake::error::{ArithmeticKind, AuthKind, ContractError, StateKind, ValidationKind};
use lockup_stake::native_lockup::NativeLockupContract;

const ADMIN: &str = "admin";
const USER: &str = "user";
const TOKEN: &str = "ustars";

fn setup_contracts() -> NativeLockupContract {
    let mut contract = NativeLockupContract::new();
    contract.instantiate(ADMIN.to_string(), TOKEN.to_string(), 3600);
    contract
}

fn coins(amount: u128, denom: &str) -> Vec<Coin> {
    vec![Coin::new(denom.to_string(), amount)]
}

#[test]
fn multitest_proper_initialization() {
    setup_contracts();
}

#[test]
fn multitest_try_query_config() {
    let contract = setup_contracts();
    let res = contract.config();
    assert_eq!(res.admin, ADMIN);
    assert_eq!(res.lockup_interval, 3600);
    assert_eq!(res.token, "ustars");
}

#[test]
fn multitest_try_deposit() {
    let mut contract = setup_contracts();

    // A deposit without funds is rejected.
    let err = contract
        .deposit(USER.to_string(), &vec![], 1)
        .unwrap_err();
    assert_eq!(err, ContractError::Validation(ValidationKind::NoFunds));
    assert_eq!(err.message(), "No funds sent");

    // Deposit 500 ustars.
    contract
        .deposit(USER.to_string(), &coins(500, TOKEN), 1)
        .unwrap();
    let res = contract.lockup(USER.to_string()).unwrap();
    assert_eq!(res.amount, 500);

    // Deposit 500 more ustars.
    contract
        .deposit(USER.to_string(), &coins(500, TOKEN), 1)
        .unwrap();
    let res = contract.lockup(USER.to_string()).unwrap();
    assert_eq!(res.amount, 1000);
}

#[test]
fn multitest_try_withdraw() {
    let mut contract = setup_contracts();

    // User deposits 1000 ustars.
    contract
        .deposit(USER.to_string(), &coins(1000, TOKEN), 0)
        .unwrap();
    let res = contract.lockup(USER.to_string()).unwrap();
    assert_eq!(res.amount, 1000);

    // Withdrawal before the lockup period has passed fails.
    let err = contract
        .withdraw(USER.to_string(), Some(500), 0)
        .unwrap_err();
    assert_eq!(err, ContractError::State(StateKind::StillLocked));
    assert_eq!(err.message(), "Lockup period has not passed");

    // After the lockup period a partial withdrawal succeeds.
    let send = contract.withdraw(USER.to_string(), Some(500), 3700).unwrap();
    assert_eq!(send.to_address, USER);
    assert_eq!(send.denom, TOKEN);
    assert_eq!(send.amount, 500);

    let res = contract.lockup(USER.to_string()).unwrap();
    assert_eq!(res.amount, 500);

    // Withdraw the remaining amount.
    contract.withdraw(USER.to_string(), None, 3700).unwrap();
    let err = contract.lockup(USER.to_string()).unwrap_err();
    assert_eq!(err, ContractError::State(StateKind::NotFound));
}

#[test]
fn deposit_validation_errors() {
    let mut contract = setup_contracts();

    let err = contract
        .deposit(USER.to_string(), &coins(0, TOKEN), 1)
        .unwrap_err();
    assert_eq!(err, ContractError::Validation(ValidationKind::ZeroAmount));
    assert_eq!(err.message(), "Funds sent must be greater than 0");

    let two = vec![
        Coin::new(TOKEN.to_string(), 5),
        Coin::new("uother".to_string(), 5),
    ];
    let err = contract.deposit(USER.to_string(), &two, 1).unwrap_err();
    assert_eq!(err, ContractError::Validation(ValidationKind::MultipleDenoms));
    assert_eq!(err.message(), "Only one token type can be sent");

    let err = contract
        .deposit(USER.to_string(), &coins(5, "uother"), 1)
        .unwrap_err();
    assert_eq!(err, ContractError::Validation(ValidationKind::WrongDenom));
    assert_eq!(err.message(), "Unsupported token sent");
}

#[test]
fn deposit_merges_and_restarts_unlock_clock() {
    let mut contract = setup_contracts();
    contract
        .deposit(USER.to_string(), &coins(100, TOKEN), 10)
        .unwrap();
    let second = contract
        .deposit(USER.to_string(), &coins(200, TOKEN), 5000)
        .unwrap();
    assert_eq!(second.amount, 300);
    assert_eq!(second.locked_since, 10);
    assert_eq!(second.locked_until, 5000 + 3600);
}

#[test]
fn deposit_overflow_is_rejected() {
    let mut contract = setup_contracts();
    contract
        .deposit(USER.to_string(), &coins(u128::MAX, TOKEN), 1)
        .unwrap();
    let err = contract
        .deposit(USER.to_string(), &coins(1, TOKEN), 2)
        .unwrap_err();
    assert_eq!(err, ContractError::Arithmetic(ArithmeticKind::Overflow));
    // The failed deposit changed nothing.
    let res = contract.lockup(USER.to_string()).unwrap();
    assert_eq!(res.amount, u128::MAX);
}

#[test]
fn withdraw_boundary_times() {
    // One second before the unlock time fails, exactly at it fails
    // (strictly-after is required), one second after succeeds.
    let mut contract = setup_contracts();
    contract
        .deposit(USER.to_string(), &coins(100, TOKEN), 100)
        .unwrap();
    let locked_until = contract.lockup(USER.to_string()).unwrap().locked_until;
    assert_eq!(locked_until, 3700);

    let err = contract
        .withdraw(USER.to_string(), None, locked_until - 1)
        .unwrap_err();
    assert_eq!(err, ContractError::State(StateKind::StillLocked));

    let err = contract
        .withdraw(USER.to_string(), None, locked_until)
        .unwrap_err();
    assert_eq!(err, ContractError::State(StateKind::StillLocked));

    contract
        .withdraw(USER.to_string(), None, locked_until + 1)
        .unwrap();
}

#[test]
fn partial_withdraw_keeps_unlock_time() {
    let mut contract = setup_contracts();
    contract
        .deposit(USER.to_string(), &coins(1000, TOKEN), 0)
        .unwrap();
    contract.withdraw(USER.to_string(), Some(500), 3700).unwrap();

    let res = contract.lockup(USER.to_string()).unwrap();
    assert_eq!(res.amount, 500);
    assert_eq!(res.locked_until, 3600);

    contract.withdraw(USER.to_string(), Some(500), 3700).unwrap();
    let err = contract.lockup(USER.to_string()).unwrap_err();
    assert_eq!(err, ContractError::State(StateKind::NotFound));
}

#[test]
fn withdraw_more_than_locked_underflows() {
    let mut contract = setup_contracts();
    contract
        .deposit(USER.to_string(), &coins(100, TOKEN), 0)
        .unwrap();
    let err = contract
        .withdraw(USER.to_string(), Some(101), 3700)
        .unwrap_err();
    assert_eq!(err, ContractError::Arithmetic(ArithmeticKind::Underflow));
    assert_eq!(contract.lockup(USER.to_string()).unwrap().amount, 100);
}

#[test]
fn withdraw_without_position_not_found() {
    let mut contract = setup_contracts();
    let err = contract.withdraw(USER.to_string(), None, 9999).unwrap_err();
    assert_eq!(err, ContractError::State(StateKind::NotFound));
}

#[test]
fn count_sums_locked_amounts() {
    let mut contract = setup_contracts();
    contract
        .deposit(USER.to_string(), &coins(300, TOKEN), 1)
        .unwrap();
    contract
        .deposit(ADMIN.to_string(), &coins(200, TOKEN), 1)
        .unwrap();
    let res = contract.count().unwrap();
    assert_eq!(res.count, 500);
}

#[test]
fn native_contract_type_tag() {
    let contract = setup_contracts();
    assert_eq!(contract.contract_type().contract_type, "native");
}

#[test]
fn update_admin_and_config_are_admin_gated() {
    let mut contract = setup_contracts();

    let err = contract
        .update_admin(USER.to_string(), USER.to_string())
        .unwrap_err();
    assert_eq!(err, ContractError::Authorization(AuthKind::NotAdmin));
    assert_eq!(err.message(), "Unauthorized");

    let err = contract
        .update_config(USER.to_string(), "uother".to_string(), 60)
        .unwrap_err();
    assert_eq!(err, ContractError::Authorization(AuthKind::NotAdmin));

    contract
        .update_config(ADMIN.to_string(), "uother".to_string(), 60)
        .unwrap();
    let res = contract.config();
    assert_eq!(res.token, "uother");
    assert_eq!(res.lockup_interval, 60);

    contract
        .update_admin(ADMIN.to_string(), USER.to_string())
        .unwrap();
    assert_eq!(contract.config().admin, USER);
}
