use lockup_stake::coins::Coin;
use lockup_stake::error::{AuthKind, ContractError, StateKind, ValidationKind};
use lockup_stake::frac_lockup::{CollectionInput, FracLockupContract};

const ADMIN: &str = "admin";
const CW721: &str = "contract0";
const LOCKUP: &str = "contract1";

fn denom() -> String {
    format!("factory/{}/{}", ADMIN, "bad-kids")
}

fn setup_contracts() -> FracLockupContract {
    let mut contract = FracLockupContract::new();
    contract
        .instantiate(
            ADMIN.to_string(),
            denom(),
            vec![CollectionInput {
                address: CW721.to_string(),
                tokens: 1000000u128,
            }],
        )
        .unwrap();
    contract
}

/// Deposit `token_id` as the custody-confirmed escrow would see it.
fn deposit(contract: &mut FracLockupContract, depositor: &str, token_id: &str) {
    contract
        .receive_nft(
            CW721.to_string(),
            depositor.to_string(),
            token_id.to_string(),
            &LOCKUP.to_string(),
            &LOCKUP.to_string(),
            0,
        )
        .unwrap();
}

#[test]
fn frac_lockup_proper_initialization() {
    setup_contracts();
}

#[test]
fn frac_lockup_proper_initialization_tube() {
    // Same setup as frac_lockup_proper_initialization, as the
    // chain-level harness of the original performed it.
    setup_contracts();
}

#[test]
fn frac_lockup_try_query_config() {
    let contract = setup_contracts();
    let config = contract.config();
    assert_eq!(config.admin, ADMIN);
    assert_eq!(config.denom, denom());
    assert_eq!(config.collections.len(), 1);
    assert_eq!(config.collections[0].address, CW721);
    assert_eq!(config.collections[0].tokens, 1000000u128);
}

#[test]
fn frac_lockup_try_deposit() {
    let mut contract = setup_contracts();
    let (lockup, mint) = contract
        .receive_nft(
            CW721.to_string(),
            ADMIN.to_string(),
            "1".to_string(),
            &LOCKUP.to_string(),
            &LOCKUP.to_string(),
            0,
        )
        .unwrap();
    assert_eq!(lockup.depositor, ADMIN);

    let response = contract.lockups_by_depositor(ADMIN.to_string());
    assert_eq!(response.lockups.len(), 1);
    assert_eq!(response.lockups[0].depositor, ADMIN);
    assert_eq!(response.lockups[0].collection_address, CW721);
    assert_eq!(response.lockups[0].token_id, "1");

    // The depositor is minted the collection's full rate.
    assert_eq!(mint.to_address, ADMIN);
    assert_eq!(mint.denom, denom());
    assert_eq!(mint.amount, 1000000u128);
}

#[test]
fn frac_lockup_try_withdraw() {
    let mut contract = setup_contracts();
    deposit(&mut contract, ADMIN, "1");

    let response = contract.lockups_by_depositor(ADMIN.to_string());
    assert_eq!(response.lockups.len(), 1);
    assert_eq!(response.lockups[0].depositor, ADMIN);
    assert_eq!(response.lockups[0].collection_address, CW721);
    assert_eq!(response.lockups[0].token_id, "1");

    let funds = vec![Coin::new(denom(), 1000000u128)];
    let (transfer, burn) = contract
        .withdraw(ADMIN.to_string(), CW721.to_string(), "1".to_string(), &funds)
        .unwrap();
    assert_eq!(transfer.recipient, ADMIN);
    assert_eq!(transfer.collection, CW721);
    assert_eq!(transfer.token_id, "1");

    let response = contract.lockups_by_depositor(ADMIN.to_string());
    assert_eq!(response.lockups.len(), 0);

    // The full payment is burned.
    assert_eq!(burn.denom, denom());
    assert_eq!(burn.amount, 1000000u128);
}

#[test]
fn instantiate_requires_factory_denom() {
    let mut contract = FracLockupContract::new();
    let err = contract
        .instantiate(ADMIN.to_string(), "ustars".to_string(), vec![])
        .unwrap_err();
    assert_eq!(err, ContractError::Validation(ValidationKind::NotFactoryDenom));
    assert_eq!(err.message(), "Denom must be a token factory token");
}

#[test]
fn append_collection_rules() {
    let mut contract = setup_contracts();

    let err = contract
        .append_collection(
            "user".to_string(),
            CollectionInput { address: "c9".to_string(), tokens: 5 },
        )
        .unwrap_err();
    assert_eq!(err, ContractError::Authorization(AuthKind::NotAdmin));

    let err = contract
        .append_collection(
            ADMIN.to_string(),
            CollectionInput { address: CW721.to_string(), tokens: 5 },
        )
        .unwrap_err();
    assert_eq!(
        err,
        ContractError::Validation(ValidationKind::DuplicateCollection)
    );
    assert_eq!(err.message(), "Collection already exists");

    contract
        .append_collection(
            ADMIN.to_string(),
            CollectionInput { address: "c9".to_string(), tokens: 5 },
        )
        .unwrap();
    let config = contract.config();
    assert_eq!(config.collections.len(), 2);
    assert_eq!(config.collections[1].address, "c9");
}

#[test]
fn withdraw_payment_must_match_rate() {
    let mut contract = setup_contracts();
    deposit(&mut contract, ADMIN, "1");

    let underpaid = vec![Coin::new(denom(), 999999u128)];
    let err = contract
        .withdraw(ADMIN.to_string(), CW721.to_string(), "1".to_string(), &underpaid)
        .unwrap_err();
    assert_eq!(err, ContractError::Validation(ValidationKind::WrongPayment));
    assert_eq!(err.message(), "Incorrect amount of funds sent");

    let wrong_denom = vec![Coin::new("ustars".to_string(), 1000000u128)];
    let err = contract
        .withdraw(ADMIN.to_string(), CW721.to_string(), "1".to_string(), &wrong_denom)
        .unwrap_err();
    assert_eq!(err, ContractError::Validation(ValidationKind::WrongDenom));

    let empty: Vec<Coin> = vec![];
    let err = contract
        .withdraw(ADMIN.to_string(), CW721.to_string(), "1".to_string(), &empty)
        .unwrap_err();
    assert_eq!(err, ContractError::Validation(ValidationKind::NoFunds));

    let two = vec![Coin::new(denom(), 1000000u128), Coin::new("u2".to_string(), 1)];
    let err = contract
        .withdraw(ADMIN.to_string(), CW721.to_string(), "1".to_string(), &two)
        .unwrap_err();
    assert_eq!(err, ContractError::Validation(ValidationKind::MultipleDenoms));

    // The record is still there.
    assert_eq!(contract.count().count, 1);
}

#[test]
fn withdraw_absent_token_not_found() {
    let mut contract = setup_contracts();
    let funds = vec![Coin::new(denom(), 1000000u128)];
    let err = contract
        .withdraw(ADMIN.to_string(), CW721.to_string(), "9".to_string(), &funds)
        .unwrap_err();
    assert_eq!(err, ContractError::State(StateKind::NotFound));
}

#[test]
fn frac_contract_type_tag() {
    let contract = setup_contracts();
    let res = contract.contract_type();
    assert_eq!(res.contract, "frac");
    assert_eq!(res.version, "0.1.0");
}

#[test]
fn frac_receive_without_confirmed_custody() {
    let mut contract = setup_contracts();
    let err = contract
        .receive_nft(
            CW721.to_string(),
            ADMIN.to_string(),
            "1".to_string(),
            &ADMIN.to_string(),
            &LOCKUP.to_string(),
            0,
        )
        .unwrap_err();
    assert_eq!(
        err,
        ContractError::Validation(ValidationKind::CustodyNotConfirmed)
    );
    assert_eq!(contract.count().count, 0);
}
