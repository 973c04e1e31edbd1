use lockup_stake::cw721_lockup::Cw721LockupContract;
use lockup_stake::error::{AuthKind, ContractError, StateKind, ValidationKind};

const ADMIN: &str = "admin";
const USER: &str = "user";
const CW721: &str = "contract0";
const LOCKUP: &str = "contract1";

fn setup_contracts() -> Cw721LockupContract {
    let mut contract = Cw721LockupContract::new();
    contract.instantiate(ADMIN.to_string(), Some(3600), vec![CW721.to_string()]);
    contract
}

/// Deposit `token_id` as the custody-confirmed escrow would see it.
fn deposit(contract: &mut Cw721LockupContract, owner: &str, token_id: &str, now: u64) {
    contract
        .receive_nft(
            CW721.to_string(),
            owner.to_string(),
            token_id.to_string(),
            &LOCKUP.to_string(),
            &LOCKUP.to_string(),
            now,
        )
        .unwrap();
}

#[test]
fn cw721_lockup_proper_initialization() {
    setup_contracts();
}

#[test]
fn cw721_lockup_try_query_config() {
    let contract = setup_contracts();
    let res = contract.config();
    assert_eq!(res.admin, ADMIN);
    assert_eq!(res.lockup_interval, 3600);
    assert_eq!(res.collections.len(), 1);
    assert_eq!(res.collections[0], CW721);
}

#[test]
fn try_deposit_cw721() {
    let mut contract = setup_contracts();
    deposit(&mut contract, USER, "1", 0);

    let res = contract.lockups_by_owner(USER.to_string());
    assert_eq!(res.lockups.len(), 1);
    assert_eq!(res.lockups[0].owner, USER);
    assert_eq!(res.lockups[0].collection_address, CW721);
    assert_eq!(res.lockups[0].token_id, "1");
}

#[test]
fn try_withdraw_cw721() {
    let mut contract = setup_contracts();
    deposit(&mut contract, USER, "1", 0);

    let res = contract.lockups_by_owner(USER.to_string());
    assert_eq!(res.lockups.len(), 1);

    let err = contract
        .withdraw(USER.to_string(), CW721.to_string(), "1".to_string(), 0)
        .unwrap_err();
    assert_eq!(err, ContractError::State(StateKind::StillLocked));
    assert_eq!(err.message(), "Lockup period has not passed");

    let err = contract
        .withdraw(ADMIN.to_string(), CW721.to_string(), "1".to_string(), 3700)
        .unwrap_err();
    assert_eq!(err, ContractError::Authorization(AuthKind::NotNftOwner));
    assert_eq!(err.message(), "Sender is not the owner of the NFT");

    let transfer = contract
        .withdraw(USER.to_string(), CW721.to_string(), "1".to_string(), 3700)
        .unwrap();
    assert_eq!(transfer.recipient, USER);
    assert_eq!(transfer.collection, CW721);
    assert_eq!(transfer.token_id, "1");

    let res = contract.lockups_by_owner(USER.to_string());
    assert_eq!(res.lockups.len(), 0);
}

#[test]
fn receive_from_unsupported_collection() {
    let mut contract = setup_contracts();
    let err = contract
        .receive_nft(
            "rogue".to_string(),
            USER.to_string(),
            "1".to_string(),
            &LOCKUP.to_string(),
            &LOCKUP.to_string(),
            0,
        )
        .unwrap_err();
    assert_eq!(
        err,
        ContractError::Validation(ValidationKind::UnsupportedCollection)
    );
    assert_eq!(err.message(), "Collection is not supported");
}

#[test]
fn receive_without_confirmed_custody() {
    let mut contract = setup_contracts();
    // The registry still names the original owner as custodian.
    let err = contract
        .receive_nft(
            CW721.to_string(),
            USER.to_string(),
            "1".to_string(),
            &USER.to_string(),
            &LOCKUP.to_string(),
            0,
        )
        .unwrap_err();
    assert_eq!(
        err,
        ContractError::Validation(ValidationKind::CustodyNotConfirmed)
    );
    assert_eq!(err.message(), "Token was not transferred to contract");
    assert_eq!(contract.count().count, 0);
}

#[test]
fn query_withdrawn_token_not_found() {
    let mut contract = setup_contracts();
    deposit(&mut contract, USER, "7", 0);
    assert!(contract
        .lockup_by_token(CW721.to_string(), "7".to_string())
        .is_ok());

    contract
        .withdraw(USER.to_string(), CW721.to_string(), "7".to_string(), 3700)
        .unwrap();
    let err = contract
        .lockup_by_token(CW721.to_string(), "7".to_string())
        .unwrap_err();
    assert_eq!(err, ContractError::State(StateKind::NotFound));
    assert_eq!(err.message(), "Lockup entry not found");
}

#[test]
fn range_queries_and_count() {
    let mut contract = Cw721LockupContract::new();
    contract.instantiate(
        ADMIN.to_string(),
        Some(3600),
        vec![CW721.to_string(), "contract9".to_string()],
    );
    contract
        .receive_nft(
            CW721.to_string(),
            USER.to_string(),
            "1".to_string(),
            &LOCKUP.to_string(),
            &LOCKUP.to_string(),
            5,
        )
        .unwrap();
    contract
        .receive_nft(
            "contract9".to_string(),
            USER.to_string(),
            "2".to_string(),
            &LOCKUP.to_string(),
            &LOCKUP.to_string(),
            6,
        )
        .unwrap();
    contract
        .receive_nft(
            CW721.to_string(),
            ADMIN.to_string(),
            "3".to_string(),
            &LOCKUP.to_string(),
            &LOCKUP.to_string(),
            7,
        )
        .unwrap();

    assert_eq!(contract.count().count, 3);

    let by_user = contract.lockups_by_owner(USER.to_string());
    assert_eq!(by_user.lockups.len(), 2);
    assert_eq!(by_user.lockups[0].token_id, "1");
    assert_eq!(by_user.lockups[1].token_id, "2");

    let by_collection = contract.lockups_by_collection(CW721.to_string());
    assert_eq!(by_collection.lockups.len(), 2);
    assert_eq!(by_collection.lockups[0].token_id, "1");
    assert_eq!(by_collection.lockups[1].token_id, "3");
}

#[test]
fn cw721_contract_type_tag() {
    let contract = setup_contracts();
    let res = contract.contract_type();
    assert_eq!(res.contract, "cw721");
    assert_eq!(res.version, "0.1.0");
}

#[test]
fn cw721_update_admin_gated() {
    let mut contract = setup_contracts();
    let err = contract
        .update_admin(USER.to_string(), USER.to_string())
        .unwrap_err();
    assert_eq!(err, ContractError::Authorization(AuthKind::NotAdmin));
    contract
        .update_admin(ADMIN.to_string(), USER.to_string())
        .unwrap();
    assert_eq!(contract.config().admin, USER);
}

#[test]
fn range_scans_come_out_in_ascending_key_order() {
    // Records are returned ordered by (collection, token id) in
    // lexicographic code-point order, whatever the deposit order;
    // note "10" sorts before "2".
    let mut contract = Cw721LockupContract::new();
    contract.instantiate(
        ADMIN.to_string(),
        Some(3600),
        vec!["cb".to_string(), "ca".to_string()],
    );
    for (collection, token) in [("cb", "2"), ("ca", "1"), ("cb", "10")] {
        contract
            .receive_nft(
                collection.to_string(),
                USER.to_string(),
                token.to_string(),
                &LOCKUP.to_string(),
                &LOCKUP.to_string(),
                0,
            )
            .unwrap();
    }

    let res = contract.lockups_by_owner(USER.to_string());
    let keys: Vec<(String, String)> = res
        .lockups
        .iter()
        .map(|l| (l.collection_address.clone(), l.token_id.clone()))
        .collect();
    assert_eq!(
        keys,
        vec![
            ("ca".to_string(), "1".to_string()),
            ("cb".to_string(), "10".to_string()),
            ("cb".to_string(), "2".to_string()),
        ]
    );

    let res = contract.lockups_by_collection("cb".to_string());
    assert_eq!(res.lockups[0].token_id, "10");
    assert_eq!(res.lockups[1].token_id, "2");
}
