use lockup_stake::coins::Coin;
use lockup_stake::error::{AuthKind, ContractError, StateKind, ValidationKind};
use lockup_stake::fixed_stake::{FixedStakeContract, LockupSource};
use lockup_stake::{cw721_lockup, native_lockup};

const NATIVE_LOCKUP: &str = "contract0";
const CW721: &str = "contract0";
const CW721_LOCKUP: &str = "contract1";

const ADMIN: &str = "admin";
const USER: &str = "user";

fn setup_native_contracts() -> (native_lockup::NativeLockupContract, FixedStakeContract) {
    let mut lockup = native_lockup::NativeLockupContract::new();
    lockup.instantiate(ADMIN.to_string(), "ustars".to_string(), 3600);

    let mut stake = FixedStakeContract::new();
    let tag = lockup.contract_type().contract_type;
    stake
        .instantiate(
            ADMIN.to_string(),
            NATIVE_LOCKUP.to_string(),
            &tag,
            3600,
            "ustars".to_string(),
            100u128,
            1,
            36001,
        )
        .unwrap();
    (lockup, stake)
}

fn setup_cw721_contracts() -> (cw721_lockup::Cw721LockupContract, FixedStakeContract) {
    let mut lockup = cw721_lockup::Cw721LockupContract::new();
    lockup.instantiate(ADMIN.to_string(), Some(3600), vec![CW721.to_string()]);

    let mut stake = FixedStakeContract::new();
    stake
        .instantiate(
            ADMIN.to_string(),
            CW721_LOCKUP.to_string(),
            &"cw721".to_string(),
            3600,
            "ustars".to_string(),
            100u128,
            1,
            36001,
        )
        .unwrap();
    (lockup, stake)
}

/// What the fungible lockup engine answers the reward engine's
/// read-only queries at claim time.
fn native_source(lockup: &native_lockup::NativeLockupContract, address: &str) -> LockupSource {
    LockupSource::Native {
        lockup: lockup.lockup(address.to_string()).ok(),
        count: lockup.count().unwrap().count,
    }
}

/// What the NFT lockup engine answers the reward engine's read-only
/// queries at claim time.
fn cw721_source(
    lockup: &cw721_lockup::Cw721LockupContract,
    collection: &str,
    token_id: &str,
) -> LockupSource {
    LockupSource::Cw721 {
        lockup: lockup
            .lockup_by_token(collection.to_string(), token_id.to_string())
            .ok(),
        count: lockup.count().count,
    }
}

#[test]
fn proper_native_initialization() {
    setup_native_contracts();
    println!("{:?}", 3600u64);
    println!("{:?}", 1721962842u64);
    println!("{:?}", 1721962842u64 + 7 * 24 * 3600);
}

#[test]
fn proper_cw721_initialization() {
    setup_cw721_contracts();
}

#[test]
fn native_deposit_and_claim() {
    let (mut lockup, mut stake) = setup_native_contracts();

    // User deposits 100 ustars at the opening block.
    lockup
        .deposit(
            USER.to_string(),
            &vec![Coin::new("ustars".to_string(), 100)],
            1,
        )
        .unwrap();

    // A claim before the distribution period opens is rejected.
    let of = (USER.to_string(), String::new());
    let err = stake
        .claim_rewards(USER.to_string(), of.clone(), 1, &native_source(&lockup, USER))
        .unwrap_err();
    assert_eq!(err, ContractError::State(StateKind::NotStarted));
    assert_eq!(err.message(), "Reward distribution period has not started");

    // Time advances by 3700 seconds; the claim pays 10 ustars.
    let send = stake
        .claim_rewards(USER.to_string(), of, 3701, &native_source(&lockup, USER))
        .unwrap();
    assert_eq!(send.to_address, USER);
    assert_eq!(send.denom, "ustars");
    assert_eq!(send.amount, 10);
}

#[test]
fn cw721_deposit_and_claim() {
    let (mut lockup, mut stake) = setup_cw721_contracts();

    // User's NFT "1" enters custody at the opening block.
    lockup
        .receive_nft(
            CW721.to_string(),
            USER.to_string(),
            "1".to_string(),
            &CW721_LOCKUP.to_string(),
            &CW721_LOCKUP.to_string(),
            1,
        )
        .unwrap();

    let of = (CW721.to_string(), "1".to_string());
    let err = stake
        .claim_rewards(
            USER.to_string(),
            of.clone(),
            1,
            &cw721_source(&lockup, CW721, "1"),
        )
        .unwrap_err();
    assert_eq!(err, ContractError::State(StateKind::NotStarted));
    assert_eq!(err.message(), "Reward distribution period has not started");

    let send = stake
        .claim_rewards(USER.to_string(), of, 3701, &cw721_source(&lockup, CW721, "1"))
        .unwrap();
    assert_eq!(send.to_address, USER);
    assert_eq!(send.denom, "ustars");
    assert_eq!(send.amount, 10);
}

#[test]
fn claim_twice_in_one_interval_fails() {
    // Pool 100 over [1, 36001) in 3600-second intervals, one
    // participant whose position opened before the window: at 3701 the
    // checkpoint resolves to the window start, one whole interval has
    // elapsed, and 100 / (36000/3600) / 100 * 100 = 10 is paid.
    // Claiming again at the same instant must fail.
    let (mut lockup, mut stake) = setup_native_contracts();
    lockup
        .deposit(
            USER.to_string(),
            &vec![Coin::new("ustars".to_string(), 100)],
            0,
        )
        .unwrap();

    let of = (USER.to_string(), String::new());
    let send = stake
        .claim_rewards(
            USER.to_string(),
            of.clone(),
            3701,
            &native_source(&lockup, USER),
        )
        .unwrap();
    assert_eq!(send.amount, 10);
    assert_eq!(stake.query_last_claim(of.clone()).unwrap(), 3701);

    let err = stake
        .claim_rewards(USER.to_string(), of, 3701, &native_source(&lockup, USER))
        .unwrap_err();
    assert_eq!(err, ContractError::State(StateKind::IntervalNotReached));
    assert_eq!(err.message(), "Distribution interval not reached");
}

#[test]
fn rejected_claim_leaves_no_checkpoint() {
    // Idempotence of failure: a claim rejected before the window opens
    // must not create or change a checkpoint.
    let (mut lockup, mut stake) = setup_native_contracts();
    lockup
        .deposit(
            USER.to_string(),
            &vec![Coin::new("ustars".to_string(), 100)],
            0,
        )
        .unwrap();

    let of = (USER.to_string(), String::new());
    let err = stake
        .claim_rewards(
            USER.to_string(),
            of.clone(),
            1,
            &native_source(&lockup, USER),
        )
        .unwrap_err();
    assert_eq!(err, ContractError::State(StateKind::NotStarted));

    let err = stake.query_last_claim(of).unwrap_err();
    assert_eq!(err, ContractError::State(StateKind::NotFound));
}

#[test]
fn reward_conservation_over_full_window() {
    // A single participant holding the pool's entire eligible amount
    // claims at every interval boundary until the window closes; the
    // claims sum to at most the pool and reconcile with the sweep up
    // to rounding residue (here exactly).
    let (mut lockup, mut stake) = setup_native_contracts();
    lockup
        .deposit(
            USER.to_string(),
            &vec![Coin::new("ustars".to_string(), 100)],
            0,
        )
        .unwrap();

    let of = (USER.to_string(), String::new());
    let mut paid: u128 = 0;
    let mut k: u64 = 1;
    while 1 + k * 3600 < 36001 {
        let now = 1 + k * 3600;
        let send = stake
            .claim_rewards(
                USER.to_string(),
                of.clone(),
                now,
                &native_source(&lockup, USER),
            )
            .unwrap();
        paid += send.amount;
        k += 1;
    }
    assert!(paid <= 100);
    assert_eq!(paid, 90);

    // After the window the admin sweeps the residual balance.
    let residual = 100 - paid;
    let sweep = stake
        .withdraw_excess_balance(ADMIN.to_string(), 36002, residual)
        .unwrap();
    assert_eq!(sweep.amount + paid, 100);
}

#[test]
fn claim_authorization_per_variant() {
    let (mut nlockup, mut nstake) = setup_native_contracts();
    nlockup
        .deposit(
            USER.to_string(),
            &vec![Coin::new("ustars".to_string(), 100)],
            1,
        )
        .unwrap();

    // Fungible variant: only the principal the claim names may claim.
    let err = nstake
        .claim_rewards(
            ADMIN.to_string(),
            (USER.to_string(), String::new()),
            3701,
            &native_source(&nlockup, USER),
        )
        .unwrap_err();
    assert_eq!(err, ContractError::Authorization(AuthKind::NotClaimer));
    assert_eq!(err.message(), "Unauthorized");

    // NFT variant: only the recorded owner may claim.
    let (mut clockup, mut cstake) = setup_cw721_contracts();
    clockup
        .receive_nft(
            CW721.to_string(),
            USER.to_string(),
            "1".to_string(),
            &CW721_LOCKUP.to_string(),
            &CW721_LOCKUP.to_string(),
            1,
        )
        .unwrap();
    let err = cstake
        .claim_rewards(
            ADMIN.to_string(),
            (CW721.to_string(), "1".to_string()),
            3701,
            &cw721_source(&clockup, CW721, "1"),
        )
        .unwrap_err();
    assert_eq!(err, ContractError::Authorization(AuthKind::NotClaimer));
}

#[test]
fn claim_window_and_source_errors() {
    let (mut lockup, mut stake) = setup_native_contracts();
    lockup
        .deposit(
            USER.to_string(),
            &vec![Coin::new("ustars".to_string(), 100)],
            1,
        )
        .unwrap();
    let of = (USER.to_string(), String::new());

    // At or past the end of the window claims are over.
    let err = stake
        .claim_rewards(
            USER.to_string(),
            of.clone(),
            36001,
            &native_source(&lockup, USER),
        )
        .unwrap_err();
    assert_eq!(err, ContractError::State(StateKind::Ended));
    assert_eq!(err.message(), "Reward distribution period has ended");

    // An unrecognized paired variant is rejected.
    let err = stake
        .claim_rewards(USER.to_string(), of.clone(), 3701, &LockupSource::Unrecognized)
        .unwrap_err();
    assert_eq!(
        err,
        ContractError::Validation(ValidationKind::InvalidLockupType)
    );
    assert_eq!(err.message(), "Invalid lockup contract type");

    // A claim for a principal with no position finds nothing.
    let err = stake
        .claim_rewards(
            ADMIN.to_string(),
            (ADMIN.to_string(), String::new()),
            3701,
            &native_source(&lockup, ADMIN),
        )
        .unwrap_err();
    assert_eq!(err, ContractError::State(StateKind::NotFound));
}

#[test]
fn late_entrant_accrues_from_entry() {
    // A position opened after the window start accrues from its own
    // entry time, not from the window start.
    let (mut lockup, mut stake) = setup_native_contracts();
    lockup
        .deposit(
            USER.to_string(),
            &vec![Coin::new("ustars".to_string(), 100)],
            7201,
        )
        .unwrap();

    let of = (USER.to_string(), String::new());
    // Only one whole interval has passed since entry at 7201.
    let send = stake
        .claim_rewards(
            USER.to_string(),
            of,
            7201 + 3600,
            &native_source(&lockup, USER),
        )
        .unwrap();
    assert_eq!(send.amount, 10);
}

#[test]
fn stake_instantiate_validation() {
    let mut stake = FixedStakeContract::new();
    let err = stake
        .instantiate(
            ADMIN.to_string(),
            NATIVE_LOCKUP.to_string(),
            &"native".to_string(),
            3600,
            "ustars".to_string(),
            100u128,
            36001,
            1,
        )
        .unwrap_err();
    assert_eq!(err, ContractError::Validation(ValidationKind::InvalidWindow));
    assert_eq!(err.message(), "End time must be after start time");

    let err = stake
        .instantiate(
            ADMIN.to_string(),
            NATIVE_LOCKUP.to_string(),
            &"frac".to_string(),
            3600,
            "ustars".to_string(),
            100u128,
            1,
            36001,
        )
        .unwrap_err();
    assert_eq!(
        err,
        ContractError::Validation(ValidationKind::InvalidLockupType)
    );
}

#[test]
fn sweep_is_admin_gated_and_after_end() {
    let (_, stake) = setup_native_contracts();

    let err = stake
        .withdraw_excess_balance(USER.to_string(), 40000, 10)
        .unwrap_err();
    assert_eq!(err, ContractError::Authorization(AuthKind::NotAdmin));

    let err = stake
        .withdraw_excess_balance(ADMIN.to_string(), 36001, 10)
        .unwrap_err();
    assert_eq!(err, ContractError::State(StateKind::SweepTooEarly));
    assert_eq!(err.message(), "End time has not been reached");

    let send = stake
        .withdraw_excess_balance(ADMIN.to_string(), 36002, 10)
        .unwrap();
    assert_eq!(send.to_address, ADMIN);
    assert_eq!(send.denom, "ustars");
    assert_eq!(send.amount, 10);
}

#[test]
fn stake_config_roundtrip() {
    let (_, stake) = setup_native_contracts();
    let config = stake.config();
    assert_eq!(config.admin, ADMIN);
    assert_eq!(config.lockup_contract, NATIVE_LOCKUP);
    assert_eq!(config.distribution_interval, 3600);
    assert_eq!(config.reward_denom, "ustars");
    assert_eq!(config.total_rewards, 100);
    assert_eq!(config.start_time, 1);
    assert_eq!(config.end_time, 36001);
}

#[test]
fn zero_interval_claim_is_division_error() {
    let mut lockup = native_lockup::NativeLockupContract::new();
    lockup.instantiate(ADMIN.to_string(), "ustars".to_string(), 0);
    lockup
        .deposit(
            USER.to_string(),
            &vec![Coin::new("ustars".to_string(), 100)],
            1,
        )
        .unwrap();

    let mut stake = FixedStakeContract::new();
    stake
        .instantiate(
            ADMIN.to_string(),
            NATIVE_LOCKUP.to_string(),
            &"native".to_string(),
            0,
            "ustars".to_string(),
            100u128,
            1,
            36001,
        )
        .unwrap();
    let err = stake
        .claim_rewards(
            USER.to_string(),
            (USER.to_string(), String::new()),
            3701,
            &native_source(&lockup, USER),
        )
        .unwrap_err();
    assert_eq!(
        err,
        ContractError::Arithmetic(lockup_stake::error::ArithmeticKind::DivideByZero)
    );
}

#[test]
fn reward_overflow_is_rejected() {
    // A pool near the amount type's ceiling overflows the exact
    // intermediate product; the claim reports it instead of wrapping.
    let mut lockup = native_lockup::NativeLockupContract::new();
    lockup.instantiate(ADMIN.to_string(), "ustars".to_string(), 3600);
    lockup
        .deposit(
            USER.to_string(),
            &vec![Coin::new("ustars".to_string(), 100)],
            1,
        )
        .unwrap();

    let mut stake = FixedStakeContract::new();
    stake
        .instantiate(
            ADMIN.to_string(),
            NATIVE_LOCKUP.to_string(),
            &"native".to_string(),
            3600,
            "ustars".to_string(),
            u128::MAX,
            1,
            36001,
        )
        .unwrap();
    let of = (USER.to_string(), String::new());
    let err = stake
        .claim_rewards(USER.to_string(), of.clone(), 3701, &native_source(&lockup, USER))
        .unwrap_err();
    assert_eq!(
        err,
        ContractError::Arithmetic(lockup_stake::error::ArithmeticKind::Overflow)
    );
    // the rejected claim left no checkpoint behind
    let err = stake.query_last_claim(of).unwrap_err();
    assert_eq!(err, ContractError::State(StateKind::NotFound));
}
