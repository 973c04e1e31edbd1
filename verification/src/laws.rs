//! Laws that relate several operations of the engines.
//!
//! Each proof function here states one cross-operation property over the
//! same spec transitions the engines' own contracts use. Two further
//! laws live elsewhere: reward conservation is
//! [`crate::rewards::lemma_reward_conservation`], and
//! idempotence-of-failure is the error clause of
//! [`crate::fixed_stake::FixedStakeContract::claim_rewards`] itself
//! (every rejected claim leaves the state, checkpoints included, equal
//! to the old state).

use vstd::prelude::*;

use crate::coins::CoinView;
use crate::cw721_lockup::{Cw721LockupContract, Cw721StateView};
use crate::error::{ContractError, ValidationKind};
use crate::kv::{has_key, lemma_drop_key, lemma_store, lookup, uniq_keys};
use crate::ledger::{lemma_ledger_put, ledger_wf, LockupView};
use crate::native_lockup::{Lockup, NativeLockupContract, NativeStateView};

verus! {

/// The state reached by a run of fungible deposits by one depositor,
/// each a single coin of the configured token: the next deposit applies
/// to the state the previous one produced.
pub open spec fn deposit_events(
    s: NativeStateView,
    sender: Seq<char>,
    events: Seq<(u128, u64)>,
) -> Result<NativeStateView, ContractError>
    decreases events.len(),
{
    if events.len() == 0 {
        Ok(s)
    } else {
        match NativeLockupContract::spec_deposit(
            s,
            sender,
            seq![CoinView { denom: s.token, amount: events[0].0 }],
            events[0].1,
        ) {
            Err(e) => Err(e),
            Ok((s2, _)) => deposit_events(s2, sender, events.skip(1)),
        }
    }
}

/// The sum of the deposited amounts.
pub open spec fn sum_of(events: Seq<(u128, u64)>) -> int
    decreases events.len(),
{
    if events.len() == 0 {
        0
    } else {
        events[0].0 + sum_of(events.skip(1))
    }
}

proof fn lemma_sum_of_nonneg(events: Seq<(u128, u64)>)
    ensures
        sum_of(events) >= 0,
    decreases events.len(),
{
    if events.len() > 0 {
        lemma_sum_of_nonneg(events.skip(1));
    }
}

proof fn lemma_accumulate_more(
    s: NativeStateView,
    sender: Seq<char>,
    lk: Lockup,
    events: Seq<(u128, u64)>,
)
    requires
        uniq_keys(s.lockup),
        lookup(s.lockup, sender) == Some(lk),
        forall|k: int| 0 <= k < events.len() ==> (#[trigger] events[k]).0 > 0,
        forall|k: int| 0 <= k < events.len() ==> (#[trigger] events[k]).1 + s.lockup_interval
            <= u64::MAX,
        lk.amount + sum_of(events) <= u128::MAX,
    ensures
        deposit_events(s, sender, events) matches Ok(s2) && uniq_keys(s2.lockup) && s2.token
            == s.token && s2.lockup_interval == s.lockup_interval && lookup(s2.lockup, sender)
            == Some(
            Lockup {
                amount: (lk.amount + sum_of(events)) as u128,
                locked_since: lk.locked_since,
                locked_until: if events.len() == 0 {
                    lk.locked_until
                } else {
                    (events.last().1 + s.lockup_interval) as u64
                },
            },
        ),
    decreases events.len(),
{
    if events.len() == 0 {
        assert(lk == (Lockup {
            amount: (lk.amount + sum_of(events)) as u128,
            locked_since: lk.locked_since,
            locked_until: lk.locked_until,
        }));
    } else {
        let a = events[0].0;
        let now = events[0].1;
        let funds = seq![CoinView { denom: s.token, amount: a }];
        lemma_sum_of_nonneg(events.skip(1));
        let nl = Lockup {
            amount: (lk.amount + a) as u128,
            locked_since: lk.locked_since,
            locked_until: (now + s.lockup_interval) as u64,
        };
        assert(NativeLockupContract::spec_deposit(s, sender, funds, now) matches Ok(p)
            && p.1 == nl);
        lemma_store(s.lockup, sender, nl);
        let s2 = NativeStateView {
            lockup: crate::kv::store(s.lockup, sender, nl),
            ..s
        };
        lemma_accumulate_more(s2, sender, nl, events.skip(1));
        if events.len() > 1 {
            assert(events.skip(1).last() == events.last());
        }
    }
}

/// Fungible accumulation: after a run of accepted deposits of amounts
/// `a_1 .. a_N` by a depositor with no prior position, the stored
/// position holds exactly `a_1 + .. + a_N`, is locked since the first
/// deposit, and unlocks one interval after the last deposit — the last
/// deposit alone decides the unlock time.
pub proof fn lemma_fungible_accumulation(
    s: NativeStateView,
    sender: Seq<char>,
    events: Seq<(u128, u64)>,
)
    requires
        uniq_keys(s.lockup),
        !has_key(s.lockup, sender),
        events.len() > 0,
        forall|k: int| 0 <= k < events.len() ==> (#[trigger] events[k]).0 > 0,
        forall|k: int| 0 <= k < events.len() ==> (#[trigger] events[k]).1 + s.lockup_interval
            <= u64::MAX,
        sum_of(events) <= u128::MAX,
    ensures
        deposit_events(s, sender, events) matches Ok(s2) && lookup(s2.lockup, sender) == Some(
            Lockup {
                amount: sum_of(events) as u128,
                locked_since: events[0].1,
                locked_until: (events.last().1 + s.lockup_interval) as u64,
            },
        ),
{
    let a = events[0].0;
    let now = events[0].1;
    let funds = seq![CoinView { denom: s.token, amount: a }];
    lemma_sum_of_nonneg(events.skip(1));
    let nl = Lockup {
        amount: a,
        locked_since: now,
        locked_until: (now + s.lockup_interval) as u64,
    };
    assert(NativeLockupContract::spec_deposit(s, sender, funds, now) matches Ok(p) && p.1 == nl);
    lemma_store(s.lockup, sender, nl);
    let s2 = NativeStateView { lockup: crate::kv::store(s.lockup, sender, nl), ..s };
    lemma_accumulate_more(s2, sender, nl, events.skip(1));
    if events.len() > 1 {
        assert(events.skip(1).last() == events.last());
    }
}

/// NFT custody: given an accepted collection, a deposit is recorded if
/// and only if the asset registry confirms the escrow as custodian —
/// on confirmation the new state holds exactly one record under the
/// (collection, token id) key, carrying the depositor as owner; on
/// anything else the deposit fails with the custody error and the
/// ledger is unchanged.
pub proof fn lemma_record_iff_custody(
    s: Cw721StateView,
    collection_address: Seq<char>,
    sender: Seq<char>,
    token_id: Seq<char>,
    custodian: Seq<char>,
    escrow: Seq<char>,
    now: u64,
)
    requires
        ledger_wf(s.lockup),
        s.collections.contains(collection_address),
        now + s.lockup_interval <= u64::MAX,
    ensures
        custodian == escrow ==> (Cw721LockupContract::spec_receive_nft(
            s,
            collection_address,
            sender,
            token_id,
            custodian,
            escrow,
            now,
        ) matches Ok(p) && lookup(p.0.lockup, (collection_address, token_id)) == Some(p.1)
            && p.1.owner == sender),
        custodian != escrow ==> Cw721LockupContract::spec_receive_nft(
            s,
            collection_address,
            sender,
            token_id,
            custodian,
            escrow,
            now,
        ) == Err::<(Cw721StateView, LockupView), ContractError>(
            ContractError::Validation(ValidationKind::CustodyNotConfirmed),
        ),
{
    if custodian == escrow {
        let rec = LockupView {
            owner: sender,
            collection_address,
            token_id,
            locked_since: now,
            locked_until: (now + s.lockup_interval) as u64,
        };
        lemma_ledger_put(s.lockup, rec);
    }
}

/// NFT custody: a successful withdrawal deletes the record — looking
/// the same key up in the new state finds nothing, so a repeated
/// withdrawal or a query of the withdrawn item reports it absent —
/// while every other key's record is untouched.
pub proof fn lemma_withdraw_removes_record(
    s: Cw721StateView,
    sender: Seq<char>,
    collection_address: Seq<char>,
    token_id: Seq<char>,
    now: u64,
)
    requires
        ledger_wf(s.lockup),
        Cw721LockupContract::spec_withdraw(s, sender, collection_address, token_id, now)
            is Ok,
    ensures
        Cw721LockupContract::spec_withdraw(s, sender, collection_address, token_id, now)
            matches Ok(p) && lookup(p.0.lockup, (collection_address, token_id))
            is None,
        Cw721LockupContract::spec_withdraw(s, sender, collection_address, token_id, now)
            matches Ok(p) && forall|k2: (Seq<char>, Seq<char>)| k2 != (collection_address, token_id)
            ==> lookup(p.0.lockup, k2) == lookup(s.lockup, k2),
{
    lemma_drop_key(s.lockup, (collection_address, token_id));
}

} // verus!
