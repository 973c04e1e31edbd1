//! The reward-accounting engine.
//!
//! Paired at setup with one lockup engine (fungible or NFT custody,
//! resolved by a capability tag), it prorates a fixed reward pool over a
//! fixed window. A claim reads the paired engine's answer for the
//! claimer's position and the live participant count, pays the whole
//! intervals elapsed since the last checkpoint, and advances the
//! checkpoint to the claim time; any rejected claim leaves the
//! checkpoint table untouched.

use vstd::prelude::*;

use crate::error::{AuthKind, ContractError, StateKind, ValidationKind};
use crate::instructions::{BankSend, BankSendView};
use crate::kv::{find_key2, has_key, key_idx, lemma_store, lookup, store, uniq_keys};
use crate::ledger::LockupView;
use crate::rewards::{compute_reward, spec_compute_reward};

verus! {

/// One claim checkpoint: when this principal/subject pair was last paid.
#[derive(Clone, Copy, Debug, PartialEq, Eq, Structural)]
pub struct Stake {
    pub last_claim: u64,
}

impl Stake {
    pub fn new(last_claim: u64) -> (r: Stake)
        ensures
            r == (Stake { last_claim }),
    {
        Stake { last_claim }
    }
}

/// A queried position normalized across lockup variants.
pub struct LockupInfo {
    pub owner: Option<String>,
    pub amount: u128,
    pub locked_since: u64,
    pub locked_until: u64,
}

/// The mathematical reading of a [`LockupInfo`].
pub struct LockupInfoView {
    pub owner: Option<Seq<char>>,
    pub amount: u128,
    pub locked_since: u64,
    pub locked_until: u64,
}

impl View for LockupInfo {
    type V = LockupInfoView;

    open spec fn view(&self) -> LockupInfoView {
        LockupInfoView {
            owner: match &self.owner {
                Some(o) => Some(o@),
                None => None,
            },
            amount: self.amount,
            locked_since: self.locked_since,
            locked_until: self.locked_until,
        }
    }
}

/// What the paired lockup engine answered for this claim: its variant
/// tag, the claimer's position (absent when it holds none), and the
/// live participant count.
#[allow(inconsistent_fields)]
pub enum LockupSource {
    /// The paired engine is the fungible variant; `count` is the total
    /// locked amount across all positions.
    Native { lockup: Option<crate::native_lockup::Lockup>, count: u128 },
    /// The paired engine is the NFT custody variant; `count` is the
    /// number of custody records.
    Cw721 { lockup: Option<crate::ledger::Lockup>, count: u128 },
    /// The paired engine reported a tag this engine does not know.
    Unrecognized,
}

/// The mathematical reading of a [`LockupSource`].
#[allow(inconsistent_fields)]
pub enum LockupSourceView {
    Native { lockup: Option<crate::native_lockup::Lockup>, count: u128 },
    Cw721 { lockup: Option<LockupView>, count: u128 },
    Unrecognized,
}

impl View for LockupSource {
    type V = LockupSourceView;

    open spec fn view(&self) -> LockupSourceView {
        match self {
            LockupSource::Native { lockup, count } => LockupSourceView::Native {
                lockup: *lockup,
                count: *count,
            },
            LockupSource::Cw721 { lockup, count } => LockupSourceView::Cw721 {
                lockup: match lockup {
                    Some(l) => Some(l@),
                    None => None,
                },
                count: *count,
            },
            LockupSource::Unrecognized => LockupSourceView::Unrecognized,
        }
    }
}

/// The full configuration of the engine.
pub struct ConfigResponse {
    pub admin: String,
    pub lockup_contract: String,
    pub distribution_interval: u64,
    pub reward_denom: String,
    pub total_rewards: u128,
    pub start_time: u64,
    pub end_time: u64,
}

/// The mathematical reading of the whole engine state.
pub struct StakeStateView {
    pub admin: Seq<char>,
    pub lockup_contract: Seq<char>,
    pub distribution_interval: u64,
    pub reward_denom: Seq<char>,
    pub total_rewards: u128,
    pub start_time: u64,
    pub end_time: u64,
    pub staking: Seq<((Seq<char>, Seq<char>), Stake)>,
}

/// The reward engine: configuration plus the checkpoint table, keyed by
/// (principal, token id).
pub struct FixedStakeContract {
    pub admin: String,
    pub lockup_contract: String,
    pub distribution_interval: u64,
    pub reward_denom: String,
    pub total_rewards: u128,
    pub start_time: u64,
    pub end_time: u64,
    pub staking: Vec<((String, String), Stake)>,
}

impl View for FixedStakeContract {
    type V = StakeStateView;

    open spec fn view(&self) -> StakeStateView {
        StakeStateView {
            admin: self.admin@,
            lockup_contract: self.lockup_contract@,
            distribution_interval: self.distribution_interval,
            reward_denom: self.reward_denom@,
            total_rewards: self.total_rewards,
            start_time: self.start_time,
            end_time: self.end_time,
            staking: self.staking@.map_values(
                |p: ((String, String), Stake)| ((p.0.0@, p.0.1@), p.1),
            ),
        }
    }
}

impl FixedStakeContract {
    /// Each principal/subject pair holds at most one checkpoint.
    pub open spec fn wf(self) -> bool {
        uniq_keys(self@.staking)
    }

    /// A fresh engine with empty configuration and no checkpoints.
    pub fn new() -> (c: Self)
        ensures
            c.wf(),
            c@.admin == Seq::<char>::empty(),
            c@.lockup_contract == Seq::<char>::empty(),
            c@.reward_denom == Seq::<char>::empty(),
            c@.distribution_interval == 0,
            c@.total_rewards == 0,
            c@.start_time == 0,
            c@.end_time == 0,
            c@.staking == Seq::<((Seq<char>, Seq<char>), Stake)>::empty(),
    {
        let c = FixedStakeContract {
            admin: String::new(),
            lockup_contract: String::new(),
            distribution_interval: 0,
            reward_denom: String::new(),
            total_rewards: 0,
            start_time: 0,
            end_time: 0,
            staking: Vec::new(),
        };
        proof {
            assert(c@.staking =~= Seq::<((Seq<char>, Seq<char>), Stake)>::empty());
        }
        c
    }

    /// How instantiation decides: the window must not be empty or
    /// reversed, and the paired contract's capability tag must name a
    /// variant this engine understands.
    pub open spec fn spec_instantiate(
        s: StakeStateView,
        sender: Seq<char>,
        lockup_contract: Seq<char>,
        lockup_contract_type: Seq<char>,
        distribution_interval: u64,
        reward_denom: Seq<char>,
        total_rewards: u128,
        start_time: u64,
        end_time: u64,
    ) -> Result<StakeStateView, ContractError> {
        if !(end_time > start_time) {
            Err(ContractError::Validation(ValidationKind::InvalidWindow))
        } else if lockup_contract_type != "native"@ && lockup_contract_type != "cw721"@ {
            Err(ContractError::Validation(ValidationKind::InvalidLockupType))
        } else {
            Ok(
                StakeStateView {
                    admin: sender,
                    lockup_contract,
                    distribution_interval,
                    reward_denom,
                    total_rewards,
                    start_time,
                    end_time,
                    staking: s.staking,
                },
            )
        }
    }

    /// Configure the engine at creation. `lockup_contract_type` is the
    /// paired contract's own answer to the capability query.
    pub fn instantiate(
        &mut self,
        sender: String,
        lockup_contract: String,
        lockup_contract_type: &String,
        distribution_interval: u64,
        reward_denom: String,
        total_rewards: u128,
        start_time: u64,
        end_time: u64,
    ) -> (result: Result<(), ContractError>)
        requires
            old(self).wf(),
        ensures
            final(self).wf(),
            (result matches Ok(_) ==> Self::spec_instantiate(
                old(self)@,
                sender@,
                lockup_contract@,
                lockup_contract_type@,
                distribution_interval,
                reward_denom@,
                total_rewards,
                start_time,
                end_time,
            ) == Ok::<_, ContractError>(final(self)@)),
            (result matches Err(e) ==> Self::spec_instantiate(
                old(self)@,
                sender@,
                lockup_contract@,
                lockup_contract_type@,
                distribution_interval,
                reward_denom@,
                total_rewards,
                start_time,
                end_time,
            ) == Err::<StakeStateView, _>(e) && final(self)@ == old(self)@),
    {
        if !(end_time > start_time) {
            return Err(ContractError::Validation(ValidationKind::InvalidWindow));
        }
        let native_tag = String::from_str("native");
        let cw721_tag = String::from_str("cw721");
        if !(*lockup_contract_type == native_tag) && !(*lockup_contract_type == cw721_tag) {
            return Err(ContractError::Validation(ValidationKind::InvalidLockupType));
        }
        self.admin = sender;
        self.lockup_contract = lockup_contract;
        self.distribution_interval = distribution_interval;
        self.reward_denom = reward_denom;
        self.total_rewards = total_rewards;
        self.start_time = start_time;
        self.end_time = end_time;
        Ok(())
    }

    /// Replace the admin principal; admin only.
    pub open spec fn spec_update_admin(
        s: StakeStateView,
        sender: Seq<char>,
        admin: Seq<char>,
    ) -> Result<StakeStateView, ContractError> {
        if s.admin != sender {
            Err(ContractError::Authorization(AuthKind::NotAdmin))
        } else {
            Ok(StakeStateView { admin, ..s })
        }
    }

    /// Replace the admin principal; admin only.
    pub fn update_admin(&mut self, sender: String, admin: String) -> (result: Result<
        (),
        ContractError,
    >)
        requires
            old(self).wf(),
        ensures
            final(self).wf(),
            (result matches Ok(_) ==> Self::spec_update_admin(old(self)@, sender@, admin@)
                == Ok::<_, ContractError>(final(self)@)),
            (result matches Err(e) ==> Self::spec_update_admin(old(self)@, sender@, admin@)
                == Err::<StakeStateView, _>(e) && final(self)@ == old(self)@),
    {
        if !(self.admin == sender) {
            return Err(ContractError::Authorization(AuthKind::NotAdmin));
        }
        self.admin = admin;
        Ok(())
    }

    /// Resolve the checkpoint to accrue from: the stored one if present,
    /// else the later of the position's start and the window's start —
    /// a position opened before the window only accrues from the window,
    /// a late entrant accrues from its own entry.
    pub open spec fn spec_last_claim(
        s: StakeStateView,
        of: (Seq<char>, Seq<char>),
        locked_since: u64,
    ) -> u64 {
        match lookup(s.staking, of) {
            Some(st) => st.last_claim,
            None => if locked_since > s.start_time {
                locked_since
            } else {
                s.start_time
            },
        }
    }

    /// The tail of every accepted claim: resolve the checkpoint, demand
    /// a full elapsed interval, compute the exact floored payout, and
    /// advance the checkpoint (under the variant's write key) to `now`
    /// itself — the fractional remainder is forfeited by design.
    pub open spec fn spec_finish_claim(
        s: StakeStateView,
        sender: Seq<char>,
        of: (Seq<char>, Seq<char>),
        write_token: Seq<char>,
        info: LockupInfoView,
        count: u128,
        now: u64,
    ) -> Result<(StakeStateView, BankSendView), ContractError> {
        let last = Self::spec_last_claim(s, of, info.locked_since);
        if last + s.distribution_interval > now {
            Err(ContractError::State(StateKind::IntervalNotReached))
        } else {
            match spec_compute_reward(
                s.total_rewards,
                s.start_time,
                s.end_time,
                s.distribution_interval,
                count,
                info.amount,
                last,
                now,
            ) {
                Err(e) => Err(e),
                Ok(reward) => Ok(
                    (
                        StakeStateView {
                            staking: store(
                                s.staking,
                                (of.0, write_token),
                                Stake { last_claim: now },
                            ),
                            ..s
                        },
                        BankSendView { to_address: sender, denom: s.reward_denom, amount: reward },
                    ),
                ),
            }
        }
    }

    /// How a claim decides, end to end: the window must be open; the
    /// paired variant determines who may claim (the fungible variant's
    /// positions are claimed by their own principal, an NFT position by
    /// its recorded owner), the eligible amount (an NFT counts as one
    /// unit), and the checkpoint write key (the fungible variant keys
    /// by principal alone).
    pub open spec fn spec_claim(
        s: StakeStateView,
        sender: Seq<char>,
        of: (Seq<char>, Seq<char>),
        now: u64,
        source: LockupSourceView,
    ) -> Result<(StakeStateView, BankSendView), ContractError> {
        if !(now > s.start_time) {
            Err(ContractError::State(StateKind::NotStarted))
        } else if !(now < s.end_time) {
            Err(ContractError::State(StateKind::Ended))
        } else {
            match source {
                LockupSourceView::Unrecognized => Err(
                    ContractError::Validation(ValidationKind::InvalidLockupType),
                ),
                LockupSourceView::Native { lockup, count } => {
                    if of.0 != sender {
                        Err(ContractError::Authorization(AuthKind::NotClaimer))
                    } else {
                        match lockup {
                            None => Err(ContractError::State(StateKind::NotFound)),
                            Some(lk) => Self::spec_finish_claim(
                                s,
                                sender,
                                of,
                                Seq::<char>::empty(),
                                LockupInfoView {
                                    owner: None,
                                    amount: lk.amount,
                                    locked_since: lk.locked_since,
                                    locked_until: lk.locked_until,
                                },
                                count,
                                now,
                            ),
                        }
                    }
                },
                LockupSourceView::Cw721 { lockup, count } => {
                    match lockup {
                        None => Err(ContractError::State(StateKind::NotFound)),
                        Some(l) => if l.owner != sender {
                            Err(ContractError::Authorization(AuthKind::NotClaimer))
                        } else {
                            Self::spec_finish_claim(
                                s,
                                sender,
                                of,
                                of.1,
                                LockupInfoView {
                                    owner: Some(l.owner),
                                    amount: 1u128,
                                    locked_since: l.locked_since,
                                    locked_until: l.locked_until,
                                },
                                count,
                                now,
                            )
                        },
                    }
                },
            }
        }
    }

    /// Pay the claimable increment for the position `of` and advance its
    /// checkpoint. `source` is what the paired lockup engine answered
    /// for this claim. Any rejection leaves the checkpoint table — and
    /// all other state — exactly as it was.
    pub fn claim_rewards(
        &mut self,
        sender: String,
        of: (String, String),
        now: u64,
        source: &LockupSource,
    ) -> (result: Result<BankSend, ContractError>)
        requires
            old(self).wf(),
        ensures
            final(self).wf(),
            (result matches Ok(b) ==> Self::spec_claim(
                old(self)@,
                sender@,
                (of.0@, of.1@),
                now,
                source@,
            ) == Ok::<_, ContractError>((final(self)@, b@))),
            (result matches Err(e) ==> Self::spec_claim(
                old(self)@,
                sender@,
                (of.0@, of.1@),
                now,
                source@,
            ) == Err::<(StakeStateView, BankSendView), _>(e) && final(self)@ == old(self)@),
    {
        if !(now > self.start_time) {
            return Err(ContractError::State(StateKind::NotStarted));
        }
        if !(now < self.end_time) {
            return Err(ContractError::State(StateKind::Ended));
        }
        match source {
            LockupSource::Unrecognized => Err(
                ContractError::Validation(ValidationKind::InvalidLockupType),
            ),
            LockupSource::Native { lockup, count } => {
                if !(of.0 == sender) {
                    return Err(ContractError::Authorization(AuthKind::NotClaimer));
                }
                match lockup {
                    None => Err(ContractError::State(StateKind::NotFound)),
                    Some(lk) => {
                        let info = LockupInfo {
                            owner: None,
                            amount: lk.amount,
                            locked_since: lk.locked_since,
                            locked_until: lk.locked_until,
                        };
                        self.finish_claim(sender, of, String::new(), info, *count, now)
                    },
                }
            },
            LockupSource::Cw721 { lockup, count } => {
                match lockup {
                    None => Err(ContractError::State(StateKind::NotFound)),
                    Some(l) => {
                        if !(l.owner == sender) {
                            return Err(ContractError::Authorization(AuthKind::NotClaimer));
                        }
                        let write_token = of.1.clone();
                        let info = LockupInfo {
                            owner: Some(l.owner.clone()),
                            amount: 1u128,
                            locked_since: l.locked_since,
                            locked_until: l.locked_until,
                        };
                        self.finish_claim(sender, of, write_token, info, *count, now)
                    },
                }
            },
        }
    }

    /// The accepted tail of a claim; see [`Self::spec_finish_claim`].
    fn finish_claim(
        &mut self,
        sender: String,
        of: (String, String),
        write_token: String,
        info: LockupInfo,
        count: u128,
        now: u64,
    ) -> (result: Result<BankSend, ContractError>)
        requires
            old(self).wf(),
            old(self)@.start_time < now < old(self)@.end_time,
        ensures
            final(self).wf(),
            (result matches Ok(b) ==> Self::spec_finish_claim(
                old(self)@,
                sender@,
                (of.0@, of.1@),
                write_token@,
                info@,
                count,
                now,
            ) == Ok::<_, ContractError>((final(self)@, b@))),
            (result matches Err(e) ==> Self::spec_finish_claim(
                old(self)@,
                sender@,
                (of.0@, of.1@),
                write_token@,
                info@,
                count,
                now,
            ) == Err::<(StakeStateView, BankSendView), _>(e) && final(self)@ == old(self)@),
    {
        let last = match find_key2(&self.staking, &of) {
            Some(i) => {
                proof {
                    let s0 = self@.staking;
                    let k = (of.0@, of.1@);
                    assert(s0[i as int].0 == k);
                    assert(has_key(s0, k));
                    assert(key_idx(s0, k) == i) by {
                        let j = key_idx(s0, k);
                        assert(0 <= j < s0.len() && s0[j].0 == k);
                        if j != i {
                            assert(s0[i as int].0 == s0[j].0);
                        }
                    }
                }
                self.staking[i].1.last_claim
            },
            None => {
                proof {
                    assert(!has_key(self@.staking, (of.0@, of.1@)));
                }
                if info.locked_since > self.start_time {
                    info.locked_since
                } else {
                    self.start_time
                }
            },
        };
        if (last as u128) + (self.distribution_interval as u128) > (now as u128) {
            return Err(ContractError::State(StateKind::IntervalNotReached));
        }
        let reward = match compute_reward(
            self.total_rewards,
            self.start_time,
            self.end_time,
            self.distribution_interval,
            count,
            info.amount,
            last,
            now,
        ) {
            Ok(r) => r,
            Err(e) => {
                return Err(e);
            },
        };
        let ghost s0 = self@.staking;
        let ghost k = (of.0@, write_token@);
        let key = (of.0, write_token);
        let checkpoint = Stake::new(now);
        match find_key2(&self.staking, &key) {
            Some(i) => {
                proof {
                    assert(s0[i as int].0 == k);
                    assert(has_key(s0, k));
                    assert(key_idx(s0, k) == i) by {
                        let j = key_idx(s0, k);
                        assert(0 <= j < s0.len() && s0[j].0 == k);
                        if j != i {
                            assert(s0[i as int].0 == s0[j].0);
                        }
                    }
                    lemma_store(s0, k, checkpoint);
                }
                self.staking.set(i, (key, checkpoint));
                proof {
                    assert(self@.staking =~= store(s0, k, checkpoint));
                }
            },
            None => {
                proof {
                    assert(!has_key(s0, k));
                    lemma_store(s0, k, checkpoint);
                }
                self.staking.push((key, checkpoint));
                proof {
                    assert(self@.staking =~= store(s0, k, checkpoint));
                }
            },
        }
        Ok(BankSend { to_address: sender, denom: self.reward_denom.clone(), amount: reward })
    }

    /// How the post-window sweep decides: admin only, and only strictly
    /// after the window has ended; the whole residual balance is sent.
    pub open spec fn spec_withdraw_excess_balance(
        s: StakeStateView,
        sender: Seq<char>,
        now: u64,
        contract_balance: u128,
    ) -> Result<BankSendView, ContractError> {
        if s.admin != sender {
            Err(ContractError::Authorization(AuthKind::NotAdmin))
        } else if !(now > s.end_time) {
            Err(ContractError::State(StateKind::SweepTooEarly))
        } else {
            Ok(
                BankSendView {
                    to_address: sender,
                    denom: s.reward_denom,
                    amount: contract_balance,
                },
            )
        }
    }

    /// Sweep the contract's residual reward-denomination balance after
    /// the window; `contract_balance` is that balance as the host
    /// reports it.
    pub fn withdraw_excess_balance(&self, sender: String, now: u64, contract_balance: u128) -> (
        result: Result<BankSend, ContractError>)
        ensures
            result matches Ok(b) ==> Self::spec_withdraw_excess_balance(
                self@,
                sender@,
                now,
                contract_balance,
            ) == Ok::<_, ContractError>(b@),
            result matches Err(e) ==> Self::spec_withdraw_excess_balance(
                self@,
                sender@,
                now,
                contract_balance,
            ) == Err::<BankSendView, _>(e),
    {
        if !(self.admin == sender) {
            return Err(ContractError::Authorization(AuthKind::NotAdmin));
        }
        if !(now > self.end_time) {
            return Err(ContractError::State(StateKind::SweepTooEarly));
        }
        Ok(
            BankSend {
                to_address: sender,
                denom: self.reward_denom.clone(),
                amount: contract_balance,
            },
        )
    }

    /// The full configuration.
    pub fn config(&self) -> (r: ConfigResponse)
        ensures
            r.admin@ == self@.admin,
            r.lockup_contract@ == self@.lockup_contract,
            r.distribution_interval == self@.distribution_interval,
            r.reward_denom@ == self@.reward_denom,
            r.total_rewards == self@.total_rewards,
            r.start_time == self@.start_time,
            r.end_time == self@.end_time,
    {
        ConfigResponse {
            admin: self.admin.clone(),
            lockup_contract: self.lockup_contract.clone(),
            distribution_interval: self.distribution_interval,
            reward_denom: self.reward_denom.clone(),
            total_rewards: self.total_rewards,
            start_time: self.start_time,
            end_time: self.end_time,
        }
    }

    /// The stored checkpoint for `of`, if one exists.
    pub fn query_last_claim(&self, of: (String, String)) -> (result: Result<u64, ContractError>)
        requires
            self.wf(),
        ensures
            (lookup(self@.staking, (of.0@, of.1@)) matches Some(st) ==> result
                == Ok::<_, ContractError>(st.last_claim)),
            (lookup(self@.staking, (of.0@, of.1@)) is None ==> result == Err::<u64, _>(
                ContractError::State(StateKind::NotFound),
            )),
    {
        match find_key2(&self.staking, &of) {
            Some(i) => {
                proof {
                    let s0 = self@.staking;
                    let k = (of.0@, of.1@);
                    assert(s0[i as int].0 == k);
                    assert(has_key(s0, k));
                    assert(key_idx(s0, k) == i) by {
                        let j = key_idx(s0, k);
                        assert(0 <= j < s0.len() && s0[j].0 == k);
                        if j != i {
                            assert(s0[i as int].0 == s0[j].0);
                        }
                    }
                }
                Ok(self.staking[i].1.last_claim)
            },
            None => Err(ContractError::State(StateKind::NotFound)),
        }
    }
}

} // verus!
