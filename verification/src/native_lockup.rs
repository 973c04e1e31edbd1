//! The fungible-token lockup engine.
//!
//! One position per depositor: a deposit creates the position or merges
//! into it (amounts accumulate, the unlock time is recomputed from the
//! latest deposit), and a withdrawal after the unlock time decrements the
//! position in place or deletes it when the full amount leaves.

use vstd::prelude::*;

use crate::coins::{coins_view, spec_take_single_denom, take_single_denom, Coin};
use crate::error::{ArithmeticKind, AuthKind, ContractError, StateKind};
use crate::instructions::{BankSend, BankSendView};
use crate::kv::{
    drop_key, find_key, has_key, key_idx, lemma_drop_key, lemma_store, lookup, store, uniq_keys,
};

verus! {

/// One locked fungible position.
#[derive(Clone, Copy, Debug, PartialEq, Eq, Structural)]
pub struct Lockup {
    pub amount: u128,
    pub locked_since: u64,
    pub locked_until: u64,
}

impl Lockup {
    pub fn new(amount: u128, locked_since: u64, locked_until: u64) -> (r: Lockup)
        ensures
            r == (Lockup { amount, locked_since, locked_until }),
    {
        Lockup { amount, locked_since, locked_until }
    }
}

/// Sum of locked amounts across all positions.
#[derive(Clone, Copy, Debug, PartialEq, Eq, Structural)]
pub struct CountResponse {
    pub count: u128,
}

/// The variant tag this engine answers to capability queries.
pub struct ContractTypeResponse {
    pub contract_type: String,
}

/// The full configuration of the engine.
pub struct ConfigResponse {
    pub admin: String,
    pub lockup_interval: u64,
    pub token: String,
}

/// The mathematical reading of the whole engine state.
pub struct NativeStateView {
    pub admin: Seq<char>,
    pub token: Seq<char>,
    pub lockup_interval: u64,
    pub lockup: Seq<(Seq<char>, Lockup)>,
}

/// The fungible lockup engine: configuration plus the position table,
/// keyed by depositor.
pub struct NativeLockupContract {
    pub admin: String,
    pub token: String,
    pub lockup_interval: u64,
    pub lockup: Vec<(String, Lockup)>,
}

impl View for NativeLockupContract {
    type V = NativeStateView;

    open spec fn view(&self) -> NativeStateView {
        NativeStateView {
            admin: self.admin@,
            token: self.token@,
            lockup_interval: self.lockup_interval,
            lockup: self.lockup@.map_values(|p: (String, Lockup)| (p.0@, p.1)),
        }
    }
}

impl NativeLockupContract {
    /// Each depositor holds at most one position.
    pub open spec fn wf(self) -> bool {
        uniq_keys(self@.lockup)
    }

    /// A fresh engine with empty configuration and no positions.
    pub fn new() -> (c: Self)
        ensures
            c.wf(),
            c@.admin == Seq::<char>::empty(),
            c@.token == Seq::<char>::empty(),
            c@.lockup_interval == 0,
            c@.lockup == Seq::<(Seq<char>, Lockup)>::empty(),
    {
        let c = NativeLockupContract {
            admin: String::new(),
            token: String::new(),
            lockup_interval: 0,
            lockup: Vec::new(),
        };
        proof {
            assert(c@.lockup =~= Seq::<(Seq<char>, Lockup)>::empty());
        }
        c
    }

    /// Record the creator as admin and fix the accepted token and the
    /// unlock interval.
    pub fn instantiate(&mut self, sender: String, token: String, lockup_interval: u64)
        requires
            old(self).wf(),
        ensures
            final(self).wf(),
            final(self)@.admin == sender@,
            final(self)@.token == token@,
            final(self)@.lockup_interval == lockup_interval,
            final(self)@.lockup == old(self)@.lockup,
    {
        self.admin = sender;
        self.token = token;
        self.lockup_interval = lockup_interval;
    }

    /// How `update_admin` decides: only the current admin may hand the
    /// role over.
    pub open spec fn spec_update_admin(
        s: NativeStateView,
        sender: Seq<char>,
        admin: Seq<char>,
    ) -> Result<NativeStateView, ContractError> {
        if s.admin != sender {
            Err(ContractError::Authorization(AuthKind::NotAdmin))
        } else {
            Ok(NativeStateView { admin, ..s })
        }
    }

    /// Replace the admin principal; admin only.
    pub fn update_admin(&mut self, sender: String, admin: String) -> (result: Result<
        (),
        ContractError,
    >)
        requires
            old(self).wf(),
        ensures
            final(self).wf(),
            (result matches Ok(_) ==> Self::spec_update_admin(old(self)@, sender@, admin@)
                == Ok::<_, ContractError>(final(self)@)),
            (result matches Err(e) ==> Self::spec_update_admin(old(self)@, sender@, admin@)
                == Err::<NativeStateView, _>(e) && final(self)@ == old(self)@),
    {
        if !(self.admin == sender) {
            return Err(ContractError::Authorization(AuthKind::NotAdmin));
        }
        self.admin = admin;
        Ok(())
    }

    /// How `update_config` decides: only the admin may replace the
    /// accepted token and the unlock interval.
    pub open spec fn spec_update_config(
        s: NativeStateView,
        sender: Seq<char>,
        token: Seq<char>,
        lockup_interval: u64,
    ) -> Result<NativeStateView, ContractError> {
        if s.admin != sender {
            Err(ContractError::Authorization(AuthKind::NotAdmin))
        } else {
            Ok(NativeStateView { token, lockup_interval, ..s })
        }
    }

    /// Replace the accepted token and unlock interval; admin only.
    pub fn update_config(&mut self, sender: String, token: String, lockup_interval: u64) -> (result:
        Result<(), ContractError>)
        requires
            old(self).wf(),
        ensures
            final(self).wf(),
            (result matches Ok(_) ==> Self::spec_update_config(
                old(self)@,
                sender@,
                token@,
                lockup_interval,
            ) == Ok::<_, ContractError>(final(self)@)),
            (result matches Err(e) ==> Self::spec_update_config(
                old(self)@,
                sender@,
                token@,
                lockup_interval,
            ) == Err::<NativeStateView, _>(e) && final(self)@ == old(self)@),
    {
        if !(self.admin == sender) {
            return Err(ContractError::Authorization(AuthKind::NotAdmin));
        }
        self.token = token;
        self.lockup_interval = lockup_interval;
        Ok(())
    }

    /// How a deposit by `sender` of `funds` at time `now` transforms the
    /// state: the payment must be a single positive amount of the
    /// configured token; a new position locks `[now, now + interval]`,
    /// an existing one accumulates the amount and restarts the unlock
    /// clock from this deposit.
    pub open spec fn spec_deposit(
        s: NativeStateView,
        sender: Seq<char>,
        funds: Seq<crate::coins::CoinView>,
        now: u64,
    ) -> Result<(NativeStateView, Lockup), ContractError> {
        match spec_take_single_denom(funds, s.token) {
            Err(e) => Err(e),
            Ok(amount) => if now + s.lockup_interval > u64::MAX {
                Err(ContractError::Arithmetic(ArithmeticKind::Overflow))
            } else {
                let until = (now + s.lockup_interval) as u64;
                match lookup(s.lockup, sender) {
                    Some(lk) => if lk.amount + amount > u128::MAX {
                        Err(ContractError::Arithmetic(ArithmeticKind::Overflow))
                    } else {
                        let nl = Lockup {
                            amount: (lk.amount + amount) as u128,
                            locked_since: lk.locked_since,
                            locked_until: until,
                        };
                        Ok((NativeStateView { lockup: store(s.lockup, sender, nl), ..s }, nl))
                    },
                    None => {
                        let nl = Lockup { amount, locked_since: now, locked_until: until };
                        Ok((NativeStateView { lockup: store(s.lockup, sender, nl), ..s }, nl))
                    },
                }
            },
        }
    }

    /// Deposit the attached funds into the caller's position.
    pub fn deposit(&mut self, sender: String, funds: &Vec<Coin>, now: u64) -> (result: Result<
        Lockup,
        ContractError,
    >)
        requires
            old(self).wf(),
        ensures
            final(self).wf(),
            (result matches Ok(l) ==> Self::spec_deposit(old(self)@, sender@, coins_view(funds@), now)
                == Ok::<_, ContractError>((final(self)@, l))),
            (result matches Err(e) ==> Self::spec_deposit(
                old(self)@,
                sender@,
                coins_view(funds@),
                now,
            ) == Err::<(NativeStateView, Lockup), _>(e) && final(self)@ == old(self)@),
    {
        let amount = match take_single_denom(funds, &self.token) {
            Ok(a) => a,
            Err(e) => {
                return Err(e);
            },
        };
        let until = match now.checked_add(self.lockup_interval) {
            Some(u) => u,
            None => {
                return Err(ContractError::Arithmetic(ArithmeticKind::Overflow));
            },
        };
        match find_key(&self.lockup, &sender) {
            Some(i) => {
                let ghost s0 = self@.lockup;
                proof {
                    assert(s0[i as int].0 == sender@);
                    assert(has_key(s0, sender@));
                    assert(key_idx(s0, sender@) == i) by {
                        let j = key_idx(s0, sender@);
                        assert(0 <= j < s0.len() && s0[j].0 == sender@);
                        if j != i {
                            assert(s0[i as int].0 == s0[j].0);
                        }
                    }
                }
                let old_lk = self.lockup[i].1;
                let namount = match old_lk.amount.checked_add(amount) {
                    Some(a) => a,
                    None => {
                        return Err(ContractError::Arithmetic(ArithmeticKind::Overflow));
                    },
                };
                let nl = Lockup::new(namount, old_lk.locked_since, until);
                let key = self.lockup[i].0.clone();
                self.lockup.set(i, (key, nl));
                proof {
                    assert(self@.lockup =~= store(s0, sender@, nl));
                    lemma_store(s0, sender@, nl);
                }
                Ok(nl)
            },
            None => {
                let ghost s0 = self@.lockup;
                proof {
                    assert(!has_key(s0, sender@));
                }
                let nl = Lockup::new(amount, now, until);
                let ghost sender_view = sender@;
                self.lockup.push((sender, nl));
                proof {
                    assert(self@.lockup =~= store(s0, sender_view, nl));
                    lemma_store(s0, sender_view, nl);
                }
                Ok(nl)
            },
        }
    }

    /// How a withdrawal decides: the position must exist, the unlock time
    /// must be strictly in the past, and the requested amount (the whole
    /// position when absent) must not exceed what is locked. Withdrawing
    /// the full amount deletes the position; a partial withdrawal
    /// decrements it and leaves the unlock time untouched.
    pub open spec fn spec_withdraw(
        s: NativeStateView,
        sender: Seq<char>,
        amount: Option<u128>,
        now: u64,
    ) -> Result<(NativeStateView, BankSendView), ContractError> {
        match lookup(s.lockup, sender) {
            None => Err(ContractError::State(StateKind::NotFound)),
            Some(lk) => if !(now > lk.locked_until) {
                Err(ContractError::State(StateKind::StillLocked))
            } else {
                let amt = match amount {
                    Some(a) => a,
                    None => lk.amount,
                };
                let send = BankSendView { to_address: sender, denom: s.token, amount: amt };
                if amt == lk.amount {
                    Ok((NativeStateView { lockup: drop_key(s.lockup, sender), ..s }, send))
                } else if amt > lk.amount {
                    Err(ContractError::Arithmetic(ArithmeticKind::Underflow))
                } else {
                    let nl = Lockup {
                        amount: (lk.amount - amt) as u128,
                        locked_since: lk.locked_since,
                        locked_until: lk.locked_until,
                    };
                    Ok((NativeStateView { lockup: store(s.lockup, sender, nl), ..s }, send))
                }
            },
        }
    }

    /// Withdraw `amount` (or the whole position) after the unlock time.
    pub fn withdraw(&mut self, sender: String, amount: Option<u128>, now: u64) -> (result: Result<
        BankSend,
        ContractError,
    >)
        requires
            old(self).wf(),
        ensures
            final(self).wf(),
            (result matches Ok(send) ==> Self::spec_withdraw(old(self)@, sender@, amount, now)
                == Ok::<_, ContractError>((final(self)@, send@))),
            (result matches Err(e) ==> Self::spec_withdraw(old(self)@, sender@, amount, now)
                == Err::<(NativeStateView, BankSendView), _>(e) && final(self)@ == old(self)@),
    {
        let i = match find_key(&self.lockup, &sender) {
            Some(i) => i,
            None => {
                return Err(ContractError::State(StateKind::NotFound));
            },
        };
        let ghost s0 = self@.lockup;
        proof {
            assert(s0[i as int].0 == sender@);
            assert(has_key(s0, sender@));
            assert(key_idx(s0, sender@) == i) by {
                let j = key_idx(s0, sender@);
                assert(0 <= j < s0.len() && s0[j].0 == sender@);
                if j != i {
                    assert(s0[i as int].0 == s0[j].0);
                }
            }
        }
        let lk = self.lockup[i].1;
        if !(now > lk.locked_until) {
            return Err(ContractError::State(StateKind::StillLocked));
        }
        let amt = match amount {
            Some(a) => a,
            None => lk.amount,
        };
        if amt == lk.amount {
            self.lockup.remove(i);
            proof {
                assert(self@.lockup =~= drop_key(s0, sender@));
                lemma_drop_key(s0, sender@);
            }
        } else if amt > lk.amount {
            return Err(ContractError::Arithmetic(ArithmeticKind::Underflow));
        } else {
            let nl = Lockup::new(lk.amount - amt, lk.locked_since, lk.locked_until);
            let key = self.lockup[i].0.clone();
            self.lockup.set(i, (key, nl));
            proof {
                assert(self@.lockup =~= store(s0, sender@, nl));
                lemma_store(s0, sender@, nl);
            }
        }
        Ok(BankSend { to_address: sender, denom: self.token.clone(), amount: amt })
    }

    /// Sum of the amounts of a prefix-closed reading of the position table.
    pub open spec fn sum_amounts(s: Seq<(Seq<char>, Lockup)>) -> int
        decreases s.len(),
    {
        if s.len() == 0 {
            0
        } else {
            Self::sum_amounts(s.drop_last()) + s.last().1.amount
        }
    }

    proof fn lemma_sum_take_step(s: Seq<(Seq<char>, Lockup)>, i: int)
        requires
            0 <= i < s.len(),
        ensures
            Self::sum_amounts(s.take(i + 1)) == Self::sum_amounts(s.take(i)) + s[i].1.amount,
    {
        assert(s.take(i + 1).drop_last() =~= s.take(i));
        assert(s.take(i + 1).last() == s[i]);
    }

    proof fn lemma_sum_take_le(s: Seq<(Seq<char>, Lockup)>, i: int)
        requires
            0 <= i <= s.len(),
        ensures
            Self::sum_amounts(s.take(i)) <= Self::sum_amounts(s),
        decreases s.len() - i,
    {
        if i == s.len() {
            assert(s.take(i) =~= s);
        } else {
            Self::lemma_sum_take_step(s, i);
            Self::lemma_sum_take_le(s, i + 1);
        }
    }

    /// Total locked amount across all positions, or an overflow failure
    /// when that total does not fit the amount type.
    pub fn count(&self) -> (result: Result<CountResponse, ContractError>)
        ensures
            Self::sum_amounts(self@.lockup) <= u128::MAX ==> result == Ok::<_, ContractError>(
                CountResponse { count: Self::sum_amounts(self@.lockup) as u128 },
            ),
            Self::sum_amounts(self@.lockup) > u128::MAX ==> result == Err::<CountResponse, _>(
                ContractError::Arithmetic(ArithmeticKind::Overflow),
            ),
    {
        let n = self.lockup.len();
        let mut acc: u128 = 0;
        let mut i: usize = 0;
        proof {
            assert(self@.lockup.take(0) =~= Seq::<(Seq<char>, Lockup)>::empty());
        }
        while i < n
            invariant
                i <= n,
                n == self@.lockup.len(),
                acc == Self::sum_amounts(self@.lockup.take(i as int)),
            decreases n - i,
        {
            proof {
                Self::lemma_sum_take_step(self@.lockup, i as int);
            }
            let a = self.lockup[i].1.amount;
            acc = match acc.checked_add(a) {
                Some(v) => v,
                None => {
                    proof {
                        Self::lemma_sum_take_le(self@.lockup, i + 1);
                    }
                    return Err(ContractError::Arithmetic(ArithmeticKind::Overflow));
                },
            };
            i = i + 1;
        }
        proof {
            assert(self@.lockup.take(n as int) =~= self@.lockup);
        }
        Ok(CountResponse { count: acc })
    }

    /// The variant tag of this engine.
    pub fn contract_type(&self) -> (r: ContractTypeResponse)
        ensures
            r.contract_type@ == "native"@,
    {
        ContractTypeResponse { contract_type: String::from_str("native") }
    }

    /// The position of `address`, if one exists.
    pub fn lockup(&self, address: String) -> (result: Result<Lockup, ContractError>)
        requires
            self.wf(),
        ensures
            (lookup(self@.lockup, address@) matches Some(l) ==> result == Ok::<_, ContractError>(
                l,
            )),
            (lookup(self@.lockup, address@) is None ==> result == Err::<Lockup, _>(
                ContractError::State(StateKind::NotFound),
            )),
    {
        match find_key(&self.lockup, &address) {
            Some(i) => {
                proof {
                    let s0 = self@.lockup;
                    assert(s0[i as int].0 == address@);
                    assert(has_key(s0, address@));
                    assert(key_idx(s0, address@) == i) by {
                        let j = key_idx(s0, address@);
                        assert(0 <= j < s0.len() && s0[j].0 == address@);
                        if j != i {
                            assert(s0[i as int].0 == s0[j].0);
                        }
                    }
                }
                Ok(self.lockup[i].1)
            },
            None => Err(ContractError::State(StateKind::NotFound)),
        }
    }

    /// The full configuration.
    pub fn config(&self) -> (r: ConfigResponse)
        ensures
            r.admin@ == self@.admin,
            r.lockup_interval == self@.lockup_interval,
            r.token@ == self@.token,
    {
        ConfigResponse {
            admin: self.admin.clone(),
            lockup_interval: self.lockup_interval,
            token: self.token.clone(),
        }
    }
}

} // verus!
