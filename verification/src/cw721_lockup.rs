//! The NFT custody lockup engine.
//!
//! A deposit takes custody of one token of an accepted collection and
//! records it in the indexed ledger; the record exists exactly while the
//! escrow holds the asset. Records are never mutated: a withdrawal after
//! the unlock time deletes the record and returns custody to the owner.

use vstd::prelude::*;

use crate::error::{ArithmeticKind, AuthKind, ContractError, StateKind, ValidationKind};
use crate::instructions::{NftTransfer, NftTransferView};
use crate::kv::{drop_key, lookup};
use crate::ledger::{ledger_put, ledger_wf, LedgerSeq, LockupView, NftLedger};
use crate::strings::{clone_string_vec, contains_string, string_views};

pub use crate::ledger::Lockup;

verus! {

/// Number of custody records held.
#[derive(Clone, Copy, Debug, PartialEq, Eq, Structural)]
pub struct CountResponse {
    pub count: u128,
}

/// The variant tag and version this engine answers to capability queries.
pub struct ContractTypeResponse {
    pub contract: String,
    pub version: String,
}

/// All positions matching a range query, in storage order.
pub struct LockupsReponse {
    pub lockups: Vec<Lockup>,
}

/// The full configuration of the engine.
pub struct ConfigResponse {
    pub admin: String,
    pub lockup_interval: u64,
    pub collections: Vec<String>,
}

/// The mathematical reading of the whole engine state.
pub struct Cw721StateView {
    pub admin: Seq<char>,
    pub lockup_interval: u64,
    pub collections: Seq<Seq<char>>,
    pub lockup: LedgerSeq,
}

/// The NFT lockup engine: configuration plus the custody ledger.
pub struct Cw721LockupContract {
    pub admin: String,
    pub lockup_interval: u64,
    pub collections: Vec<String>,
    pub lockup: NftLedger,
}

impl View for Cw721LockupContract {
    type V = Cw721StateView;

    open spec fn view(&self) -> Cw721StateView {
        Cw721StateView {
            admin: self.admin@,
            lockup_interval: self.lockup_interval,
            collections: string_views(self.collections@),
            lockup: self.lockup@,
        }
    }
}

impl Cw721LockupContract {
    /// The ledger holds at most one record per (collection, token id).
    pub open spec fn wf(self) -> bool {
        ledger_wf(self@.lockup)
    }

    /// A fresh engine with empty configuration and no custody records.
    pub fn new() -> (c: Self)
        ensures
            c.wf(),
            c@.admin == Seq::<char>::empty(),
            c@.lockup_interval == 0,
            c@.collections == Seq::<Seq<char>>::empty(),
            c@.lockup == Seq::<((Seq<char>, Seq<char>), LockupView)>::empty(),
    {
        let c = Cw721LockupContract {
            admin: String::new(),
            lockup_interval: 0,
            collections: Vec::new(),
            lockup: NftLedger::new(),
        };
        proof {
            assert(c@.collections =~= Seq::<Seq<char>>::empty());
        }
        c
    }

    /// Record the creator as admin and fix the unlock interval (absent
    /// means zero) and the accepted collection set.
    pub fn instantiate(
        &mut self,
        sender: String,
        lockup_interval: Option<u64>,
        collections: Vec<String>,
    )
        requires
            old(self).wf(),
        ensures
            final(self).wf(),
            final(self)@.admin == sender@,
            final(self)@.lockup_interval == (match lockup_interval {
                Some(v) => v,
                None => 0,
            }),
            final(self)@.collections == string_views(collections@),
            final(self)@.lockup == old(self)@.lockup,
    {
        self.admin = sender;
        self.lockup_interval = match lockup_interval {
            Some(v) => v,
            None => 0,
        };
        self.collections = collections;
    }

    /// How `update_admin` decides: only the current admin may hand the
    /// role over.
    pub open spec fn spec_update_admin(
        s: Cw721StateView,
        sender: Seq<char>,
        admin: Seq<char>,
    ) -> Result<Cw721StateView, ContractError> {
        if s.admin != sender {
            Err(ContractError::Authorization(AuthKind::NotAdmin))
        } else {
            Ok(Cw721StateView { admin, ..s })
        }
    }

    /// Replace the admin principal; admin only.
    pub fn update_admin(&mut self, sender: String, admin: String) -> (result: Result<
        (),
        ContractError,
    >)
        requires
            old(self).wf(),
        ensures
            final(self).wf(),
            (result matches Ok(_) ==> Self::spec_update_admin(old(self)@, sender@, admin@)
                == Ok::<_, ContractError>(final(self)@)),
            (result matches Err(e) ==> Self::spec_update_admin(old(self)@, sender@, admin@)
                == Err::<Cw721StateView, _>(e) && final(self)@ == old(self)@),
    {
        if !(self.admin == sender) {
            return Err(ContractError::Authorization(AuthKind::NotAdmin));
        }
        self.admin = admin;
        Ok(())
    }

    /// How `update_config` decides: only the admin may replace the
    /// unlock interval and the accepted collection set.
    pub open spec fn spec_update_config(
        s: Cw721StateView,
        sender: Seq<char>,
        lockup_interval: Option<u64>,
        collections: Seq<Seq<char>>,
    ) -> Result<Cw721StateView, ContractError> {
        if s.admin != sender {
            Err(ContractError::Authorization(AuthKind::NotAdmin))
        } else {
            Ok(
                Cw721StateView {
                    lockup_interval: (match lockup_interval {
                        Some(v) => v,
                        None => 0,
                    }),
                    collections,
                    ..s
                },
            )
        }
    }

    /// Replace the unlock interval and accepted collections; admin only.
    pub fn update_config(
        &mut self,
        sender: String,
        lockup_interval: Option<u64>,
        collections: Vec<String>,
    ) -> (result: Result<(), ContractError>)
        requires
            old(self).wf(),
        ensures
            final(self).wf(),
            (result matches Ok(_) ==> Self::spec_update_config(
                old(self)@,
                sender@,
                lockup_interval,
                string_views(collections@),
            ) == Ok::<_, ContractError>(final(self)@)),
            (result matches Err(e) ==> Self::spec_update_config(
                old(self)@,
                sender@,
                lockup_interval,
                string_views(collections@),
            ) == Err::<Cw721StateView, _>(e) && final(self)@ == old(self)@),
    {
        if !(self.admin == sender) {
            return Err(ContractError::Authorization(AuthKind::NotAdmin));
        }
        self.lockup_interval = match lockup_interval {
            Some(v) => v,
            None => 0,
        };
        self.collections = collections;
        Ok(())
    }

    /// How a deposit decides. The calling collection must be accepted,
    /// and the asset registry's answer `custodian` must name the escrow
    /// itself — custody is confirmed, not assumed. The new record locks
    /// `[now, now + interval]` and overwrites any record under the same
    /// (collection, token id) key.
    pub open spec fn spec_receive_nft(
        s: Cw721StateView,
        collection_address: Seq<char>,
        sender: Seq<char>,
        token_id: Seq<char>,
        custodian: Seq<char>,
        escrow: Seq<char>,
        now: u64,
    ) -> Result<(Cw721StateView, LockupView), ContractError> {
        if !s.collections.contains(collection_address) {
            Err(ContractError::Validation(ValidationKind::UnsupportedCollection))
        } else if custodian != escrow {
            Err(ContractError::Validation(ValidationKind::CustodyNotConfirmed))
        } else if now + s.lockup_interval > u64::MAX {
            Err(ContractError::Arithmetic(ArithmeticKind::Overflow))
        } else {
            let rec = LockupView {
                owner: sender,
                collection_address,
                token_id,
                locked_since: now,
                locked_until: (now + s.lockup_interval) as u64,
            };
            Ok((Cw721StateView { lockup: ledger_put(s.lockup, rec), ..s }, rec))
        }
    }

    /// Take custody of `token_id`, sent in by `collection_address` on
    /// behalf of `sender`. `custodian` is the asset registry's current
    /// owner of record for the token and `escrow` is this contract's own
    /// principal.
    pub fn receive_nft(
        &mut self,
        collection_address: String,
        sender: String,
        token_id: String,
        custodian: &String,
        escrow: &String,
        now: u64,
    ) -> (result: Result<Lockup, ContractError>)
        requires
            old(self).wf(),
        ensures
            final(self).wf(),
            (result matches Ok(l) ==> Self::spec_receive_nft(
                old(self)@,
                collection_address@,
                sender@,
                token_id@,
                custodian@,
                escrow@,
                now,
            ) == Ok::<_, ContractError>((final(self)@, l@))),
            (result matches Err(e) ==> Self::spec_receive_nft(
                old(self)@,
                collection_address@,
                sender@,
                token_id@,
                custodian@,
                escrow@,
                now,
            ) == Err::<(Cw721StateView, LockupView), _>(e) && final(self)@ == old(self)@),
    {
        if !contains_string(&self.collections, &collection_address) {
            return Err(
                ContractError::Validation(ValidationKind::UnsupportedCollection),
            );
        }
        if !(*custodian == *escrow) {
            return Err(
                ContractError::Validation(ValidationKind::CustodyNotConfirmed),
            );
        }
        let locked_until = match now.checked_add(self.lockup_interval) {
            Some(u) => u,
            None => {
                return Err(ContractError::Arithmetic(ArithmeticKind::Overflow));
            },
        };
        let rec = Lockup::new(sender, collection_address, token_id, now, locked_until);
        let out = rec.clone();
        self.lockup.put(rec);
        Ok(out)
    }

    /// How a withdrawal decides: the record must exist, the caller must
    /// be its recorded owner, and the unlock time must be strictly in
    /// the past. The record is deleted and custody returns to the owner.
    pub open spec fn spec_withdraw(
        s: Cw721StateView,
        sender: Seq<char>,
        collection_address: Seq<char>,
        token_id: Seq<char>,
        now: u64,
    ) -> Result<(Cw721StateView, NftTransferView), ContractError> {
        match lookup(s.lockup, (collection_address, token_id)) {
            None => Err(ContractError::State(StateKind::NotFound)),
            Some(l) => if l.owner != sender {
                Err(ContractError::Authorization(AuthKind::NotNftOwner))
            } else if !(now > l.locked_until) {
                Err(ContractError::State(StateKind::StillLocked))
            } else {
                Ok(
                    (
                        Cw721StateView {
                            lockup: drop_key(s.lockup, (collection_address, token_id)),
                            ..s
                        },
                        NftTransferView {
                            collection: l.collection_address,
                            token_id: l.token_id,
                            recipient: l.owner,
                        },
                    ),
                )
            },
        }
    }

    /// Release `token_id` of `collection_address` back to its owner.
    pub fn withdraw(
        &mut self,
        sender: String,
        collection_address: String,
        token_id: String,
        now: u64,
    ) -> (result: Result<NftTransfer, ContractError>)
        requires
            old(self).wf(),
        ensures
            final(self).wf(),
            (result matches Ok(t) ==> Self::spec_withdraw(
                old(self)@,
                sender@,
                collection_address@,
                token_id@,
                now,
            ) == Ok::<_, ContractError>((final(self)@, t@))),
            (result matches Err(e) ==> Self::spec_withdraw(
                old(self)@,
                sender@,
                collection_address@,
                token_id@,
                now,
            ) == Err::<(Cw721StateView, NftTransferView), _>(e) && final(self)@ == old(self)@),
    {
        let (rec_owner, rec_collection, rec_token, rec_until) = match self.lockup.first_by_token(
            &collection_address,
            &token_id,
        ) {
            Some(l) => (l.owner.clone(), l.collection_address.clone(), l.token_id.clone(), l.locked_until),
            None => {
                return Err(ContractError::State(StateKind::NotFound));
            },
        };
        if !(rec_owner == sender) {
            return Err(ContractError::Authorization(AuthKind::NotNftOwner));
        }
        if !(now > rec_until) {
            return Err(ContractError::State(StateKind::StillLocked));
        }
        self.lockup.delete(&collection_address, &token_id);
        Ok(NftTransfer { collection: rec_collection, token_id: rec_token, recipient: rec_owner })
    }

    /// Number of custody records held.
    pub fn count(&self) -> (r: CountResponse)
        ensures
            r.count == self@.lockup.len(),
    {
        let c = self.lockup.count();
        CountResponse { count: c as u128 }
    }

    /// The variant tag and version of this engine.
    pub fn contract_type(&self) -> (r: ContractTypeResponse)
        ensures
            r.contract@ == "cw721"@,
            r.version@ == "0.1.0"@,
    {
        ContractTypeResponse {
            contract: String::from_str("cw721"),
            version: String::from_str("0.1.0"),
        }
    }

    /// The record under (collection, token id), if custody is held.
    pub fn lockup_by_token(&self, collection_address: String, token_id: String) -> (result: Result<
        Lockup,
        ContractError,
    >)
        requires
            self.wf(),
        ensures
            (lookup(self@.lockup, (collection_address@, token_id@)) matches Some(l) ==> (
            result matches Ok(r) && r@ == l)),
            (lookup(self@.lockup, (collection_address@, token_id@)) is None ==> result
                == Err::<Lockup, _>(ContractError::State(StateKind::NotFound))),
    {
        match self.lockup.first_by_token(&collection_address, &token_id) {
            Some(l) => Ok(l.clone()),
            None => Err(ContractError::State(StateKind::NotFound)),
        }
    }

    /// All positions of one owner, in storage order.
    pub fn lockups_by_owner(&self, owner: String) -> (r: LockupsReponse)
        ensures
            r.lockups@.map_values(|l: Lockup| l@) == crate::ledger::owned_by(self@.lockup, owner@),
    {
        LockupsReponse { lockups: self.lockup.by_owner(&owner) }
    }

    /// All positions of one collection, in storage order.
    pub fn lockups_by_collection(&self, collection_address: String) -> (r: LockupsReponse)
        ensures
            r.lockups@.map_values(|l: Lockup| l@) == crate::ledger::in_collection(
                self@.lockup,
                collection_address@,
            ),
    {
        LockupsReponse { lockups: self.lockup.by_collection(&collection_address) }
    }

    /// The full configuration.
    pub fn config(&self) -> (r: ConfigResponse)
        ensures
            r.admin@ == self@.admin,
            r.lockup_interval == self@.lockup_interval,
            string_views(r.collections@) == self@.collections,
    {
        ConfigResponse {
            admin: self.admin.clone(),
            lockup_interval: self.lockup_interval,
            collections: clone_string_vec(&self.collections),
        }
    }
}

} // verus!
