//! The NFT lockup engine with synthetic-token minting.
//!
//! Depositing an accepted NFT mints the collection's configured number of
//! synthetic tokens to the depositor. The tokens are bearer rights to the
//! asset: whoever returns exactly that amount gets the NFT (and the
//! returned tokens are burned). Custody records carry no unlock time in
//! this variant.

use vstd::prelude::*;

use crate::coins::{coins_view, spec_take_single_denom, take_single_denom, Coin, CoinView};
use crate::error::{AuthKind, ContractError, StateKind, ValidationKind};
use crate::instructions::{BurnTokens, BurnTokensView, MintTokens, MintTokensView, NftTransfer, NftTransferView};
use crate::kv::{drop_key, lookup};
use crate::ledger::{ledger_put, ledger_wf, LedgerSeq, LockupView, NftLedger};
use crate::strings::{is_factory_denom, spec_is_factory_denom};

verus! {

/// An accepted collection as the admin submits it.
#[derive(Debug)]
pub struct CollectionInput {
    pub address: String,
    pub tokens: u128,
}

/// An accepted collection: its principal and the number of synthetic
/// tokens one locked item of it is worth.
#[derive(Debug)]
pub struct Collection {
    pub address: String,
    pub tokens: u128,
}

/// The mathematical reading of a collection entry.
pub struct CollectionView {
    pub address: Seq<char>,
    pub tokens: u128,
}

impl View for CollectionInput {
    type V = CollectionView;

    open spec fn view(&self) -> CollectionView {
        CollectionView { address: self.address@, tokens: self.tokens }
    }
}

impl View for Collection {
    type V = CollectionView;

    open spec fn view(&self) -> CollectionView {
        CollectionView { address: self.address@, tokens: self.tokens }
    }
}

impl Clone for Collection {
    fn clone(&self) -> (r: Self)
        ensures
            r@ == self@,
    {
        Collection { address: self.address.clone(), tokens: self.tokens }
    }
}

/// One custody position of this variant: no unlock time, redemption is
/// by payment alone.
#[derive(Debug)]
pub struct Lockup {
    pub depositor: String,
    pub collection_address: String,
    pub token_id: String,
    pub locked_since: u64,
}

/// The mathematical reading of a [`Lockup`] position.
pub struct FracLockupView {
    pub depositor: Seq<char>,
    pub collection_address: Seq<char>,
    pub token_id: Seq<char>,
    pub locked_since: u64,
}

impl View for Lockup {
    type V = FracLockupView;

    open spec fn view(&self) -> FracLockupView {
        FracLockupView {
            depositor: self.depositor@,
            collection_address: self.collection_address@,
            token_id: self.token_id@,
            locked_since: self.locked_since,
        }
    }
}

impl Clone for Lockup {
    fn clone(&self) -> (r: Self)
        ensures
            r@ == self@,
    {
        Lockup {
            depositor: self.depositor.clone(),
            collection_address: self.collection_address.clone(),
            token_id: self.token_id.clone(),
            locked_since: self.locked_since,
        }
    }
}

impl Lockup {
    pub fn new(
        depositor: String,
        collection_address: String,
        token_id: String,
        locked_since: u64,
    ) -> (r: Lockup)
        ensures
            r@ == (FracLockupView {
                depositor: depositor@,
                collection_address: collection_address@,
                token_id: token_id@,
                locked_since,
            }),
    {
        Lockup { depositor, collection_address, token_id, locked_since }
    }
}

/// How a stored custody record reads as a position of this variant.
pub open spec fn record_as_lockup(l: LockupView) -> FracLockupView {
    FracLockupView {
        depositor: l.owner,
        collection_address: l.collection_address,
        token_id: l.token_id,
        locked_since: l.locked_since,
    }
}

/// Number of custody records held.
#[derive(Clone, Copy, Debug, PartialEq, Eq, Structural)]
pub struct CountResponse {
    pub count: u128,
}

/// The variant tag and version this engine answers to capability queries.
pub struct ContractTypeResponse {
    pub contract: String,
    pub version: String,
}

/// All positions matching a range query, in storage order.
pub struct LockupsReponse {
    pub lockups: Vec<Lockup>,
}

/// The full configuration of the engine.
pub struct ConfigResponse {
    pub admin: String,
    pub denom: String,
    pub collections: Vec<Collection>,
}

/// The first configured collection with the given address, scanning in
/// configuration order.
pub open spec fn find_collection(cs: Seq<CollectionView>, address: Seq<char>) -> Option<
    CollectionView,
>
    decreases cs.len(),
{
    if cs.len() == 0 {
        None
    } else if cs[0].address == address {
        Some(cs[0])
    } else {
        find_collection(cs.drop_first(), address)
    }
}

/// The mathematical reading of the whole engine state.
pub struct FracStateView {
    pub admin: Seq<char>,
    pub denom: Seq<char>,
    pub collections: Seq<CollectionView>,
    pub lockup: LedgerSeq,
}

/// The fraction-minting lockup engine: configuration plus the custody
/// ledger.
pub struct FracLockupContract {
    pub admin: String,
    pub denom: String,
    pub collections: Vec<Collection>,
    pub lockup: NftLedger,
}

impl View for FracLockupContract {
    type V = FracStateView;

    open spec fn view(&self) -> FracStateView {
        FracStateView {
            admin: self.admin@,
            denom: self.denom@,
            collections: self.collections@.map_values(|c: Collection| c@),
            lockup: self.lockup@,
        }
    }
}

impl FracLockupContract {
    /// The ledger holds at most one record per (collection, token id).
    pub open spec fn wf(self) -> bool {
        ledger_wf(self@.lockup)
    }

    /// A fresh engine with empty configuration and no custody records.
    pub fn new() -> (c: Self)
        ensures
            c.wf(),
            c@.admin == Seq::<char>::empty(),
            c@.denom == Seq::<char>::empty(),
            c@.collections == Seq::<CollectionView>::empty(),
            c@.lockup == Seq::<((Seq<char>, Seq<char>), LockupView)>::empty(),
    {
        let c = FracLockupContract {
            admin: String::new(),
            denom: String::new(),
            collections: Vec::new(),
            lockup: NftLedger::new(),
        };
        proof {
            assert(c@.collections =~= Seq::<CollectionView>::empty());
        }
        c
    }

    /// How instantiation decides: the synthetic denomination must be a
    /// token-factory denomination; the creator becomes admin and the
    /// submitted collections become the accepted set.
    pub open spec fn spec_instantiate(
        s: FracStateView,
        sender: Seq<char>,
        denom: Seq<char>,
        collections: Seq<CollectionView>,
    ) -> Result<FracStateView, ContractError> {
        if !spec_is_factory_denom(denom) {
            Err(ContractError::Validation(ValidationKind::NotFactoryDenom))
        } else {
            Ok(FracStateView { admin: sender, denom, collections, ..s })
        }
    }

    /// Configure the engine at creation.
    pub fn instantiate(
        &mut self,
        sender: String,
        denom: String,
        collections: Vec<CollectionInput>,
    ) -> (result: Result<(), ContractError>)
        requires
            old(self).wf(),
        ensures
            final(self).wf(),
            (result matches Ok(_) ==> Self::spec_instantiate(
                old(self)@,
                sender@,
                denom@,
                collections@.map_values(|c: CollectionInput| c@),
            ) == Ok::<_, ContractError>(final(self)@)),
            (result matches Err(e) ==> Self::spec_instantiate(
                old(self)@,
                sender@,
                denom@,
                collections@.map_values(|c: CollectionInput| c@),
            ) == Err::<FracStateView, _>(e) && final(self)@ == old(self)@),
    {
        if !is_factory_denom(&denom) {
            return Err(ContractError::Validation(ValidationKind::NotFactoryDenom));
        }
        let n = collections.len();
        let mut accepted: Vec<Collection> = Vec::new();
        let mut i: usize = 0;
        while i < n
            invariant
                i <= n,
                n == collections@.len(),
                accepted@.len() == i,
                forall|j: int| 0 <= j < i ==> (#[trigger] accepted@[j])@ == collections@[j]@,
            decreases n - i,
        {
            let inp = &collections[i];
            accepted.push(Collection { address: inp.address.clone(), tokens: inp.tokens });
            i = i + 1;
        }
        self.admin = sender;
        self.denom = denom;
        self.collections = accepted;
        proof {
            assert(self@.collections =~= collections@.map_values(|c: CollectionInput| c@));
        }
        Ok(())
    }

    /// How `update_admin` decides: only the current admin may hand the
    /// role over.
    pub open spec fn spec_update_admin(
        s: FracStateView,
        sender: Seq<char>,
        admin: Seq<char>,
    ) -> Result<FracStateView, ContractError> {
        if s.admin != sender {
            Err(ContractError::Authorization(AuthKind::NotAdmin))
        } else {
            Ok(FracStateView { admin, ..s })
        }
    }

    /// Replace the admin principal; admin only.
    pub fn update_admin(&mut self, sender: String, admin: String) -> (result: Result<
        (),
        ContractError,
    >)
        requires
            old(self).wf(),
        ensures
            final(self).wf(),
            (result matches Ok(_) ==> Self::spec_update_admin(old(self)@, sender@, admin@)
                == Ok::<_, ContractError>(final(self)@)),
            (result matches Err(e) ==> Self::spec_update_admin(old(self)@, sender@, admin@)
                == Err::<FracStateView, _>(e) && final(self)@ == old(self)@),
    {
        if !(self.admin == sender) {
            return Err(ContractError::Authorization(AuthKind::NotAdmin));
        }
        self.admin = admin;
        Ok(())
    }

    /// How `append_collection` decides: admin only, and no second entry
    /// for an address already accepted.
    pub open spec fn spec_append_collection(
        s: FracStateView,
        sender: Seq<char>,
        collection: CollectionView,
    ) -> Result<FracStateView, ContractError> {
        if s.admin != sender {
            Err(ContractError::Authorization(AuthKind::NotAdmin))
        } else if find_collection(s.collections, collection.address) is Some {
            Err(ContractError::Validation(ValidationKind::DuplicateCollection))
        } else {
            Ok(FracStateView { collections: s.collections.push(collection), ..s })
        }
    }

    /// Accept one more collection; admin only.
    pub fn append_collection(&mut self, sender: String, collection: CollectionInput) -> (result:
        Result<(), ContractError>)
        requires
            old(self).wf(),
        ensures
            final(self).wf(),
            (result matches Ok(_) ==> Self::spec_append_collection(old(self)@, sender@, collection@)
                == Ok::<_, ContractError>(final(self)@)),
            (result matches Err(e) ==> Self::spec_append_collection(
                old(self)@,
                sender@,
                collection@,
            ) == Err::<FracStateView, _>(e) && final(self)@ == old(self)@),
    {
        if !(self.admin == sender) {
            return Err(ContractError::Authorization(AuthKind::NotAdmin));
        }
        match Self::find_collection_exec(&self.collections, &collection.address) {
            Some(_) => Err(ContractError::Validation(ValidationKind::DuplicateCollection)),
            None => {
                let ghost s0 = self@.collections;
                self.collections.push(
                    Collection { address: collection.address, tokens: collection.tokens },
                );
                proof {
                    assert(self@.collections =~= s0.push(
                        CollectionView { address: collection.address@, tokens: collection.tokens },
                    ));
                }
                Ok(())
            },
        }
    }

    /// First configured collection with this address, by index.
    fn find_collection_exec(collections: &Vec<Collection>, address: &String) -> (r: Option<usize>)
        ensures
            match r {
                Some(i) => i < collections@.len() && collections@[i as int].address@ == address@
                    && find_collection(
                    collections@.map_values(|c: Collection| c@),
                    address@,
                ) == Some(collections@[i as int]@),
                None => find_collection(collections@.map_values(|c: Collection| c@), address@)
                    is None,
            },
    {
        let ghost cv = collections@.map_values(|c: Collection| c@);
        let n = collections.len();
        let mut i: usize = 0;
        proof {
            assert(cv.skip(0) =~= cv);
        }
        while i < n
            invariant
                i <= n,
                n == collections@.len(),
                cv == collections@.map_values(|c: Collection| c@),
                find_collection(cv, address@) == find_collection(cv.skip(i as int), address@),
            decreases n - i,
        {
            proof {
                assert(cv.skip(i as int)[0] == cv[i as int]);
                assert(cv.skip(i as int).drop_first() =~= cv.skip(i + 1));
            }
            if collections[i].address == *address {
                proof {
                    assert(cv[i as int] == collections@[i as int]@);
                    assert(cv.skip(i as int)[0].address == address@);
                    assert(find_collection(cv.skip(i as int), address@) == Some(
                        cv.skip(i as int)[0],
                    ));
                }
                return Some(i);
            }
            i = i + 1;
        }
        proof {
            assert(cv.skip(n as int) =~= Seq::<CollectionView>::empty());
        }
        None
    }

    /// How a deposit decides. The calling collection must be accepted
    /// and the asset registry's answer `custodian` must name the escrow
    /// itself. The record is stored without an unlock time and the
    /// collection's configured amount of synthetic tokens is minted to
    /// the depositor.
    pub open spec fn spec_receive_nft(
        s: FracStateView,
        collection_address: Seq<char>,
        sender: Seq<char>,
        token_id: Seq<char>,
        custodian: Seq<char>,
        escrow: Seq<char>,
        now: u64,
    ) -> Result<(FracStateView, LockupView, MintTokensView), ContractError> {
        match find_collection(s.collections, collection_address) {
            None => Err(ContractError::Validation(ValidationKind::UnsupportedCollection)),
            Some(col) => if custodian != escrow {
                Err(ContractError::Validation(ValidationKind::CustodyNotConfirmed))
            } else {
                let rec = LockupView {
                    owner: sender,
                    collection_address,
                    token_id,
                    locked_since: now,
                    locked_until: now,
                };
                let mint = MintTokensView { to_address: sender, denom: s.denom, amount: col.tokens };
                Ok((FracStateView { lockup: ledger_put(s.lockup, rec), ..s }, rec, mint))
            },
        }
    }

    /// Take custody of `token_id`, sent in by `collection_address` on
    /// behalf of `sender`, and mint the collection's rate to the
    /// depositor. `custodian` is the asset registry's current owner of
    /// record for the token and `escrow` is this contract's own
    /// principal.
    pub fn receive_nft(
        &mut self,
        collection_address: String,
        sender: String,
        token_id: String,
        custodian: &String,
        escrow: &String,
        now: u64,
    ) -> (result: Result<(Lockup, MintTokens), ContractError>)
        requires
            old(self).wf(),
        ensures
            final(self).wf(),
            (result matches Ok(out) ==> Self::spec_receive_nft(
                old(self)@,
                collection_address@,
                sender@,
                token_id@,
                custodian@,
                escrow@,
                now,
            ) matches Ok(so) && so.0 == final(self)@ && record_as_lockup(so.1) == out.0@ && so.2
                == out.1@),
            (result matches Err(e) ==> Self::spec_receive_nft(
                old(self)@,
                collection_address@,
                sender@,
                token_id@,
                custodian@,
                escrow@,
                now,
            ) == Err::<(FracStateView, LockupView, MintTokensView), _>(e) && final(self)@ == old(
                self,
            )@),
    {
        let col_i = match Self::find_collection_exec(&self.collections, &collection_address) {
            Some(i) => i,
            None => {
                return Err(ContractError::Validation(ValidationKind::UnsupportedCollection));
            },
        };
        if !(*custodian == *escrow) {
            return Err(ContractError::Validation(ValidationKind::CustodyNotConfirmed));
        }
        let rate = self.collections[col_i].tokens;
        let rec = crate::ledger::Lockup::new(
            sender.clone(),
            collection_address,
            token_id,
            now,
            now,
        );
        let out = Lockup::new(
            rec.owner.clone(),
            rec.collection_address.clone(),
            rec.token_id.clone(),
            rec.locked_since,
        );
        let mint = MintTokens { to_address: sender, denom: self.denom.clone(), amount: rate };
        self.lockup.put(rec);
        Ok((out, mint))
    }

    /// How a redemption decides: the payment must be a single positive
    /// amount of the synthetic denomination, the record must exist, the
    /// collection must still be configured, and the payment must equal
    /// the collection's rate exactly. The record is deleted, the payment
    /// burned, and the NFT goes to the payer.
    pub open spec fn spec_withdraw(
        s: FracStateView,
        sender: Seq<char>,
        collection_address: Seq<char>,
        token_id: Seq<char>,
        funds: Seq<CoinView>,
    ) -> Result<(FracStateView, NftTransferView, BurnTokensView), ContractError> {
        match spec_take_single_denom(funds, s.denom) {
            Err(e) => Err(e),
            Ok(paid) => match lookup(s.lockup, (collection_address, token_id)) {
                None => Err(ContractError::State(StateKind::NotFound)),
                Some(l) => match find_collection(s.collections, collection_address) {
                    None => Err(ContractError::Validation(ValidationKind::UnsupportedCollection)),
                    Some(col) => if paid != col.tokens {
                        Err(ContractError::Validation(ValidationKind::WrongPayment))
                    } else {
                        Ok(
                            (
                                FracStateView {
                                    lockup: drop_key(s.lockup, (collection_address, token_id)),
                                    ..s
                                },
                                NftTransferView {
                                    collection: l.collection_address,
                                    token_id: l.token_id,
                                    recipient: sender,
                                },
                                BurnTokensView { denom: s.denom, amount: paid },
                            ),
                        )
                    },
                },
            },
        }
    }

    /// Redeem `token_id` of `collection_address` against the attached
    /// synthetic tokens.
    pub fn withdraw(
        &mut self,
        sender: String,
        collection_address: String,
        token_id: String,
        funds: &Vec<Coin>,
    ) -> (result: Result<(NftTransfer, BurnTokens), ContractError>)
        requires
            old(self).wf(),
        ensures
            final(self).wf(),
            (result matches Ok(out) ==> Self::spec_withdraw(
                old(self)@,
                sender@,
                collection_address@,
                token_id@,
                coins_view(funds@),
            ) == Ok::<_, ContractError>((final(self)@, out.0@, out.1@))),
            (result matches Err(e) ==> Self::spec_withdraw(
                old(self)@,
                sender@,
                collection_address@,
                token_id@,
                coins_view(funds@),
            ) == Err::<(FracStateView, NftTransferView, BurnTokensView), _>(e) && final(self)@
                == old(self)@),
    {
        let paid = match take_single_denom(funds, &self.denom) {
            Ok(a) => a,
            Err(e) => {
                return Err(e);
            },
        };
        let (rec_collection, rec_token) = match self.lockup.first_by_token(
            &collection_address,
            &token_id,
        ) {
            Some(l) => (l.collection_address.clone(), l.token_id.clone()),
            None => {
                return Err(ContractError::State(StateKind::NotFound));
            },
        };
        let col_i = match Self::find_collection_exec(&self.collections, &collection_address) {
            Some(i) => i,
            None => {
                return Err(ContractError::Validation(ValidationKind::UnsupportedCollection));
            },
        };
        if paid != self.collections[col_i].tokens {
            return Err(ContractError::Validation(ValidationKind::WrongPayment));
        }
        self.lockup.delete(&collection_address, &token_id);
        Ok(
            (
                NftTransfer { collection: rec_collection, token_id: rec_token, recipient: sender },
                BurnTokens { denom: self.denom.clone(), amount: paid },
            ),
        )
    }

    /// Number of custody records held.
    pub fn count(&self) -> (r: CountResponse)
        ensures
            r.count == self@.lockup.len(),
    {
        let c = self.lockup.count();
        CountResponse { count: c as u128 }
    }

    /// The variant tag and version of this engine.
    pub fn contract_type(&self) -> (r: ContractTypeResponse)
        ensures
            r.contract@ == "frac"@,
            r.version@ == "0.1.0"@,
    {
        ContractTypeResponse {
            contract: String::from_str("frac"),
            version: String::from_str("0.1.0"),
        }
    }

    /// The position under (collection, token id), if custody is held.
    pub fn lockup_by_token(&self, collection_address: String, token_id: String) -> (result: Result<
        Lockup,
        ContractError,
    >)
        requires
            self.wf(),
        ensures
            (lookup(self@.lockup, (collection_address@, token_id@)) matches Some(l) ==> (
            result matches Ok(r) && r@ == record_as_lockup(l))),
            (lookup(self@.lockup, (collection_address@, token_id@)) is None ==> result
                == Err::<Lockup, _>(ContractError::State(StateKind::NotFound))),
    {
        match self.lockup.first_by_token(&collection_address, &token_id) {
            Some(l) => Ok(
                Lockup {
                    depositor: l.owner.clone(),
                    collection_address: l.collection_address.clone(),
                    token_id: l.token_id.clone(),
                    locked_since: l.locked_since,
                },
            ),
            None => Err(ContractError::State(StateKind::NotFound)),
        }
    }

    /// All positions of one depositor, in storage order.
    pub fn lockups_by_depositor(&self, depositor: String) -> (r: LockupsReponse)
        ensures
            r.lockups@.map_values(|l: Lockup| l@) == crate::ledger::owned_by(
                self@.lockup,
                depositor@,
            ).map_values(|l: LockupView| record_as_lockup(l)),
    {
        let recs = self.lockup.by_owner(&depositor);
        LockupsReponse { lockups: Self::convert_records(recs) }
    }

    /// All positions of one collection, in storage order.
    pub fn lockups_by_collection(&self, collection_address: String) -> (r: LockupsReponse)
        ensures
            r.lockups@.map_values(|l: Lockup| l@) == crate::ledger::in_collection(
                self@.lockup,
                collection_address@,
            ).map_values(|l: LockupView| record_as_lockup(l)),
    {
        let recs = self.lockup.by_collection(&collection_address);
        LockupsReponse { lockups: Self::convert_records(recs) }
    }

    /// Read stored records as positions of this variant.
    fn convert_records(recs: Vec<crate::ledger::Lockup>) -> (r: Vec<Lockup>)
        ensures
            r@.map_values(|l: Lockup| l@) == recs@.map_values(|l: crate::ledger::Lockup| l@)
                .map_values(|l: LockupView| record_as_lockup(l)),
    {
        let n = recs.len();
        let mut out: Vec<Lockup> = Vec::new();
        let mut i: usize = 0;
        while i < n
            invariant
                i <= n,
                n == recs@.len(),
                out@.len() == i,
                forall|j: int| 0 <= j < i ==> (#[trigger] out@[j])@ == record_as_lockup(
                    recs@[j]@,
                ),
            decreases n - i,
        {
            let rec = &recs[i];
            out.push(
                Lockup {
                    depositor: rec.owner.clone(),
                    collection_address: rec.collection_address.clone(),
                    token_id: rec.token_id.clone(),
                    locked_since: rec.locked_since,
                },
            );
            i = i + 1;
        }
        proof {
            assert(out@.map_values(|l: Lockup| l@) =~= recs@.map_values(
                |l: crate::ledger::Lockup| l@,
            ).map_values(|l: LockupView| record_as_lockup(l)));
        }
        out
    }

    /// The full configuration.
    pub fn config(&self) -> (r: ConfigResponse)
        ensures
            r.admin@ == self@.admin,
            r.denom@ == self@.denom,
            r.collections@.map_values(|c: Collection| c@) == self@.collections,
    {
        let n = self.collections.len();
        let mut out: Vec<Collection> = Vec::new();
        let mut i: usize = 0;
        while i < n
            invariant
                i <= n,
                n == self@.collections.len(),
                out@.len() == i,
                forall|j: int| 0 <= j < i ==> (#[trigger] out@[j])@ == self@.collections[j],
            decreases n - i,
        {
            out.push(self.collections[i].clone());
            i = i + 1;
        }
        proof {
            assert(out@.map_values(|c: Collection| c@) =~= self@.collections);
        }
        ConfigResponse {
            admin: self.admin.clone(),
            denom: self.denom.clone(),
            collections: out,
        }
    }
}

} // verus!
