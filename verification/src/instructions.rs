//! Abstract settlement instructions the engines emit.
//!
//! The engines never move value themselves: a successful operation returns
//! one of these records and the host executes it — a bank transfer, an NFT
//! custody transfer, or a synthetic-token mint or burn.

use vstd::prelude::*;

verus! {

/// "Send `amount` of `denom` to `to_address`."
#[derive(Debug)]
pub struct BankSend {
    pub to_address: String,
    pub denom: String,
    pub amount: u128,
}

/// The mathematical reading of a [`BankSend`].
pub struct BankSendView {
    pub to_address: Seq<char>,
    pub denom: Seq<char>,
    pub amount: u128,
}

impl View for BankSend {
    type V = BankSendView;

    open spec fn view(&self) -> BankSendView {
        BankSendView { to_address: self.to_address@, denom: self.denom@, amount: self.amount }
    }
}

/// "Transfer custody of `token_id` in `collection` to `recipient`."
#[derive(Debug)]
pub struct NftTransfer {
    pub collection: String,
    pub token_id: String,
    pub recipient: String,
}

/// The mathematical reading of an [`NftTransfer`].
pub struct NftTransferView {
    pub collection: Seq<char>,
    pub token_id: Seq<char>,
    pub recipient: Seq<char>,
}

impl View for NftTransfer {
    type V = NftTransferView;

    open spec fn view(&self) -> NftTransferView {
        NftTransferView {
            collection: self.collection@,
            token_id: self.token_id@,
            recipient: self.recipient@,
        }
    }
}

/// "Mint `amount` of the synthetic `denom` to `to_address`."
#[derive(Debug)]
pub struct MintTokens {
    pub to_address: String,
    pub denom: String,
    pub amount: u128,
}

/// The mathematical reading of a [`MintTokens`].
pub struct MintTokensView {
    pub to_address: Seq<char>,
    pub denom: Seq<char>,
    pub amount: u128,
}

impl View for MintTokens {
    type V = MintTokensView;

    open spec fn view(&self) -> MintTokensView {
        MintTokensView { to_address: self.to_address@, denom: self.denom@, amount: self.amount }
    }
}

/// "Burn `amount` of the synthetic `denom` from the escrow's balance."
#[derive(Debug)]
pub struct BurnTokens {
    pub denom: String,
    pub amount: u128,
}

/// The mathematical reading of a [`BurnTokens`].
pub struct BurnTokensView {
    pub denom: Seq<char>,
    pub amount: u128,
}

impl View for BurnTokens {
    type V = BurnTokensView;

    open spec fn view(&self) -> BurnTokensView {
        BurnTokensView { denom: self.denom@, amount: self.amount }
    }
}

} // verus!
