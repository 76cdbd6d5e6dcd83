//! A wallet: a keypair kept in an encrypted keystore, its address, and the
//! signed transfers it makes.
use vstd::prelude::*;
use std::path::PathBuf;
use vstd::string::StringSliceAdditionalSpecFns;
use crate::address::{address_of_key, Address, AddressType};
use crate::codec::hex_text;
use crate::crypto::{ed25519_signature_of, signature_valid, KeyPair, PublicKey, Signature};
use crate::error::Result;
use crate::keystore::{opened_seed, sealed, KeyStore};
use crate::token::BASE_FEE;
use crate::transaction::{
    sender_matches, signable_of, zero_hash_bytes, Transaction, TransactionBuilder, TransactionHash,
    TransactionType,
};

verus! {

/// Whether `tx` is a transfer signed by `kp` from `from` to `to`: the amount,
/// nonce and parents given, the base fee, no data, and a signature that verifies.
pub open spec fn signed_transfer(
    tx: Transaction,
    kp: KeyPair,
    from: Seq<char>,
    to: Seq<char>,
    amount: u64,
    nonce: u64,
    parent_1: TransactionHash,
    parent_2: TransactionHash,
) -> bool {
    &&& tx.tx_type == TransactionType::Transfer
    &&& tx.sender@ == from
    &&& tx.receiver@ == to
    &&& tx.amount == amount
    &&& tx.fee == BASE_FEE
    &&& tx.nonce == nonce
    &&& tx.parent_1 == parent_1
    &&& tx.parent_2 == parent_2
    &&& tx.data@.len() == 0
    &&& tx.sender_pubkey == kp.public_key
    &&& tx.signature@ == ed25519_signature_of(kp.seed@, signable_of(tx))
    &&& signature_valid(tx.sender_pubkey@, signable_of(tx), tx.signature@)
}

/// Build and sign a transfer from the keypair's address.
pub(crate) fn sign_transfer(
    kp: &KeyPair,
    from: &Address,
    receiver: Address,
    amount: u64,
    nonce: u64,
    parent_1: TransactionHash,
    parent_2: TransactionHash,
) -> (tx: Transaction)
    requires
        kp.wf(),
    ensures
        signed_transfer(tx, *kp, from@, receiver@, amount, nonce, parent_1, parent_2),
{
    TransactionBuilder::new(from.clone(), receiver, amount, BASE_FEE, nonce).parents(parent_1, parent_2).sign(kp)
}

/// Whether `p1` and `p2` are the parents a transfer takes from the DAG's tips:
/// the first two tips; the first tip twice when there is one; the zero hash twice
/// when there are none.
pub open spec fn parents_from_tips(tips: Seq<TransactionHash>, p1: TransactionHash, p2: TransactionHash) -> bool {
    &&& tips.len() > 0 ==> p1 == tips[0]
    &&& tips.len() == 0 ==> p1.0@ == zero_hash_bytes()
    &&& tips.len() > 1 ==> p2 == tips[1]
    &&& tips.len() <= 1 ==> p2 == p1
}

/// A Relyo wallet that manages keys and creates signed transactions.
pub struct Wallet {
    keypair: KeyPair,
    address: Address,
    keystore_path: PathBuf,
}

impl Wallet {
    /// The wallet's keypair.
    pub closed spec fn keypair_view(&self) -> KeyPair {
        self.keypair
    }

    /// The wallet's address text.
    pub closed spec fn address_view(&self) -> Seq<char> {
        self.address@
    }

    /// The keypair is consistent and the address is its standard address.
    pub open spec fn wf(&self) -> bool {
        &&& self.keypair_view().wf()
        &&& self.address_view() == address_of_key(self.keypair_view().public_key@, AddressType::Standard)
    }

    /// Create a wallet with a freshly generated keypair, to be kept at
    /// `keystore_path`: the wallet, and its secret sealed under the passphrase
    /// for the caller to write there.
    pub fn create(keystore_path: PathBuf, passphrase: &str) -> (res: Result<(Wallet, KeyStore)>)
        ensures
            passphrase.spec_bytes().len() <= 0xFFFF_FFFF ==> res is Ok,
            res matches Ok((w, s)) ==> w.wf() && sealed(
                s,
                w.keypair_view().seed@,
                passphrase.spec_bytes(),
                s.salt@,
                s.nonce@,
            ),
            res matches Err(e) ==> e is Wallet,
    {
        let keypair = KeyPair::generate();
        let address = Address::from_public_key(&keypair.public_key);
        let store = KeyStore::seal(&keypair.secret(), passphrase)?;
        Ok((Wallet { keypair, address, keystore_path }, store))
    }

    /// Open a wallet from the keystore read from `keystore_path`.
    pub fn open(keystore_path: PathBuf, store: &KeyStore, passphrase: &str) -> (res: Result<Wallet>)
        ensures
            passphrase.spec_bytes().len() <= 0xFFFF_FFFF && opened_seed(*store, passphrase.spec_bytes()) is Some
                ==> res is Ok,
            res matches Ok(w) ==> w.wf() && opened_seed(*store, passphrase.spec_bytes()) == Some(
                w.keypair_view().seed@,
            ),
            res matches Err(e) ==> e is Wallet,
    {
        let keypair = store.open(passphrase)?;
        let address = Address::from_public_key(&keypair.public_key);
        Ok(Wallet { keypair, address, keystore_path })
    }

    /// The wallet's address.
    pub fn address(&self) -> (a: &Address)
        ensures
            a@ == self.address_view(),
    {
        &self.address
    }

    /// The wallet's public key as lowercase hex.
    pub fn public_key_hex(&self) -> (s: String)
        ensures
            s@ == hex_text(self.keypair_view().public_key@),
    {
        self.keypair.public_key.to_hex()
    }

    /// Create and sign a transfer of `amount` to `receiver` with the base fee.
    pub fn create_transaction(
        &self,
        receiver: Address,
        amount: u64,
        nonce: u64,
        parent_1: TransactionHash,
        parent_2: TransactionHash,
    ) -> (tx: Transaction)
        requires
            self.wf(),
        ensures
            signed_transfer(tx, self.keypair_view(), self.address_view(), receiver@, amount, nonce, parent_1, parent_2),
            sender_matches(tx),
    {
        sign_transfer(&self.keypair, &self.address, receiver, amount, nonce, parent_1, parent_2)
    }

    /// Build and sign the next transfer of `amount` to `receiver` from what the
    /// node reports: the sender's current nonce (the transfer takes the next one)
    /// and the DAG's tips (the first two are the parents; with one tip it is both
    /// parents, with none the zero hash is). `None` when the nonce has no successor.
    pub fn transfer_from_tips(
        &self,
        receiver: Address,
        amount: u64,
        current_nonce: u64,
        tips: &[TransactionHash],
    ) -> (r: Option<Transaction>)
        requires
            self.wf(),
        ensures
            r is None <==> current_nonce == u64::MAX,
            r matches Some(tx) ==> {
                &&& parents_from_tips(tips@, tx.parent_1, tx.parent_2)
                &&& signed_transfer(
                    tx,
                    self.keypair_view(),
                    self.address_view(),
                    receiver@,
                    amount,
                    (current_nonce + 1) as u64,
                    tx.parent_1,
                    tx.parent_2,
                )
            },
    {
        if current_nonce == u64::MAX {
            return None;
        }
        let parent_1 = if tips.len() > 0 { tips[0] } else { TransactionHash::zero() };
        let parent_2 = if tips.len() > 1 { tips[1] } else { parent_1 };
        Some(self.create_transaction(receiver, amount, current_nonce + 1, parent_1, parent_2))
    }

    /// Create and sign a transfer (the same transaction as `create_transaction`).
    pub fn create_transaction_with_pow(
        &self,
        receiver: Address,
        amount: u64,
        nonce: u64,
        parent_1: TransactionHash,
        parent_2: TransactionHash,
    ) -> (tx: Transaction)
        requires
            self.wf(),
        ensures
            signed_transfer(tx, self.keypair_view(), self.address_view(), receiver@, amount, nonce, parent_1, parent_2),
            sender_matches(tx),
    {
        sign_transfer(&self.keypair, &self.address, receiver, amount, nonce, parent_1, parent_2)
    }

    /// Sign arbitrary data with the wallet's key.
    pub fn sign(&self, message: &[u8]) -> (sig: Signature)
        requires
            self.wf(),
        ensures
            sig@ == ed25519_signature_of(self.keypair_view().seed@, message@),
            signature_valid(self.keypair_view().public_key@, message@, sig@),
    {
        self.keypair.sign(message)
    }

    /// The wallet's public key.
    pub fn public_key(&self) -> (pk: &PublicKey)
        ensures
            *pk == self.keypair_view().public_key,
    {
        &self.keypair.public_key
    }
}

} // verus!
