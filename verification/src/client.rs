//! The SDK client: an optional keypair and its address, with helpers to build
//! signed transfers and to check addresses and transactions.
use vstd::prelude::*;
use crate::address::{address_of_key, address_text_valid, Address, AddressType};
use crate::codec::hex_text;
use crate::crypto::{KeyPair, PublicKey, SecretKey};
use crate::error::{RelyoError, Result};
use crate::transaction::{sender_matches, tx_valid, Transaction, TransactionHash};
use crate::wallet::{sign_transfer, signed_transfer};

verus! {

/// High-level client for interacting with the Relyo network.
pub struct RelyoClient {
    keypair: Option<KeyPair>,
    address: Option<Address>,
}

impl RelyoClient {
    /// The loaded keypair, if any.
    pub closed spec fn keypair_view(&self) -> Option<KeyPair> {
        self.keypair
    }

    /// The address text, if a keypair is loaded.
    pub closed spec fn address_view(&self) -> Option<Seq<char>> {
        match self.address {
            Some(a) => Some(a@),
            None => None,
        }
    }

    /// A keypair and its standard address are loaded together, or neither.
    pub open spec fn wf(&self) -> bool {
        match self.keypair_view() {
            Some(kp) => kp.wf() && self.address_view() == Some(
                address_of_key(kp.public_key@, AddressType::Standard),
            ),
            None => self.address_view() is None,
        }
    }

    /// A read-only client without a keypair.
    pub fn new() -> (c: Self)
        ensures
            c.wf(),
            c.keypair_view() is None,
    {
        RelyoClient { keypair: None, address: None }
    }

    /// A client with a freshly generated keypair.
    pub fn with_new_wallet() -> (c: Self)
        ensures
            c.wf(),
            c.keypair_view() is Some,
    {
        let kp = KeyPair::generate();
        let addr = Address::from_public_key(&kp.public_key);
        RelyoClient { keypair: Some(kp), address: Some(addr) }
    }

    /// A client holding the keypair of an existing secret key.
    pub fn with_secret(secret: &SecretKey) -> (c: Self)
        ensures
            c.wf(),
            c.keypair_view() matches Some(kp) && kp.seed@ == secret@,
    {
        let kp = KeyPair::from_secret(secret);
        let addr = Address::from_public_key(&kp.public_key);
        RelyoClient { keypair: Some(kp), address: Some(addr) }
    }

    /// The client's address, if a keypair is loaded.
    pub fn address(&self) -> (a: Option<&Address>)
        ensures
            a is Some <==> self.address_view() is Some,
            a matches Some(x) ==> self.address_view() == Some(x@),
    {
        match &self.address {
            Some(a) => Some(a),
            None => None,
        }
    }

    /// The client's public key as hex, if a keypair is loaded.
    pub fn public_key_hex(&self) -> (s: Option<String>)
        ensures
            s is Some <==> self.keypair_view() is Some,
            s matches Some(t) ==> t@ == hex_text(self.keypair_view()->0.public_key@),
    {
        match &self.keypair {
            Some(kp) => Some(kp.public_key.to_hex()),
            None => None,
        }
    }

    /// Build and sign a transfer with the base fee; refused when no keypair is loaded.
    pub fn transfer(
        &self,
        to: Address,
        amount: u64,
        nonce: u64,
        parent_1: TransactionHash,
        parent_2: TransactionHash,
    ) -> (res: Result<Transaction>)
        requires
            self.wf(),
        ensures
            res is Ok <==> self.keypair_view() is Some,
            res matches Ok(tx) ==> signed_transfer(
                tx,
                self.keypair_view()->0,
                self.address_view()->0,
                to@,
                amount,
                nonce,
                parent_1,
                parent_2,
            ) && sender_matches(tx),
            res matches Err(e) ==> (e matches RelyoError::Wallet(m) && m@ == "no keypair loaded"@),
    {
        let kp = match &self.keypair {
            Some(kp) => kp,
            None => {
                return Err(RelyoError::Wallet(String::from_str("no keypair loaded")));
            },
        };
        let addr = match &self.address {
            Some(a) => a,
            None => {
                return Err(RelyoError::Wallet(String::from_str("no address derived")));
            },
        };
        Ok(sign_transfer(kp, addr, to, amount, nonce, parent_1, parent_2))
    }

    /// Parse and validate an address text.
    pub fn validate_address(addr: &str) -> (res: Result<Address>)
        ensures
            res is Ok <==> address_text_valid(addr@),
            res matches Ok(a) ==> a@ == addr@,
            res matches Err(e) ==> e is InvalidAddress,
    {
        Address::parse(addr)
    }

    /// The standard address of a public key.
    pub fn address_from_pubkey(pubkey: &PublicKey) -> (a: Address)
        ensures
            a@ == address_of_key(pubkey@, AddressType::Standard),
    {
        Address::from_public_key(pubkey)
    }

    /// Check a transaction's rules, sender and signature.
    pub fn verify_transaction(tx: &Transaction) -> (res: Result<()>)
        ensures
            res is Ok <==> tx_valid(*tx),
    {
        tx.validate()
    }
}

impl Default for RelyoClient {
    fn default() -> (c: Self)
        ensures
            c.wf(),
            c.keypair_view() is None,
    {
        Self::new()
    }
}

} // verus!
