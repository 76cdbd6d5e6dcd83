//! The merchant payment API: payment requests with unique reference ids,
//! checks of incoming payments, and refunds.
use vstd::prelude::*;
use vstd::utf8::encode_utf8;
use crate::address::{address_of_key, Address, AddressType};
use crate::codec::{hex_encode, hex_text};
use crate::crypto::{sha3_256, sha3_digest, KeyPair};
use crate::error::Result;
use crate::textscan::same_text;
use crate::token::{decimal, decimal_string};
use crate::transaction::{sender_matches, tx_valid, Transaction, TransactionHash};
use crate::wallet::{sign_transfer, signed_transfer};

verus! {

/// A payment request a merchant hands to a payer.
pub struct PaymentRequest {
    /// Merchant's receiving address.
    pub merchant_address: String,
    /// Amount in base units.
    pub amount: u64,
    /// Unique reference ID for this payment.
    pub reference_id: String,
    /// Optional memo / description.
    pub memo: String,
    /// Expiry timestamp (ms since epoch).
    pub expires_at: u64,
}

/// The text a reference id is hashed from: address, amount, time and memo.
pub open spec fn reference_text(addr: Seq<char>, amount: u64, now: u64, memo: Seq<char>) -> Seq<char> {
    addr + decimal(amount as nat) + decimal(now as nat) + memo
}

/// A reference id: hex of the first 16 bytes of SHA3-256 of the reference text.
pub open spec fn reference_id_of(addr: Seq<char>, amount: u64, now: u64, memo: Seq<char>) -> Seq<char> {
    hex_text(sha3_digest(encode_utf8(reference_text(addr, amount, now, memo))).take(16))
}

/// Merchant payment API.
pub struct MerchantApi {
    keypair: KeyPair,
    address: Address,
}

impl MerchantApi {
    /// The merchant's keypair.
    pub closed spec fn keypair_view(&self) -> KeyPair {
        self.keypair
    }

    /// The merchant's address text.
    pub closed spec fn address_view(&self) -> Seq<char> {
        self.address@
    }

    /// The keypair is consistent and the address is its standard address.
    pub open spec fn wf(&self) -> bool {
        &&& self.keypair_view().wf()
        &&& self.address_view() == address_of_key(self.keypair_view().public_key@, AddressType::Standard)
    }

    /// A merchant API receiving at the standard address of the keypair.
    pub fn new(keypair: KeyPair) -> (api: Self)
        ensures
            api.keypair_view() == keypair,
            api.address_view() == address_of_key(keypair.public_key@, AddressType::Standard),
            keypair.wf() ==> api.wf(),
    {
        let address = Address::from_public_key(&keypair.public_key);
        MerchantApi { keypair, address }
    }

    /// The merchant's receiving address.
    pub fn address(&self) -> (a: &Address)
        ensures
            a@ == self.address_view(),
    {
        &self.address
    }

    /// A request for `amount` base units made at `now` (ms since the UNIX epoch),
    /// valid for `ttl_seconds`, with a reference id derived from the merchant's
    /// address, the amount, the time and the memo.
    pub fn payment_request_at(&self, amount: u64, memo: &str, ttl_seconds: u64, now: u64) -> (req: PaymentRequest)
        requires
            now + ttl_seconds * 1000 <= u64::MAX,
        ensures
            req.merchant_address@ == self.address_view(),
            req.amount == amount,
            req.reference_id@ == reference_id_of(self.address_view(), amount, now, memo@),
            req.memo@ == memo@,
            req.expires_at == now + ttl_seconds * 1000,
    {
        let expires_at = now + ttl_seconds * 1000;
        let mut ref_data = String::from_str(self.address.as_str());
        ref_data.append(decimal_string(amount).as_str());
        ref_data.append(decimal_string(now).as_str());
        ref_data.append(memo);
        let ref_hash = sha3_256(ref_data.as_str().as_bytes());
        let reference_id = hex_encode(&ref_hash.as_slice()[0..16]);
        proof {
            assert(ref_data@ == reference_text(self.address_view(), amount, now, memo@));
            assert(ref_hash@.subrange(0, 16) =~= ref_hash@.take(16));
        }
        PaymentRequest {
            merchant_address: String::from_str(self.address.as_str()),
            amount,
            reference_id,
            memo: String::from_str(memo),
            expires_at,
        }
    }

    /// Whether a transaction pays a request: it goes to the request's address, for
    /// at least the amount, before expiry. A transaction that pays but does not
    /// validate is an error.
    pub fn verify_payment(&self, tx: &Transaction, request: &PaymentRequest) -> (res: Result<bool>)
        ensures
            tx.receiver@ != request.merchant_address@ ==> res == Ok::<bool, crate::error::RelyoError>(false),
            tx.receiver@ == request.merchant_address@ && tx.amount < request.amount ==> res == Ok::<
                bool,
                crate::error::RelyoError,
            >(false),
            tx.receiver@ == request.merchant_address@ && tx.amount >= request.amount && tx.timestamp
                > request.expires_at ==> res == Ok::<bool, crate::error::RelyoError>(false),
            tx.receiver@ == request.merchant_address@ && tx.amount >= request.amount && tx.timestamp
                <= request.expires_at ==> (res is Ok <==> tx_valid(*tx)) && (res is Ok ==> res == Ok::<
                bool,
                crate::error::RelyoError,
            >(true)),
    {
        if !same_text(tx.receiver.as_str(), request.merchant_address.as_str()) {
            return Ok(false);
        }
        if tx.amount < request.amount {
            return Ok(false);
        }
        if tx.timestamp > request.expires_at {
            return Ok(false);
        }
        tx.validate()?;
        Ok(true)
    }

    /// A refund of a transaction: its amount back to its sender, with the base fee.
    pub fn create_refund(
        &self,
        original_tx: &Transaction,
        nonce: u64,
        parent_1: TransactionHash,
        parent_2: TransactionHash,
    ) -> (tx: Transaction)
        requires
            self.wf(),
        ensures
            signed_transfer(
                tx,
                self.keypair_view(),
                self.address_view(),
                original_tx.sender@,
                original_tx.amount,
                nonce,
                parent_1,
                parent_2,
            ),
            sender_matches(tx),
    {
        sign_transfer(&self.keypair, &self.address, original_tx.sender.clone(), original_tx.amount, nonce, parent_1, parent_2)
    }
}

} // verus!
