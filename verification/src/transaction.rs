//! Account-model transactions: hashing, signing, validation, fee priority, and
//! the builder that signs them.
use vstd::prelude::*;
use vstd::utf8::encode_utf8;
use crate::address::{address_of_key, Address, AddressType};
use crate::bytes::{extend_bytes, push_u32_le, push_u64_le, u32_le, u64_le};
use crate::codec::{hex_bytes, hex_decode, hex_encode, hex_text};
use crate::constants::CHAIN_ID;
use crate::crypto::{
    concat_parts, ed25519_signature_of, sha3_256_multi, sha3_digest, signature_valid, KeyPair,
    PublicKey, Signature,
};
use crate::error::{RelyoError, Result};
use crate::primitives::now_ms;
use crate::token::BASE_FEE;

verus! {

/// A 32-byte SHA3-256 transaction hash.
#[derive(Debug, Clone, Copy, PartialEq, Eq, Hash)]
pub struct TransactionHash(pub [u8; 32]);

impl View for TransactionHash {
    type V = Seq<u8>;

    open spec fn view(&self) -> Seq<u8> {
        self.0@
    }
}

/// The all-zero 32 bytes.
pub open spec fn zero_hash_bytes() -> Seq<u8> {
    Seq::new(32, |i: int| 0u8)
}

impl TransactionHash {
    pub fn as_bytes(&self) -> (b: &[u8; 32])
        ensures
            b@ == self.0@,
    {
        &self.0
    }

    /// Lower-case hex text of the hash.
    pub fn to_hex(&self) -> (s: String)
        ensures
            s@ == hex_text(self.0@),
    {
        hex_encode(&self.0)
    }

    /// Parse 64 hex digits.
    pub fn from_hex(s: &str) -> (res: Result<Self>)
        ensures
            hex_bytes(s@) is None ==> res matches Err(RelyoError::Serialization(_)),
            (hex_bytes(s@) matches Some(b) && b.len() != 32) ==> res matches Err(
                RelyoError::InvalidTransaction(_),
            ),
            (hex_bytes(s@) matches Some(b) && b.len() == 32) ==> (res matches Ok(h) && h.0@ == hex_bytes(s@).unwrap()),
    {
        let bytes = match hex_decode(s) {
            Ok(v) => v,
            Err(e) => return Err(RelyoError::Serialization(e)),
        };
        if bytes.len() != 32 {
            return Err(RelyoError::InvalidTransaction(String::from_str("invalid hash length")));
        }
        let mut arr = [0u8; 32];
        let mut i: usize = 0;
        while i < 32
            invariant
                bytes@.len() == 32,
                i <= 32,
                forall|j: int| 0 <= j < i ==> arr@[j] == bytes@[j],
            decreases 32 - i,
        {
            arr[i] = bytes[i];
            i = i + 1;
        }
        assert(arr@ =~= bytes@);
        Ok(TransactionHash(arr))
    }

    /// The all-zero hash, the parent of genesis transactions.
    pub fn zero() -> (h: Self)
        ensures
            h.0@ == zero_hash_bytes(),
    {
        let h = TransactionHash([0u8; 32]);
        assert(h.0@ =~= zero_hash_bytes());
        h
    }

    /// Whether two hashes have the same bytes.
    pub fn same(&self, other: &Self) -> (eq: bool)
        ensures
            eq == (self.0@ == other.0@),
    {
        let mut i: usize = 0;
        while i < 32
            invariant
                i <= 32,
                forall|j: int| 0 <= j < i ==> self.0@[j] == other.0@[j],
            decreases 32 - i,
        {
            if self.0[i] != other.0[i] {
                return false;
            }
            i = i + 1;
        }
        assert(self.0@ =~= other.0@);
        true
    }

    /// Whether every byte is zero.
    pub fn is_zero(&self) -> (z: bool)
        ensures
            z == (self.0@ == zero_hash_bytes()),
    {
        let mut i: usize = 0;
        while i < 32
            invariant
                i <= 32,
                forall|j: int| 0 <= j < i ==> self.0@[j] == 0,
            decreases 32 - i,
        {
            if self.0[i] != 0 {
                assert(self.0@[i as int] != zero_hash_bytes()[i as int]);
                return false;
            }
            i = i + 1;
        }
        assert(self.0@ =~= zero_hash_bytes());
        true
    }
}

/// Transaction status in the DAG.
#[derive(Debug, Clone, Copy, PartialEq, Eq, Structural)]
pub enum TransactionStatus {
    Pending,
    Voting,
    Confirmed,
    Rejected,
}

/// Type of a transaction.
#[derive(Debug, Clone, Copy, PartialEq, Eq, Structural)]
pub enum TransactionType {
    /// Standard RLY transfer between addresses.
    Transfer,
    /// Stake RLY to become a validator.
    Stake,
    /// Unstake and begin the lock period.
    Unstake,
    /// Slash a misbehaving validator.
    Slash,
    /// Reward distribution to validators.
    Reward,
    /// Genesis allocation.
    Genesis,
    /// Contract invocation.
    ContractCall,
}

/// The byte that encodes a transaction type (its position in the declaration).
pub open spec fn type_code(t: TransactionType) -> u8 {
    match t {
        TransactionType::Transfer => 0u8,
        TransactionType::Stake => 1u8,
        TransactionType::Unstake => 2u8,
        TransactionType::Slash => 3u8,
        TransactionType::Reward => 4u8,
        TransactionType::Genesis => 5u8,
        TransactionType::ContractCall => 6u8,
    }
}

fn type_code_of(t: TransactionType) -> (b: u8)
    ensures
        b == type_code(t),
{
    match t {
        TransactionType::Transfer => 0,
        TransactionType::Stake => 1,
        TransactionType::Unstake => 2,
        TransactionType::Slash => 3,
        TransactionType::Reward => 4,
        TransactionType::Genesis => 5,
        TransactionType::ContractCall => 6,
    }
}

/// Transaction priority for fee-market ordering (ordered low to critical).
#[derive(Debug, Clone, Copy, PartialEq, Eq, PartialOrd, Ord, Structural)]
pub enum TransactionPriority {
    Low,
    Normal,
    High,
    Critical,
}

/// The priority a fee earns: multiples 10, 5 and 2 of the base fee.
pub open spec fn priority_of_fee(fee: u64) -> TransactionPriority {
    if fee >= 10 * BASE_FEE {
        TransactionPriority::Critical
    } else if fee >= 5 * BASE_FEE {
        TransactionPriority::High
    } else if fee >= 2 * BASE_FEE {
        TransactionPriority::Normal
    } else {
        TransactionPriority::Low
    }
}

impl TransactionPriority {
    /// Fee multiplier of this priority level.
    pub fn fee_multiplier(&self) -> (m: u64)
        ensures
            m == (match *self {
                TransactionPriority::Low => 1u64,
                TransactionPriority::Normal => 2u64,
                TransactionPriority::High => 5u64,
                TransactionPriority::Critical => 10u64,
            }),
    {
        match self {
            TransactionPriority::Low => 1,
            TransactionPriority::Normal => 2,
            TransactionPriority::High => 5,
            TransactionPriority::Critical => 10,
        }
    }

    /// The priority of a fee relative to the base fee.
    pub fn from_fee(fee: u64) -> (p: Self)
        ensures
            p == priority_of_fee(fee),
    {
        let base = BASE_FEE;
        if fee >= base * 10 {
            TransactionPriority::Critical
        } else if fee >= base * 5 {
            TransactionPriority::High
        } else if fee >= base * 2 {
            TransactionPriority::Normal
        } else {
            TransactionPriority::Low
        }
    }
}

/// A signed account-model transaction.
#[derive(Debug)]
pub struct Transaction {
    pub tx_type: TransactionType,
    pub sender: Address,
    pub receiver: Address,
    pub amount: u64,
    pub fee: u64,
    pub timestamp: u64,
    pub nonce: u64,
    pub parent_1: TransactionHash,
    pub parent_2: TransactionHash,
    pub sender_pubkey: PublicKey,
    pub signature: Signature,
    /// Optional data payload (memos, contract calls).
    pub data: Vec<u8>,
}

/// What a transaction holds, as plain values.
pub struct TxView {
    pub tx_type: TransactionType,
    pub sender: Seq<char>,
    pub receiver: Seq<char>,
    pub amount: u64,
    pub fee: u64,
    pub timestamp: u64,
    pub nonce: u64,
    pub parent_1: Seq<u8>,
    pub parent_2: Seq<u8>,
    pub sender_pubkey: Seq<u8>,
    pub signature: Seq<u8>,
    pub data: Seq<u8>,
}

impl View for Transaction {
    type V = TxView;

    open spec fn view(&self) -> TxView {
        TxView {
            tx_type: self.tx_type,
            sender: self.sender@,
            receiver: self.receiver@,
            amount: self.amount,
            fee: self.fee,
            timestamp: self.timestamp,
            nonce: self.nonce,
            parent_1: self.parent_1@,
            parent_2: self.parent_2@,
            sender_pubkey: self.sender_pubkey@,
            signature: self.signature@,
            data: self.data@,
        }
    }
}

/// The bytes a transaction's signature covers: every field but the signature,
/// then the chain id, then the data (with its length) when there is any.
pub open spec fn signable_of(tx: Transaction) -> Seq<u8> {
    signable_view(tx@)
}

/// The signable bytes of a transaction given by its view.
pub open spec fn signable_view(v: TxView) -> Seq<u8> {
    let head = seq![type_code(v.tx_type)] + encode_utf8(v.sender) + encode_utf8(v.receiver)
        + u64_le(v.amount) + u64_le(v.fee) + u64_le(v.timestamp) + u64_le(v.nonce) + v.parent_1
        + v.parent_2 + v.sender_pubkey + u32_le(CHAIN_ID);
    if v.data.len() == 0 {
        head
    } else {
        head + u32_le(v.data.len() as u32) + v.data
    }
}

/// The fee-market weight of a transaction: its fee times 1000 (saturating) over
/// its size in bytes (signable bytes plus the 64-byte signature).
pub open spec fn weight_of(tx: Transaction) -> u64 {
    weight_view(tx@)
}

/// The fee-market weight of a transaction given by its view.
pub open spec fn weight_view(v: TxView) -> u64 {
    let scaled = if v.fee * 1000 > u64::MAX { u64::MAX as int } else { v.fee * 1000 };
    let size = if signable_view(v).len() + 64 > u64::MAX {
        u64::MAX as int
    } else {
        (signable_view(v).len() + 64) as int
    };
    (scaled / size) as u64
}

/// The hash of a transaction: SHA3-256 of its signable bytes followed by its signature.
pub open spec fn tx_hash_of(tx: Transaction) -> Seq<u8> {
    hash_view(tx@)
}

/// The hash of a transaction given by its view.
pub open spec fn hash_view(v: TxView) -> Seq<u8> {
    sha3_digest(signable_view(v) + v.signature)
}

/// Whether a transaction's sender address is the standard address of its public key.
pub open spec fn sender_matches(tx: Transaction) -> bool {
    tx.sender@ == address_of_key(tx.sender_pubkey@, AddressType::Standard)
}

/// Whether a transaction is a genesis transaction: genesis type and zero parents.
pub open spec fn is_genesis_tx(tx: Transaction) -> bool {
    tx.tx_type == TransactionType::Genesis && tx.parent_1.0@ == zero_hash_bytes()
        && tx.parent_2.0@ == zero_hash_bytes()
}

/// The business rules a transaction must meet besides its signature.
pub open spec fn rules_hold(tx: Transaction) -> bool {
    &&& !(tx.amount == 0 && tx.tx_type == TransactionType::Transfer)
    &&& !(tx.sender@ == tx.receiver@ && tx.tx_type == TransactionType::Transfer)
    &&& !(tx.fee < BASE_FEE && !is_genesis_tx(tx))
}

/// Whether a transaction passes full validation.
pub open spec fn tx_valid(tx: Transaction) -> bool {
    &&& sender_matches(tx)
    &&& signature_valid(tx.sender_pubkey@, signable_of(tx), tx.signature@)
    &&& rules_hold(tx)
}

impl Clone for Transaction {
    fn clone(&self) -> (c: Self)
        ensures
            c@ == self@,
            c.tx_type == self.tx_type,
            c.sender@ == self.sender@,
            c.receiver@ == self.receiver@,
            c.amount == self.amount,
            c.fee == self.fee,
            c.timestamp == self.timestamp,
            c.nonce == self.nonce,
            c.parent_1 == self.parent_1,
            c.parent_2 == self.parent_2,
            c.sender_pubkey == self.sender_pubkey,
            c.signature == self.signature,
            c.data@ == self.data@,
            signable_of(c) == signable_of(*self),
            tx_hash_of(c) == tx_hash_of(*self),
    {
        Transaction {
            tx_type: self.tx_type,
            sender: self.sender.clone(),
            receiver: self.receiver.clone(),
            amount: self.amount,
            fee: self.fee,
            timestamp: self.timestamp,
            nonce: self.nonce,
            parent_1: self.parent_1,
            parent_2: self.parent_2,
            sender_pubkey: self.sender_pubkey,
            signature: self.signature,
            data: self.data.clone(),
        }
    }
}

impl Transaction {
    /// The bytes the signature covers.
    pub fn signable_bytes(&self) -> (buf: Vec<u8>)
        ensures
            buf@ == signable_of(*self),
    {
        let mut buf: Vec<u8> = Vec::new();
        buf.push(type_code_of(self.tx_type));
        extend_bytes(&mut buf, self.sender.as_str().as_bytes());
        extend_bytes(&mut buf, self.receiver.as_str().as_bytes());
        push_u64_le(&mut buf, self.amount);
        push_u64_le(&mut buf, self.fee);
        push_u64_le(&mut buf, self.timestamp);
        push_u64_le(&mut buf, self.nonce);
        extend_bytes(&mut buf, self.parent_1.as_bytes());
        extend_bytes(&mut buf, self.parent_2.as_bytes());
        extend_bytes(&mut buf, self.sender_pubkey.as_bytes());
        push_u32_le(&mut buf, CHAIN_ID);
        if self.data.len() > 0 {
            push_u32_le(&mut buf, self.data.len() as u32);
            extend_bytes(&mut buf, self.data.as_slice());
        }
        proof {
            assert(buf@ =~= signable_of(*self));
        }
        buf
    }

    /// The transaction's hash: SHA3-256 over the signable bytes and the signature.
    pub fn hash(&self) -> (h: TransactionHash)
        ensures
            h.0@ == tx_hash_of(*self),
    {
        let signable = self.signable_bytes();
        let sig_bytes = self.signature.as_bytes();
        let parts: [&[u8]; 2] = [signable.as_slice(), sig_bytes.as_slice()];
        let digest = sha3_256_multi(parts.as_slice());
        proof {
            let views = parts@.map_values(|p: &[u8]| p@);
            assert(views =~= seq![signable@, self.signature@]);
            assert(views.drop_last() =~= seq![signable@]);
            assert(views.drop_last().drop_last() =~= Seq::<Seq<u8>>::empty());
            assert(concat_parts(views.drop_last().drop_last()) =~= Seq::<u8>::empty());
            assert(concat_parts(views.drop_last()) =~= signable@);
            assert(concat_parts(views) =~= signable@ + self.signature@);
        }
        TransactionHash(digest)
    }

    /// Verify the Ed25519 signature over the signable bytes.
    pub fn verify_signature(&self) -> (res: Result<()>)
        ensures
            res is Ok <==> signature_valid(self.sender_pubkey@, signable_of(*self), self.signature@),
    {
        let msg = self.signable_bytes();
        self.sender_pubkey.verify(msg.as_slice(), &self.signature)
    }

    /// Check that the sender is the standard address of the embedded public key.
    pub fn verify_sender(&self) -> (res: Result<()>)
        ensures
            res is Ok <==> sender_matches(*self),
            res matches Err(e) ==> (e matches RelyoError::InvalidTransaction(m) && m@
                == "sender address does not match public key"@),
    {
        let derived = Address::from_public_key(&self.sender_pubkey);
        if !derived.same(&self.sender) {
            return Err(
                RelyoError::InvalidTransaction(
                    String::from_str("sender address does not match public key"),
                ),
            );
        }
        Ok(())
    }

    /// Full validation: sender, signature, then the business rules, failing at the
    /// first check that does not hold.
    pub fn validate(&self) -> (res: Result<()>)
        ensures
            res is Ok <==> tx_valid(*self),
            !sender_matches(*self) ==> (res matches Err(RelyoError::InvalidTransaction(m)) && m@
                == "sender address does not match public key"@),
            sender_matches(*self) && !signature_valid(
                self.sender_pubkey@,
                signable_of(*self),
                self.signature@,
            ) ==> (res matches Err(e) && (e is Crypto || e is InvalidSignature)),
            sender_matches(*self) && signature_valid(
                self.sender_pubkey@,
                signable_of(*self),
                self.signature@,
            ) && !rules_hold(*self) ==> (res matches Err(e) && e is InvalidTransaction),
    {
        match self.verify_sender() {
            Err(e) => return Err(e),
            Ok(()) => {},
        }
        match self.verify_signature() {
            Err(e) => {
                proof {
                    assert(!signature_valid(self.sender_pubkey@, signable_of(*self), self.signature@));
                }
                let msg = self.signable_bytes();
                return self.sender_pubkey.verify(msg.as_slice(), &self.signature);
            },
            Ok(()) => {},
        }
        if self.amount == 0 && self.tx_type == TransactionType::Transfer {
            return Err(
                RelyoError::InvalidTransaction(
                    String::from_str("transfer amount must be greater than zero"),
                ),
            );
        }
        if self.sender.same(&self.receiver) && self.tx_type == TransactionType::Transfer {
            return Err(
                RelyoError::InvalidTransaction(
                    String::from_str("sender and receiver must differ for transfers"),
                ),
            );
        }
        if self.fee < BASE_FEE && !self.is_genesis() {
            return Err(RelyoError::InvalidTransaction(String::from_str("fee below minimum base fee")));
        }
        Ok(())
    }

    /// Whether this is a genesis transaction: genesis type and zero parents.
    pub fn is_genesis(&self) -> (g: bool)
        ensures
            g == is_genesis_tx(*self),
    {
        self.tx_type == TransactionType::Genesis && self.parent_1.is_zero() && self.parent_2.is_zero()
    }

    /// The priority of this transaction's fee.
    pub fn priority(&self) -> (p: TransactionPriority)
        ensures
            p == priority_of_fee(self.fee),
    {
        TransactionPriority::from_fee(self.fee)
    }

    /// Fee per thousand bytes of the transaction (signable bytes plus signature),
    /// the fee multiplied saturating at `u64::MAX`.
    pub fn weight(&self) -> (w: u64)
        ensures
            w == weight_of(*self),
    {
        let len = self.signable_bytes().len() as u64;
        let size = len.saturating_add(64);
        let scaled = match self.fee.checked_mul(1000) {
            Some(v) => v,
            None => u64::MAX,
        };
        scaled / size
    }

    /// Amount plus fee, saturating at `u64::MAX`.
    pub fn total_cost(&self) -> (c: u64)
        ensures
            c == (if self.amount + self.fee > u64::MAX { u64::MAX as int } else { self.amount + self.fee }),
    {
        self.amount.saturating_add(self.fee)
    }
}

/// Receipt issued once a transaction is finalized.
#[derive(Debug, Clone)]
pub struct TransactionReceipt {
    pub hash: TransactionHash,
    pub status: TransactionStatus,
    pub dag_depth: u64,
    pub cumulative_weight: u64,
    pub timestamp: u64,
    pub finalized_at: u64,
    pub consensus_rounds: u32,
}

/// Builder that assembles and signs transactions.
pub struct TransactionBuilder {
    pub tx_type: TransactionType,
    pub sender: Address,
    pub receiver: Address,
    pub amount: u64,
    pub fee: u64,
    pub nonce: u64,
    pub parent_1: TransactionHash,
    pub parent_2: TransactionHash,
    pub data: Vec<u8>,
}

impl TransactionBuilder {
    /// A transfer with zero parents and no data.
    pub fn new(sender: Address, receiver: Address, amount: u64, fee: u64, nonce: u64) -> (b: Self)
        ensures
            b.tx_type == TransactionType::Transfer,
            b.sender@ == sender@,
            b.receiver@ == receiver@,
            b.amount == amount,
            b.fee == fee,
            b.nonce == nonce,
            b.parent_1.0@ == zero_hash_bytes(),
            b.parent_2.0@ == zero_hash_bytes(),
            b.data@.len() == 0,
    {
        TransactionBuilder {
            tx_type: TransactionType::Transfer,
            sender,
            receiver,
            amount,
            fee,
            nonce,
            parent_1: TransactionHash::zero(),
            parent_2: TransactionHash::zero(),
            data: Vec::new(),
        }
    }

    /// Set the transaction type.
    pub fn tx_type(self, t: TransactionType) -> (b: Self)
        ensures
            b.tx_type == t,
            b.sender@ == self.sender@,
            b.receiver@ == self.receiver@,
            b.amount == self.amount,
            b.fee == self.fee,
            b.nonce == self.nonce,
            b.parent_1 == self.parent_1,
            b.parent_2 == self.parent_2,
            b.data@ == self.data@,
    {
        let mut b = self;
        b.tx_type = t;
        b
    }

    /// Set the two parents.
    pub fn parents(self, p1: TransactionHash, p2: TransactionHash) -> (b: Self)
        ensures
            b.tx_type == self.tx_type,
            b.sender@ == self.sender@,
            b.receiver@ == self.receiver@,
            b.amount == self.amount,
            b.fee == self.fee,
            b.nonce == self.nonce,
            b.parent_1 == p1,
            b.parent_2 == p2,
            b.data@ == self.data@,
    {
        let mut b = self;
        b.parent_1 = p1;
        b.parent_2 = p2;
        b
    }

    /// Attach a data payload.
    pub fn with_data(self, data: Vec<u8>) -> (b: Self)
        ensures
            b.tx_type == self.tx_type,
            b.sender@ == self.sender@,
            b.receiver@ == self.receiver@,
            b.amount == self.amount,
            b.fee == self.fee,
            b.nonce == self.nonce,
            b.parent_1 == self.parent_1,
            b.parent_2 == self.parent_2,
            b.data@ == data@,
    {
        let mut b = self;
        b.data = data;
        b
    }

    /// Stamp the current time and sign with the keypair: the signature is the
    /// keypair's signature of the signable bytes, and it verifies.
    pub fn sign(self, keypair: &KeyPair) -> (tx: Transaction)
        requires
            keypair.wf(),
        ensures
            tx.tx_type == self.tx_type,
            tx.sender@ == self.sender@,
            tx.receiver@ == self.receiver@,
            tx.amount == self.amount,
            tx.fee == self.fee,
            tx.nonce == self.nonce,
            tx.parent_1 == self.parent_1,
            tx.parent_2 == self.parent_2,
            tx.data@ == self.data@,
            tx.sender_pubkey == keypair.public_key,
            tx.signature@ == ed25519_signature_of(keypair.seed@, signable_of(tx)),
            signature_valid(tx.sender_pubkey@, signable_of(tx), tx.signature@),
    {
        let timestamp = now_ms();
        let mut tx = Transaction {
            tx_type: self.tx_type,
            sender: self.sender,
            receiver: self.receiver,
            amount: self.amount,
            fee: self.fee,
            timestamp,
            nonce: self.nonce,
            parent_1: self.parent_1,
            parent_2: self.parent_2,
            sender_pubkey: keypair.public_key,
            signature: Signature::from_bytes([0u8; 64]),
            data: self.data,
        };
        let msg = tx.signable_bytes();
        tx.signature = keypair.sign(msg.as_slice());
        tx
    }
}

/// The number of transactions among the first `n` whose signature does not verify.
pub open spec fn invalid_tx_count(txs: Seq<Transaction>, n: int) -> nat
    decreases n,
{
    if n <= 0 {
        0
    } else {
        invalid_tx_count(txs, n - 1) + if signature_valid(
            txs[n - 1].sender_pubkey@,
            signable_of(txs[n - 1]),
            txs[n - 1].signature@,
        ) {
            0nat
        } else {
            1nat
        }
    }
}

/// Verify the signatures of several transactions: `Ok` exactly when all verify,
/// else the number that do not.
pub fn batch_verify_transactions(txs: &[Transaction]) -> (res: Result<()>)
    ensures
        invalid_tx_count(txs@, txs@.len() as int) == 0 ==> res is Ok,
        invalid_tx_count(txs@, txs@.len() as int) > 0 ==> res == Err::<(), RelyoError>(
            RelyoError::BatchVerifyError {
                count: invalid_tx_count(txs@, txs@.len() as int) as usize,
                total: txs@.len() as usize,
            },
        ),
{
    let mut invalid: usize = 0;
    let mut i: usize = 0;
    while i < txs.len()
        invariant
            i <= txs@.len(),
            invalid == invalid_tx_count(txs@, i as int),
            invalid <= i,
        decreases txs@.len() - i,
    {
        if txs[i].verify_signature().is_err() {
            invalid = invalid + 1;
        }
        i = i + 1;
    }
    if invalid > 0 {
        Err(RelyoError::BatchVerifyError { count: invalid, total: txs.len() })
    } else {
        Ok(())
    }
}

/// Law: the signable bytes are the type code, the sender's and receiver's UTF-8
/// text, four 8-byte numbers, the two parents, the 32-byte public key and the
/// chain id (133 bytes besides the two addresses), then the data's 4-byte length
/// and the data when there is any; with no data they end in the chain id.
pub proof fn law_signable_layout(tx: Transaction)
    ensures
        signable_of(tx).len() == 133 + encode_utf8(tx.sender@).len() + encode_utf8(tx.receiver@).len() + (if tx.data@.len()
            == 0 {
            0
        } else {
            4 + tx.data@.len()
        }),
        signable_of(tx)[0] == type_code(tx.tx_type),
        tx.data@.len() == 0 ==> signable_of(tx).subrange(
            signable_of(tx).len() - 4,
            signable_of(tx).len() as int,
        ) == u32_le(CHAIN_ID),
{
    crate::crypto::lemma_public_key_len(tx.sender_pubkey);
    let b = signable_of(tx);
    if tx.data@.len() == 0 {
        assert(b.subrange(b.len() - 4, b.len() as int) =~= u32_le(CHAIN_ID));
    }
}

/// Law: the signature is not part of the signable bytes; two transactions that
/// differ only in their signatures sign the same bytes.
pub proof fn law_signable_ignores_signature(a: Transaction, b: Transaction)
    requires
        a@ == (TxView { signature: a@.signature, ..b@ }),
    ensures
        signable_of(a) == signable_of(b),
{
}

} // verus!
