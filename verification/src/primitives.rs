//! Protocol-level types of the UTXO model: hashes, outputs, inputs, transactions,
//! DAG vertices, UTXO entries, the emission schedule, peer information and errors.
use vstd::prelude::*;
use crate::bytes::{extend_bytes, push_u32_le, push_u64_le, u32_le, u64_le, u32_from_le, lemma_u32_le_roundtrip};
use crate::codec::{hex_bytes, hex_decode, hex_encode, hex_text};
use crate::emission::EmissionSchedule;
pub use crate::token::format_rly;
use crate::constants::{
    COINBASE_MATURITY, DECAY_FACTOR_BPS, DUST_THRESHOLD, EPOCH_DEPTH, MAX_MEMO_BYTES, MAX_TX_SIZE,
    MIN_DAG_PARENTS, PROTOCOL_VERSION, RLY_DECIMALS, RLY_UNIT, TOTAL_SUPPLY,
};

verus! {

// ─── Blake3 ────────────────────────────────────────────────────────────────

/// The Blake3 digest of a byte string (`blake3::hash`).
pub uninterp spec fn blake3_digest(data: Seq<u8>) -> Seq<u8>;

/// `blake3::hash(data).as_bytes()`: the result is `blake3_digest` of the input.
#[verifier::external_body]
pub(crate) fn blake3_hash(data: &[u8]) -> (out: [u8; 32])
    ensures
        out@ == blake3_digest(data@),
{
    *blake3::hash(data).as_bytes()
}

/// The 32 zero bytes.
pub open spec fn zero32() -> Seq<u8> {
    Seq::new(32, |i: int| 0u8)
}

/// Whether all 32 bytes are zero.
fn all_zero(b: &[u8; 32]) -> (z: bool)
    ensures
        z == (b@ == zero32()),
{
    let mut i: usize = 0;
    while i < 32
        invariant
            i <= 32,
            forall|j: int| 0 <= j < i ==> b@[j] == 0u8,
        decreases 32 - i,
    {
        if b[i] != 0 {
            assert(b@[i as int] != zero32()[i as int]);
            return false;
        }
        i = i + 1;
    }
    assert(b@ =~= zero32());
    true
}

/// Decodes a hex text holding exactly 32 bytes.
fn hex_to_32(s: &str) -> (res: core::result::Result<[u8; 32], RelyoError>)
    ensures
        match hex_bytes(s@) {
            None => (res matches Err(RelyoError::InvalidHex(t)) && t@ == s@),
            Some(b) => if b.len() == 32 {
                (res matches Ok(a) && a@ == b)
            } else {
                res == Err::<[u8; 32], RelyoError>(RelyoError::InvalidHashLength(b.len() as usize))
            },
        },
{
    let bytes = match hex_decode(s) {
        Ok(v) => v,
        Err(_) => return Err(RelyoError::InvalidHex(String::from_str(s))),
    };
    if bytes.len() != 32 {
        return Err(RelyoError::InvalidHashLength(bytes.len()));
    }
    let mut arr = [0u8; 32];
    let mut i: usize = 0;
    while i < 32
        invariant
            i <= 32,
            bytes@.len() == 32,
            forall|j: int| 0 <= j < i ==> arr@[j] == bytes@[j],
        decreases 32 - i,
    {
        arr[i] = bytes[i];
        i = i + 1;
    }
    assert(arr@ =~= bytes@);
    Ok(arr)
}

// ─── TxHash ────────────────────────────────────────────────────────────────

/// A 32-byte Blake3 hash identifying a transaction in the DAG.
#[derive(Clone, Copy, PartialEq, Eq, Hash, PartialOrd, Ord, Debug)]
pub struct TxHash(pub [u8; 32]);

/// Leading zero bits of the bytes `b[i..]`.
pub open spec fn leading_zeros_from(b: Seq<u8>, i: int) -> nat
    decreases 32 - i,
{
    if i >= 32 || i < 0 {
        0
    } else if b[i] == 0 {
        8 + leading_zeros_from(b, i + 1)
    } else {
        vstd::std_specs::bits::u8_leading_zeros(b[i]) as nat
    }
}

impl TxHash {
    /// The all-zero hash, the parent sentinel of genesis.
    pub fn zero() -> (h: Self)
        ensures
            h.0@ == zero32(),
    {
        let h = TxHash([0u8; 32]);
        assert(h.0@ =~= zero32());
        h
    }

    /// The Blake3 hash of arbitrary data.
    pub fn hash(data: &[u8]) -> (h: Self)
        ensures
            h.0@ == blake3_digest(data@),
    {
        TxHash(blake3_hash(data))
    }

    /// Create from raw bytes.
    pub fn from_bytes(bytes: [u8; 32]) -> (h: Self)
        ensures
            h.0 == bytes,
    {
        TxHash(bytes)
    }

    /// The underlying bytes.
    pub fn as_bytes(&self) -> (b: &[u8; 32])
        ensures
            *b == self.0,
    {
        &self.0
    }

    /// Whether this is the zero hash.
    pub fn is_zero(&self) -> (z: bool)
        ensures
            z == (self.0@ == zero32()),
    {
        all_zero(&self.0)
    }

    /// Lowercase hex text of the hash.
    pub fn to_hex(&self) -> (s: String)
        ensures
            s@ == hex_text(self.0@),
    {
        hex_encode(&self.0)
    }

    /// Decode from a hex text of 32 bytes.
    pub fn from_hex(s: &str) -> (res: core::result::Result<Self, RelyoError>)
        ensures
            match hex_bytes(s@) {
            None => (res matches Err(RelyoError::InvalidHex(t)) && t@ == s@),
            Some(b) => if b.len() == 32 {
                (res matches Ok(h) && h.0@ == b)
            } else {
                res == Err::<TxHash, RelyoError>(RelyoError::InvalidHashLength(b.len() as usize))
            },
        },
    {
        match hex_to_32(s) {
            Ok(a) => Ok(TxHash(a)),
            Err(e) => Err(e),
        }
    }

    /// Number of leading zero bits (proof-of-work difficulty).
    pub fn leading_zero_bits(&self) -> (z: u32)
        ensures
            z == leading_zeros_from(self.0@, 0),
            z <= 256,
    {
        let mut zeros: u32 = 0;
        let mut i: usize = 0;
        while i < 32
            invariant
                i <= 32,
                zeros == 8 * i,
                leading_zeros_from(self.0@, 0) == zeros + leading_zeros_from(self.0@, i as int),
                forall|j: int| 0 <= j < i ==> self.0@[j] == 0u8,
            decreases 32 - i,
        {
            let byte = self.0[i];
            if byte == 0 {
                zeros = zeros + 8;
            } else {
                proof {
                    vstd::std_specs::bits::axiom_u8_leading_zeros(byte);
                }
                let lz = byte.leading_zeros();
                return zeros + lz;
            }
            i = i + 1;
        }
        zeros
    }
}

/// Law: hex text of a hash decodes back to the same hash.
pub proof fn law_txhash_hex_roundtrip(h: TxHash, text: Seq<char>)
    requires
        text == hex_text(h.0@),
    ensures
        hex_bytes(text) matches Some(b) && b.len() == 32 && b == h.0@,
{
    crate::codec::law_hex_roundtrip(h.0@);
}

// ─── PubKeyHash ────────────────────────────────────────────────────────────

/// A pay-to-public-key-hash: the Blake3 hash of an Ed25519 public key.
#[derive(Clone, Copy, PartialEq, Eq, Hash, PartialOrd, Ord, Debug)]
pub struct PubKeyHash(pub [u8; 32]);

impl PubKeyHash {
    /// The hash of a 32-byte public key.
    pub fn from_pubkey_bytes(pubkey: &[u8; 32]) -> (h: Self)
        ensures
            h.0@ == blake3_digest(pubkey@),
    {
        PubKeyHash(blake3_hash(pubkey))
    }

    /// Create from raw bytes.
    pub fn from_bytes(bytes: [u8; 32]) -> (h: Self)
        ensures
            h.0 == bytes,
    {
        PubKeyHash(bytes)
    }

    pub fn as_bytes(&self) -> (b: &[u8; 32])
        ensures
            *b == self.0,
    {
        &self.0
    }

    /// Lowercase hex text of the hash.
    pub fn to_hex(&self) -> (s: String)
        ensures
            s@ == hex_text(self.0@),
    {
        hex_encode(&self.0)
    }

    /// The human-readable text: `rly1` followed by the Base58 of the hash.
    pub fn to_text(&self) -> (s: String)
        ensures
            s@ == "rly1"@ + crate::codec::base58_text(self.0@),
    {
        let mut s = String::from_str("rly1");
        s.append(crate::codec::base58_encode(&self.0).as_str());
        s
    }

    /// Decode from a hex text of 32 bytes.
    pub fn from_hex(s: &str) -> (res: core::result::Result<Self, RelyoError>)
        ensures
            match hex_bytes(s@) {
            None => (res matches Err(RelyoError::InvalidHex(t)) && t@ == s@),
            Some(b) => if b.len() == 32 {
                (res matches Ok(h) && h.0@ == b)
            } else {
                res == Err::<PubKeyHash, RelyoError>(RelyoError::InvalidHashLength(b.len() as usize))
            },
        },
    {
        match hex_to_32(s) {
            Ok(a) => Ok(PubKeyHash(a)),
            Err(e) => Err(e),
        }
    }

    /// Whether a public key hashes to this value.
    pub fn matches_pubkey(&self, pubkey: &[u8; 32]) -> (m: bool)
        ensures
            m == (blake3_digest(pubkey@) == self.0@),
    {
        let h = blake3_hash(pubkey);
        let m = crate::bytes::bytes_match(&h, 0, &self.0, 32);
        assert(h@.subrange(0, 32) =~= h@);
        assert(self.0@.subrange(0, 32) =~= self.0@);
        m
    }
}

// ─── UtxoId ────────────────────────────────────────────────────────────────

/// A UTXO: the hash of the creating transaction and the output's index in it.
#[derive(Debug, Clone, Copy, PartialEq, Eq, Hash, PartialOrd, Ord)]
pub struct UtxoId {
    pub tx_hash: TxHash,
    pub output_index: u32,
}

impl UtxoId {
    pub fn new(tx_hash: TxHash, output_index: u32) -> (id: Self)
        ensures
            id.tx_hash == tx_hash,
            id.output_index == output_index,
    {
        UtxoId { tx_hash, output_index }
    }

    /// The 36-byte storage key: the hash, then the index little-endian.
    pub fn to_key_bytes(&self) -> (key: [u8; 36])
        ensures
            key@ == self.tx_hash.0@ + u32_le(self.output_index),
    {
        let mut key = [0u8; 36];
        let mut i: usize = 0;
        while i < 32
            invariant
                i <= 32,
                forall|j: int| 0 <= j < i ==> key@[j] == self.tx_hash.0@[j],
            decreases 32 - i,
        {
            key[i] = self.tx_hash.0[i];
            i = i + 1;
        }
        let x = self.output_index;
        key[32] = x as u8;
        key[33] = (x >> 8) as u8;
        key[34] = (x >> 16) as u8;
        key[35] = (x >> 24) as u8;
        assert(key@ =~= self.tx_hash.0@ + u32_le(self.output_index));
        key
    }

    /// Decode a 36-byte storage key.
    pub fn from_key_bytes(key: &[u8; 36]) -> (id: Self)
        ensures
            id.tx_hash.0@ == key@.subrange(0, 32),
            id.output_index == u32_from_le(key@[32], key@[33], key@[34], key@[35]),
    {
        let mut hash = [0u8; 32];
        let mut i: usize = 0;
        while i < 32
            invariant
                i <= 32,
                forall|j: int| 0 <= j < i ==> hash@[j] == key@[j],
            decreases 32 - i,
        {
            hash[i] = key[i];
            i = i + 1;
        }
        assert(hash@ =~= key@.subrange(0, 32));
        let index = (key[32] as u32) | ((key[33] as u32) << 8) | ((key[34] as u32) << 16) | ((key[35] as u32) << 24);
        UtxoId { tx_hash: TxHash(hash), output_index: index }
    }
}

/// Law: decoding the storage key of a UTXO id gives the id back.
pub proof fn law_utxo_key_roundtrip(id: UtxoId, key: Seq<u8>, back: UtxoId)
    requires
        key == id.tx_hash.0@ + u32_le(id.output_index),
        back.tx_hash.0@ == key.subrange(0, 32),
        back.output_index == u32_from_le(key[32], key[33], key[34], key[35]),
    ensures
        back == id,
{
    lemma_u32_le_roundtrip(id.output_index);
    assert(key.subrange(0, 32) =~= id.tx_hash.0@);
    assert(back.tx_hash.0@ =~= id.tx_hash.0@);
    assert(back.tx_hash.0 == id.tx_hash.0);
}

// ─── Outputs and inputs ────────────────────────────────────────────────────

/// A transaction output, locking `amount` to a public-key hash.
#[derive(Debug, Clone, Copy, PartialEq, Eq)]
pub struct TxOutput {
    pub amount: u64,
    pub pubkey_hash: PubKeyHash,
}

impl TxOutput {
    pub fn new(amount: u64, pubkey_hash: PubKeyHash) -> (o: Self)
        ensures
            o.amount == amount,
            o.pubkey_hash == pubkey_hash,
    {
        TxOutput { amount, pubkey_hash }
    }

    /// Whether the output is below the dust threshold.
    pub fn is_dust(&self) -> (d: bool)
        ensures
            d == (self.amount < DUST_THRESHOLD),
    {
        self.amount < DUST_THRESHOLD
    }
}

/// An input spending an existing UTXO, with the spender's key and signature.
#[derive(Debug, Clone, PartialEq, Eq)]
pub struct TxInput {
    pub prev_output: UtxoId,
    pub signature: Vec<u8>,
    pub pubkey: [u8; 32],
}

impl TxInput {
    /// Whether the input's public key hashes to `expected_hash`.
    pub fn pubkey_matches(&self, expected_hash: &PubKeyHash) -> (m: bool)
        ensures
            m == (blake3_digest(self.pubkey@) == expected_hash.0@),
    {
        expected_hash.matches_pubkey(&self.pubkey)
    }
}

// ─── Transactions ──────────────────────────────────────────────────────────

/// Kind of a UTXO-model transaction.
#[derive(Debug, Clone, Copy, PartialEq, Eq, Hash, Structural)]
pub enum TransactionKind {
    /// A regular value transfer.
    Standard,
    /// A node-reward transaction (no inputs).
    Coinbase,
    /// The initial genesis distribution.
    Genesis,
}

/// The byte that encodes a transaction kind.
pub open spec fn kind_byte(k: TransactionKind) -> u8 {
    match k {
        TransactionKind::Standard => 0u8,
        TransactionKind::Coinbase => 1u8,
        TransactionKind::Genesis => 2u8,
    }
}

fn kind_to_byte(k: TransactionKind) -> (b: u8)
    ensures
        b == kind_byte(k),
{
    match k {
        TransactionKind::Standard => 0,
        TransactionKind::Coinbase => 1,
        TransactionKind::Genesis => 2,
    }
}

/// A UTXO-model transaction in the DAG.
#[derive(Debug, Clone, PartialEq, Eq)]
pub struct Transaction {
    pub version: u8,
    pub kind: TransactionKind,
    pub inputs: Vec<TxInput>,
    pub outputs: Vec<TxOutput>,
    pub dag_parents: Vec<TxHash>,
    pub timestamp: u64,
    pub fee: u64,
    pub memo: Vec<u8>,
}

/// The signed bytes of one input: the spent UTXO and the spender's key (not the signature).
pub open spec fn input_bytes(i: TxInput) -> Seq<u8> {
    i.prev_output.tx_hash.0@ + u32_le(i.prev_output.output_index) + i.pubkey@
}

pub open spec fn inputs_bytes(ins: Seq<TxInput>) -> Seq<u8>
    decreases ins.len(),
{
    if ins.len() == 0 {
        Seq::empty()
    } else {
        inputs_bytes(ins.drop_last()) + input_bytes(ins.last())
    }
}

pub open spec fn outputs_bytes(outs: Seq<TxOutput>) -> Seq<u8>
    decreases outs.len(),
{
    if outs.len() == 0 {
        Seq::empty()
    } else {
        outputs_bytes(outs.drop_last()) + u64_le(outs.last().amount) + outs.last().pubkey_hash.0@
    }
}

pub open spec fn parents_bytes(ps: Seq<TxHash>) -> Seq<u8>
    decreases ps.len(),
{
    if ps.len() == 0 {
        Seq::empty()
    } else {
        parents_bytes(ps.drop_last()) + ps.last().0@
    }
}

/// The byte string signers commit to: every field except the input signatures.
pub open spec fn utxo_signable_bytes(tx: Transaction) -> Seq<u8> {
    seq![tx.version, kind_byte(tx.kind)]
        + u32_le(tx.inputs@.len() as u32) + inputs_bytes(tx.inputs@)
        + u32_le(tx.outputs@.len() as u32) + outputs_bytes(tx.outputs@)
        + u32_le(tx.dag_parents@.len() as u32) + parents_bytes(tx.dag_parents@)
        + u64_le(tx.timestamp) + u64_le(tx.fee)
        + u32_le(tx.memo@.len() as u32) + tx.memo@
}

/// Saturating sum of output amounts.
pub open spec fn outputs_total(outs: Seq<TxOutput>) -> u64
    decreases outs.len(),
{
    if outs.len() == 0 {
        0
    } else {
        let prev = outputs_total(outs.drop_last());
        if prev + outs.last().amount > u64::MAX {
            u64::MAX
        } else {
            (prev + outs.last().amount) as u64
        }
    }
}

/// Length of the transaction's bincode encoding (fixed-width integers, `u64` lengths,
/// `u32` enum tags).
pub open spec fn encoded_len(tx: Transaction) -> int {
    1 + 4 + 8 + inputs_encoded_len(tx.inputs@) + 8 + 40 * tx.outputs@.len() + 8 + 32
        * tx.dag_parents@.len() + 8 + 8 + 8 + tx.memo@.len()
}

pub open spec fn inputs_encoded_len(ins: Seq<TxInput>) -> int
    decreases ins.len(),
{
    if ins.len() == 0 {
        0
    } else {
        inputs_encoded_len(ins.drop_last()) + 36 + 8 + ins.last().signature@.len() + 32
    }
}

/// Why a transaction's structure is invalid, in the order the checks run; `None` if valid.
pub open spec fn structure_error(tx: Transaction) -> Option<RelyoError> {
    if tx.version != PROTOCOL_VERSION {
        Some(RelyoError::UnsupportedVersion(tx.version))
    } else if tx.outputs@.len() == 0 {
        Some(RelyoError::NoOutputs)
    } else if exists|i: int| 0 <= i < tx.outputs@.len() && tx.outputs@[i].amount < DUST_THRESHOLD {
        let i = first_dust(tx.outputs@, 0);
        Some(RelyoError::DustOutput { index: i as u32, amount: tx.outputs@[i].amount, threshold: DUST_THRESHOLD })
    } else if tx.memo@.len() > MAX_MEMO_BYTES {
        Some(RelyoError::MemoTooLarge { size: tx.memo@.len() as usize, max: MAX_MEMO_BYTES })
    } else if tx.kind == TransactionKind::Standard && tx.inputs@.len() == 0 {
        Some(RelyoError::NoInputs)
    } else if tx.kind != TransactionKind::Standard && tx.inputs@.len() != 0 {
        Some(RelyoError::CoinbaseWithInputs)
    } else if tx.kind != TransactionKind::Genesis && tx.dag_parents@.len() < MIN_DAG_PARENTS {
        Some(RelyoError::InsufficientParents { have: tx.dag_parents@.len() as usize, need: MIN_DAG_PARENTS })
    } else if encoded_len(tx) > MAX_TX_SIZE {
        Some(RelyoError::TransactionTooLarge { size: sat_u64(encoded_len(tx)) as usize, max: MAX_TX_SIZE })
    } else {
        None
    }
}

/// Index of the first dust output at or after `from`.
pub open spec fn first_dust(outs: Seq<TxOutput>, from: int) -> int
    decreases outs.len() - from,
{
    if from >= outs.len() || from < 0 {
        from
    } else if outs[from].amount < DUST_THRESHOLD {
        from
    } else {
        first_dust(outs, from + 1)
    }
}

proof fn lemma_first_dust(outs: Seq<TxOutput>, from: int)
    requires
        0 <= from <= outs.len(),
        exists|i: int| from <= i < outs.len() && outs[i].amount < DUST_THRESHOLD,
    ensures
        from <= first_dust(outs, from) < outs.len(),
        outs[first_dust(outs, from)].amount < DUST_THRESHOLD,
        forall|j: int| from <= j < first_dust(outs, from) ==> outs[j].amount >= DUST_THRESHOLD,
    decreases outs.len() - from,
{
    if outs[from].amount >= DUST_THRESHOLD {
        let w = choose|i: int| from <= i < outs.len() && outs[i].amount < DUST_THRESHOLD;
        assert(w != from);
        lemma_first_dust(outs, from + 1);
    }
}

impl Transaction {
    /// The transaction's hash: Blake3 of its signable bytes (signatures excluded).
    pub fn hash(&self) -> (h: TxHash)
        ensures
            h.0@ == blake3_digest(utxo_signable_bytes(*self)),
    {
        TxHash::hash(self.signable_bytes().as_slice())
    }

    /// The bytes signers commit to.
    pub fn signable_bytes(&self) -> (buf: Vec<u8>)
        ensures
            buf@ == utxo_signable_bytes(*self),
    {
        let mut buf: Vec<u8> = Vec::with_capacity(512);
        buf.push(self.version);
        buf.push(kind_to_byte(self.kind));
        push_u32_le(&mut buf, self.inputs.len() as u32);
        let ghost start = buf@;
        let mut i: usize = 0;
        while i < self.inputs.len()
            invariant
                i <= self.inputs@.len(),
                buf@ == start + inputs_bytes(self.inputs@.take(i as int)),
            decreases self.inputs@.len() - i,
        {
            let inp = &self.inputs[i];
            extend_bytes(&mut buf, inp.prev_output.tx_hash.as_bytes());
            push_u32_le(&mut buf, inp.prev_output.output_index);
            extend_bytes(&mut buf, &inp.pubkey);
            assert(self.inputs@.take(i + 1).drop_last() =~= self.inputs@.take(i as int));
            i = i + 1;
        }
        assert(self.inputs@.take(self.inputs@.len() as int) =~= self.inputs@);
        push_u32_le(&mut buf, self.outputs.len() as u32);
        let ghost start2 = buf@;
        let mut i: usize = 0;
        while i < self.outputs.len()
            invariant
                i <= self.outputs@.len(),
                buf@ == start2 + outputs_bytes(self.outputs@.take(i as int)),
            decreases self.outputs@.len() - i,
        {
            let out = &self.outputs[i];
            push_u64_le(&mut buf, out.amount);
            extend_bytes(&mut buf, out.pubkey_hash.as_bytes());
            assert(self.outputs@.take(i + 1).drop_last() =~= self.outputs@.take(i as int));
            i = i + 1;
        }
        assert(self.outputs@.take(self.outputs@.len() as int) =~= self.outputs@);
        push_u32_le(&mut buf, self.dag_parents.len() as u32);
        let ghost start3 = buf@;
        let mut i: usize = 0;
        while i < self.dag_parents.len()
            invariant
                i <= self.dag_parents@.len(),
                buf@ == start3 + parents_bytes(self.dag_parents@.take(i as int)),
            decreases self.dag_parents@.len() - i,
        {
            extend_bytes(&mut buf, self.dag_parents[i].as_bytes());
            assert(self.dag_parents@.take(i + 1).drop_last() =~= self.dag_parents@.take(i as int));
            i = i + 1;
        }
        assert(self.dag_parents@.take(self.dag_parents@.len() as int) =~= self.dag_parents@);
        push_u64_le(&mut buf, self.timestamp);
        push_u64_le(&mut buf, self.fee);
        push_u32_le(&mut buf, self.memo.len() as u32);
        extend_bytes(&mut buf, self.memo.as_slice());
        assert(buf@ =~= utxo_signable_bytes(*self));
        buf
    }

    /// Saturating total of all output amounts.
    pub fn total_output(&self) -> (t: u64)
        ensures
            t == outputs_total(self.outputs@),
    {
        let mut total: u64 = 0;
        let mut i: usize = 0;
        while i < self.outputs.len()
            invariant
                i <= self.outputs@.len(),
                total == outputs_total(self.outputs@.take(i as int)),
            decreases self.outputs@.len() - i,
        {
            total = total.saturating_add(self.outputs[i].amount);
            assert(self.outputs@.take(i + 1).drop_last() =~= self.outputs@.take(i as int));
            i = i + 1;
        }
        assert(self.outputs@.take(self.outputs@.len() as int) =~= self.outputs@);
        total
    }

    /// Whether this is a genesis transaction.
    pub fn is_genesis(&self) -> (g: bool)
        ensures
            g == (self.kind == TransactionKind::Genesis),
    {
        self.kind == TransactionKind::Genesis
    }

    /// Whether this is a coinbase (node-reward) transaction.
    pub fn is_coinbase(&self) -> (c: bool)
        ensures
            c == (self.kind == TransactionKind::Coinbase),
    {
        self.kind == TransactionKind::Coinbase
    }

    /// Length of the transaction's bincode encoding, saturated at `u64::MAX`.
    pub fn encoded_size(&self) -> (n: u64)
        ensures
            n == sat_u64(encoded_len(*self)),
    {
        let mut ins: u64 = 0;
        let mut i: usize = 0;
        while i < self.inputs.len()
            invariant
                i <= self.inputs@.len(),
                ins == sat_u64(inputs_encoded_len(self.inputs@.take(i as int))),
                inputs_encoded_len(self.inputs@.take(i as int)) >= 0,
            decreases self.inputs@.len() - i,
        {
            assert(self.inputs@.take(i + 1).drop_last() =~= self.inputs@.take(i as int));
            let sig_len = self.inputs[i].signature.len() as u64;
            ins = ins.saturating_add(76).saturating_add(sig_len);
            i = i + 1;
        }
        assert(self.inputs@.take(self.inputs@.len() as int) =~= self.inputs@);
        let outs = sat_mul(40, self.outputs.len() as u64);
        let parents = sat_mul(32, self.dag_parents.len() as u64);
        let total = ins.saturating_add(53).saturating_add(outs).saturating_add(parents).saturating_add(self.memo.len() as u64);
        assert(encoded_len(*self) == inputs_encoded_len(self.inputs@) + 53 + 40 * self.outputs@.len()
            + 32 * self.dag_parents@.len() + self.memo@.len());
        total
    }

    /// Check every structural rule (not signatures or UTXO existence).
    pub fn validate_structure(&self) -> (res: core::result::Result<(), RelyoError>)
        ensures
            structure_error(*self) is None ==> res is Ok,
            structure_error(*self) matches Some(e) ==> res == Err::<(), RelyoError>(e),
    {
        if self.version != PROTOCOL_VERSION {
            return Err(RelyoError::UnsupportedVersion(self.version));
        }
        if self.outputs.len() == 0 {
            return Err(RelyoError::NoOutputs);
        }
        let mut i: usize = 0;
        while i < self.outputs.len()
            invariant
                i <= self.outputs@.len(),
                self.version == PROTOCOL_VERSION,
                self.outputs@.len() > 0,
                forall|j: int| 0 <= j < i ==> self.outputs@[j].amount >= DUST_THRESHOLD,
            decreases self.outputs@.len() - i,
        {
            if self.outputs[i].is_dust() {
                proof {
                    assert(self.outputs@[i as int].amount < DUST_THRESHOLD);
                    lemma_first_dust(self.outputs@, 0);
                    let f = first_dust(self.outputs@, 0);
                    if f < i {
                        assert(self.outputs@[f].amount >= DUST_THRESHOLD);
                    }
                    assert(f == i);
                    assert(exists|j: int| 0 <= j < self.outputs@.len() && self.outputs@[j].amount < DUST_THRESHOLD);
                    assert(structure_error(*self) == Some(RelyoError::DustOutput { index: i as u32, amount: self.outputs@[i as int].amount, threshold: DUST_THRESHOLD }));
                }
                return Err(RelyoError::DustOutput { index: i as u32, amount: self.outputs[i].amount, threshold: DUST_THRESHOLD });
            }
            i = i + 1;
        }
        if self.memo.len() > MAX_MEMO_BYTES {
            return Err(RelyoError::MemoTooLarge { size: self.memo.len(), max: MAX_MEMO_BYTES });
        }
        match self.kind {
            TransactionKind::Standard => {
                if self.inputs.len() == 0 {
                    return Err(RelyoError::NoInputs);
                }
                if self.dag_parents.len() < MIN_DAG_PARENTS {
                    return Err(RelyoError::InsufficientParents { have: self.dag_parents.len(), need: MIN_DAG_PARENTS });
                }
            },
            TransactionKind::Coinbase => {
                if self.inputs.len() != 0 {
                    return Err(RelyoError::CoinbaseWithInputs);
                }
                if self.dag_parents.len() < MIN_DAG_PARENTS {
                    return Err(RelyoError::InsufficientParents { have: self.dag_parents.len(), need: MIN_DAG_PARENTS });
                }
            },
            TransactionKind::Genesis => {
                if self.inputs.len() != 0 {
                    return Err(RelyoError::CoinbaseWithInputs);
                }
            },
        }
        assert(!(exists|j: int| 0 <= j < self.outputs@.len() && self.outputs@[j].amount < DUST_THRESHOLD));
        let size = self.encoded_size();
        assert(self.kind == TransactionKind::Standard ==> self.inputs@.len() != 0);
        assert(self.kind != TransactionKind::Standard ==> self.inputs@.len() == 0);
        assert(self.kind != TransactionKind::Genesis ==> self.dag_parents@.len() >= MIN_DAG_PARENTS);
        proof {
            lemma_inputs_len_nonneg(self.inputs@);
        }
        assert(size == sat_u64(encoded_len(*self)));
        assert(size > MAX_TX_SIZE as u64 <==> encoded_len(*self) > MAX_TX_SIZE);
        if size > MAX_TX_SIZE as u64 {
            return Err(RelyoError::TransactionTooLarge { size: size as usize, max: MAX_TX_SIZE });
        }
        Ok(())
    }
}

proof fn lemma_inputs_len_nonneg(ins: Seq<TxInput>)
    ensures
        inputs_encoded_len(ins) >= 0,
    decreases ins.len(),
{
    if ins.len() > 0 {
        lemma_inputs_len_nonneg(ins.drop_last());
    }
}

/// `x` saturated at `u64::MAX`.
pub open spec fn sat_u64(x: int) -> u64 {
    if x > u64::MAX {
        u64::MAX
    } else {
        x as u64
    }
}

/// `a * b` saturated at `u64::MAX`.
fn sat_mul(a: u64, b: u64) -> (p: u64)
    ensures
        p == sat_u64(a * b),
{
    match a.checked_mul(b) {
        Some(v) => v,
        None => u64::MAX,
    }
}

/// Two transactions that agree on everything but their input signatures
/// commit to the same bytes, so they have the same hash.
pub proof fn law_hash_ignores_signatures(a: Transaction, b: Transaction)
    requires
        a.version == b.version,
        a.kind == b.kind,
        a.outputs@ == b.outputs@,
        a.dag_parents@ == b.dag_parents@,
        a.timestamp == b.timestamp,
        a.fee == b.fee,
        a.memo@ == b.memo@,
        a.inputs@.len() == b.inputs@.len(),
        forall|i: int|
            0 <= i < a.inputs@.len() ==> #[trigger] a.inputs@[i].prev_output == b.inputs@[i].prev_output
                && a.inputs@[i].pubkey == b.inputs@[i].pubkey,
    ensures
        utxo_signable_bytes(a) == utxo_signable_bytes(b),
        blake3_digest(utxo_signable_bytes(a)) == blake3_digest(utxo_signable_bytes(b)),
{
    lemma_inputs_bytes_ignore_signatures(a.inputs@, b.inputs@);
}

proof fn lemma_inputs_bytes_ignore_signatures(x: Seq<TxInput>, y: Seq<TxInput>)
    requires
        x.len() == y.len(),
        forall|i: int|
            0 <= i < x.len() ==> #[trigger] x[i].prev_output == y[i].prev_output && x[i].pubkey
                == y[i].pubkey,
    ensures
        inputs_bytes(x) == inputs_bytes(y),
    decreases x.len(),
{
    if x.len() > 0 {
        let (xs, ys) = (x.drop_last(), y.drop_last());
        assert forall|i: int| 0 <= i < xs.len() implies #[trigger] xs[i].prev_output
            == ys[i].prev_output && xs[i].pubkey == ys[i].pubkey by {
            assert(x[i].prev_output == y[i].prev_output);
        }
        lemma_inputs_bytes_ignore_signatures(xs, ys);
        assert(x[x.len() - 1].prev_output == y[y.len() - 1].prev_output);
    }
}

// ─── Transaction status and DAG vertices ───────────────────────────────────

/// The lifecycle state of a transaction within the DAG.
#[derive(Debug, Clone, Copy, PartialEq, Eq, Hash, Structural)]
pub enum TxStatus {
    /// Inserted into the DAG but not yet deeply confirmed.
    Pending,
    /// Gaining confirmation depth.
    Confirming,
    /// Deeply confirmed and final.
    Confirmed,
    /// Rejected due to a conflict.
    Rejected,
    /// Parents missing or invalid.
    Orphaned,
}

/// The display text of a status.
pub open spec fn tx_status_text(s: TxStatus) -> Seq<char> {
    match s {
        TxStatus::Pending => "pending"@,
        TxStatus::Confirming => "confirming"@,
        TxStatus::Confirmed => "confirmed"@,
        TxStatus::Rejected => "rejected"@,
        TxStatus::Orphaned => "orphaned"@,
    }
}

impl TxStatus {
    /// The lower-case name of the status.
    pub fn to_text(&self) -> (s: String)
        ensures
            s@ == tx_status_text(*self),
    {
        match self {
            TxStatus::Pending => String::from_str("pending"),
            TxStatus::Confirming => String::from_str("confirming"),
            TxStatus::Confirmed => String::from_str("confirmed"),
            TxStatus::Rejected => String::from_str("rejected"),
            TxStatus::Orphaned => String::from_str("orphaned"),
        }
    }
}

/// A transaction vertex in the DAG with its ordering metadata.
#[derive(Debug, Clone)]
pub struct DagNode {
    /// The underlying transaction.
    pub tx: Transaction,
    /// Blake3 hash of the transaction.
    pub hash: TxHash,
    /// GHOSTDAG blue score.
    pub blue_score: u64,
    /// Cumulative weight: 1 + the weights of all descendants.
    pub cumulative_weight: u64,
    /// Transactions that reference this one as a parent.
    pub children: Vec<TxHash>,
    /// Whether the vertex is in the blue set.
    pub is_blue: bool,
    /// Current lifecycle status.
    pub status: TxStatus,
    /// Longest path from genesis to this vertex.
    pub depth: u64,
}

impl DagNode {
    /// A fresh vertex for a transaction: weight 1, no children, blue, pending.
    pub fn new(tx: Transaction, depth: u64, blue_score: u64) -> (n: Self)
        ensures
            n.tx == tx,
            n.hash.0@ == blake3_digest(utxo_signable_bytes(tx)),
            n.blue_score == blue_score,
            n.cumulative_weight == 1,
            n.children@.len() == 0,
            n.is_blue,
            n.status == TxStatus::Pending,
            n.depth == depth,
    {
        let hash = tx.hash();
        DagNode {
            tx,
            hash,
            blue_score,
            cumulative_weight: 1,
            children: Vec::new(),
            is_blue: true,
            status: TxStatus::Pending,
            depth,
        }
    }

    /// How many depth levels lie above this vertex (zero when it is the deepest).
    pub fn confirmation_depth(&self, current_max_depth: u64) -> (d: u64)
        ensures
            d == (if current_max_depth >= self.depth { current_max_depth - self.depth } else { 0 }),
    {
        if current_max_depth >= self.depth {
            current_max_depth - self.depth
        } else {
            0
        }
    }
}

// ─── UTXO entries ──────────────────────────────────────────────────────────

/// A tracked unspent transaction output.
#[derive(Debug, Clone, PartialEq, Eq)]
pub struct UtxoEntry {
    /// Unique identifier (tx hash + output index).
    pub id: UtxoId,
    /// The output data.
    pub output: TxOutput,
    /// DAG depth at which the output was created.
    pub created_at_depth: u64,
    /// Whether the output comes from a coinbase transaction.
    pub is_coinbase: bool,
}

impl UtxoEntry {
    /// Whether the output can be spent at the given depth: coinbase outputs wait
    /// `COINBASE_MATURITY` levels, others are spendable at once.
    pub fn is_spendable_at_depth(&self, current_depth: u64) -> (ok: bool)
        requires
            self.is_coinbase ==> self.created_at_depth + COINBASE_MATURITY <= u64::MAX,
        ensures
            ok == (!self.is_coinbase || current_depth >= self.created_at_depth + COINBASE_MATURITY),
    {
        if self.is_coinbase {
            current_depth >= self.created_at_depth + COINBASE_MATURITY
        } else {
            true
        }
    }

    /// The amount of the output.
    pub fn amount(&self) -> (a: u64)
        ensures
            a == self.output.amount,
    {
        self.output.amount
    }
}

// ─── Peers, rewards, genesis ───────────────────────────────────────────────

/// Information about a peer in the P2P network.
#[derive(Debug, Clone)]
pub struct PeerInfo {
    /// Peer identifier.
    pub peer_id: String,
    /// Known multiaddresses of the peer.
    pub addresses: Vec<String>,
    /// The proof-of-work challenge the peer must solve.
    pub pow_challenge: [u8; 32],
    /// The nonce solving the challenge.
    pub pow_solution: u64,
    /// Last message time (ms since the epoch).
    pub last_seen: u64,
    /// Reputation (-100 banned .. 100 excellent).
    pub reputation: i64,
    /// Reported protocol version.
    pub version: String,
    /// Bytes relayed by the peer.
    pub bytes_relayed: u64,
    /// Valid transactions relayed.
    pub valid_tx_relayed: u64,
    /// Invalid transactions relayed.
    pub invalid_tx_relayed: u64,
}

impl PeerInfo {
    /// A peer is banned once its reputation is -50 or lower.
    pub fn is_banned(&self) -> (b: bool)
        ensures
            b == (self.reputation <= -50),
    {
        self.reputation <= -50
    }
}

/// Rewards earned by a node runner in one epoch.
#[derive(Debug, Clone)]
pub struct NodeRewardInfo {
    /// The node's reward key hash.
    pub node_pubkey_hash: PubKeyHash,
    /// Epoch number.
    pub epoch: u64,
    /// Reward amount in base units.
    pub amount: u64,
    /// Transactions validated in the epoch.
    pub txs_validated: u64,
    /// Transactions propagated in the epoch.
    pub txs_propagated: u64,
}

/// The immutable initial state of the DAG.
#[derive(Debug, Clone)]
pub struct GenesisData {
    /// Message embedded in genesis.
    pub message: String,
    /// Hash of the genesis data (chain id).
    pub genesis_hash: TxHash,
    /// Creation time.
    pub timestamp: u64,
    /// Supply committed at genesis.
    pub total_supply: u64,
    /// Emission parameters, locked at genesis.
    pub emission: EmissionSchedule,
    /// Protocol version.
    pub protocol_version: u8,
    /// Chain id.
    pub chain_id: u32,
    /// Dust threshold.
    pub dust_threshold: u64,
}

/// Static metadata about the token.
#[derive(Debug, Clone)]
pub struct TokenConfig {
    pub name: &'static str,
    pub ticker: &'static str,
    pub total_supply: u64,
    pub decimals: u8,
    pub dust_threshold: u64,
}

/// The canonical token metadata.
pub fn token_config() -> (c: TokenConfig)
    ensures
        c.name@ == "Relyo"@,
        c.ticker@ == "RLY"@,
        c.total_supply == TOTAL_SUPPLY,
        c.decimals == RLY_DECIMALS,
        c.dust_threshold == DUST_THRESHOLD,
{
    TokenConfig {
        name: "Relyo",
        ticker: "RLY",
        total_supply: TOTAL_SUPPLY,
        decimals: RLY_DECIMALS,
        dust_threshold: DUST_THRESHOLD,
    }
}

/// Whole RLY to base units, saturating at `u64::MAX`.
pub fn rly_to_base(rly: u64) -> (base: u64)
    ensures
        base == sat_u64(rly * RLY_UNIT),
{
    sat_mul(rly, RLY_UNIT)
}

/// Milliseconds since the UNIX epoch from the system clock (`SystemTime::now`),
/// zero if the clock is before the epoch. Nothing is promised of the value.
#[verifier::external_body]
pub fn now_ms() -> u64 {
    let since = std::time::SystemTime::now().duration_since(std::time::UNIX_EPOCH);
    since.unwrap_or_default().as_millis() as u64
}

// ─── Errors ────────────────────────────────────────────────────────────────

/// Every failure of the UTXO-model protocol.
#[derive(Debug, Clone)]
pub enum RelyoError {
    NoInputs,
    NoOutputs,
    DustOutput { index: u32, amount: u64, threshold: u64 },
    MemoTooLarge { size: usize, max: usize },
    InsufficientParents { have: usize, need: usize },
    CoinbaseWithInputs,
    TransactionTooLarge { size: usize, max: usize },
    UnsupportedVersion(u8),
    InsufficientPow { have: u32, need: u32 },
    UtxoNotFound(UtxoId),
    UtxoAlreadySpent(UtxoId),
    CoinbaseNotMature { need: u64, current: u64 },
    InsufficientFunds { input_total: u64, output_total: u64, fee: u64 },
    DoubleSpend(UtxoId),
    InvalidSignature { input_index: usize },
    PubKeyMismatch { input_index: usize },
    ParentNotFound(TxHash),
    DuplicateTransaction(TxHash),
    CycleDetected(TxHash),
    InvalidHex(String),
    InvalidHashLength(usize),
    Serialization(String),
    PeerPowFailed,
    PeerBanned(String),
    RateLimited(String),
    Storage(String),
    Other(String),
}

/// Result alias of the UTXO-model protocol.
pub type Result<T> = core::result::Result<T, RelyoError>;

/// The text of a UTXO id: its transaction's hash in hex, a colon and the output index.
pub open spec fn utxo_id_text(id: UtxoId) -> Seq<char> {
    hex_text(id.tx_hash.0@) + ":"@ + crate::token::decimal(id.output_index as nat)
}

/// The message an error reports.
pub open spec fn error_message(e: RelyoError) -> Seq<char> {
    match e {
        RelyoError::NoInputs => "transaction has no inputs"@,
        RelyoError::NoOutputs => "transaction has no outputs"@,
        RelyoError::DustOutput { index, amount, threshold } => "dust output at index "@ + crate::token::decimal(
            index as nat,
        ) + ": "@ + crate::token::decimal(amount as nat) + " < threshold "@ + crate::token::decimal(threshold as nat),
        RelyoError::MemoTooLarge { size, max } => "memo too large: "@ + crate::token::decimal(size as nat)
            + " bytes (max "@ + crate::token::decimal(max as nat) + ")"@,
        RelyoError::InsufficientParents { have, need } => "insufficient DAG parents: have "@
            + crate::token::decimal(have as nat) + ", need "@ + crate::token::decimal(need as nat),
        RelyoError::CoinbaseWithInputs => "coinbase transaction must not have inputs"@,
        RelyoError::TransactionTooLarge { size, max } => "transaction too large: "@ + crate::token::decimal(
            size as nat,
        ) + " bytes (max "@ + crate::token::decimal(max as nat) + ")"@,
        RelyoError::UnsupportedVersion(v) => "unsupported protocol version: "@ + crate::token::decimal(v as nat),
        RelyoError::InsufficientPow { have, need } => "proof-of-work insufficient: "@ + crate::token::decimal(
            have as nat,
        ) + " leading zeros (need "@ + crate::token::decimal(need as nat) + ")"@,
        RelyoError::UtxoNotFound(id) => "UTXO not found: "@ + utxo_id_text(id),
        RelyoError::UtxoAlreadySpent(id) => "UTXO already spent: "@ + utxo_id_text(id),
        RelyoError::CoinbaseNotMature { need, current } => "coinbase UTXO not mature: need "@
            + crate::token::decimal(need as nat) + " depth, currently at "@ + crate::token::decimal(current as nat),
        RelyoError::InsufficientFunds { input_total, output_total, fee } => "input total "@ + crate::token::decimal(
            input_total as nat,
        ) + " < output total "@ + crate::token::decimal(output_total as nat) + " + fee "@ + crate::token::decimal(
            fee as nat,
        ),
        RelyoError::DoubleSpend(id) => "double spend detected: UTXO "@ + utxo_id_text(id)
            + " spent by conflicting transactions"@,
        RelyoError::InvalidSignature { input_index } => "invalid signature on input "@ + crate::token::decimal(
            input_index as nat,
        ),
        RelyoError::PubKeyMismatch { input_index } => "public key does not match UTXO pubkey hash on input "@
            + crate::token::decimal(input_index as nat),
        RelyoError::ParentNotFound(h) => "parent transaction not found: "@ + hex_text(h.0@),
        RelyoError::DuplicateTransaction(h) => "duplicate transaction: "@ + hex_text(h.0@),
        RelyoError::CycleDetected(h) => "DAG cycle detected involving "@ + hex_text(h.0@),
        RelyoError::InvalidHex(m) => "invalid hex string: "@ + m@,
        RelyoError::InvalidHashLength(n) => "invalid hash length: expected 32 bytes, got "@ + crate::token::decimal(
            n as nat,
        ),
        RelyoError::Serialization(m) => "serialization error: "@ + m@,
        RelyoError::PeerPowFailed => "peer PoW challenge failed"@,
        RelyoError::PeerBanned(m) => "peer is banned: "@ + m@,
        RelyoError::RateLimited(m) => "rate limit exceeded for "@ + m@,
        RelyoError::Storage(m) => "storage error: "@ + m@,
        RelyoError::Other(m) => m@,
    }
}

/// `text` followed by the decimal digits of `n`.
fn with_decimal(text: &str, n: u64) -> (s: String)
    ensures
        s@ == text@ + crate::token::decimal(n as nat),
{
    let mut s = String::from_str(text);
    s.append(crate::token::decimal_string(n).as_str());
    s
}

impl UtxoId {
    /// The text of the id: the transaction hash in hex, a colon and the output index.
    pub fn to_text(&self) -> (s: String)
        ensures
            s@ == utxo_id_text(*self),
    {
        let mut s = self.tx_hash.to_hex();
        s.append(":");
        s.append(crate::token::decimal_string(self.output_index as u64).as_str());
        s
    }
}

impl RelyoError {
    /// The message this error reports.
    pub fn message(&self) -> (m: String)
        ensures
            m@ == error_message(*self),
    {
        match self {
            RelyoError::NoInputs => String::from_str("transaction has no inputs"),
            RelyoError::NoOutputs => String::from_str("transaction has no outputs"),
            RelyoError::DustOutput { index, amount, threshold } => {
                let mut s = with_decimal("dust output at index ", *index as u64);
                s.append(with_decimal(": ", *amount).as_str());
                s.append(with_decimal(" < threshold ", *threshold).as_str());
                s
            },
            RelyoError::MemoTooLarge { size, max } => {
                let mut s = with_decimal("memo too large: ", *size as u64);
                s.append(with_decimal(" bytes (max ", *max as u64).as_str());
                s.append(")");
                s
            },
            RelyoError::InsufficientParents { have, need } => {
                let mut s = with_decimal("insufficient DAG parents: have ", *have as u64);
                s.append(with_decimal(", need ", *need as u64).as_str());
                s
            },
            RelyoError::CoinbaseWithInputs => String::from_str("coinbase transaction must not have inputs"),
            RelyoError::TransactionTooLarge { size, max } => {
                let mut s = with_decimal("transaction too large: ", *size as u64);
                s.append(with_decimal(" bytes (max ", *max as u64).as_str());
                s.append(")");
                s
            },
            RelyoError::UnsupportedVersion(v) => with_decimal("unsupported protocol version: ", *v as u64),
            RelyoError::InsufficientPow { have, need } => {
                let mut s = with_decimal("proof-of-work insufficient: ", *have as u64);
                s.append(with_decimal(" leading zeros (need ", *need as u64).as_str());
                s.append(")");
                s
            },
            RelyoError::UtxoNotFound(id) => {
                let mut s = String::from_str("UTXO not found: ");
                s.append(id.to_text().as_str());
                s
            },
            RelyoError::UtxoAlreadySpent(id) => {
                let mut s = String::from_str("UTXO already spent: ");
                s.append(id.to_text().as_str());
                s
            },
            RelyoError::CoinbaseNotMature { need, current } => {
                let mut s = with_decimal("coinbase UTXO not mature: need ", *need);
                s.append(with_decimal(" depth, currently at ", *current).as_str());
                s
            },
            RelyoError::InsufficientFunds { input_total, output_total, fee } => {
                let mut s = with_decimal("input total ", *input_total);
                s.append(with_decimal(" < output total ", *output_total).as_str());
                s.append(with_decimal(" + fee ", *fee).as_str());
                s
            },
            RelyoError::DoubleSpend(id) => {
                let mut s = String::from_str("double spend detected: UTXO ");
                s.append(id.to_text().as_str());
                s.append(" spent by conflicting transactions");
                s
            },
            RelyoError::InvalidSignature { input_index } => with_decimal(
                "invalid signature on input ",
                *input_index as u64,
            ),
            RelyoError::PubKeyMismatch { input_index } => with_decimal(
                "public key does not match UTXO pubkey hash on input ",
                *input_index as u64,
            ),
            RelyoError::ParentNotFound(h) => {
                let mut s = String::from_str("parent transaction not found: ");
                s.append(h.to_hex().as_str());
                s
            },
            RelyoError::DuplicateTransaction(h) => {
                let mut s = String::from_str("duplicate transaction: ");
                s.append(h.to_hex().as_str());
                s
            },
            RelyoError::CycleDetected(h) => {
                let mut s = String::from_str("DAG cycle detected involving ");
                s.append(h.to_hex().as_str());
                s
            },
            RelyoError::InvalidHex(m) => {
                let mut s = String::from_str("invalid hex string: ");
                s.append(m.as_str());
                s
            },
            RelyoError::InvalidHashLength(n) => with_decimal(
                "invalid hash length: expected 32 bytes, got ",
                *n as u64,
            ),
            RelyoError::Serialization(m) => {
                let mut s = String::from_str("serialization error: ");
                s.append(m.as_str());
                s
            },
            RelyoError::PeerPowFailed => String::from_str("peer PoW challenge failed"),
            RelyoError::PeerBanned(m) => {
                let mut s = String::from_str("peer is banned: ");
                s.append(m.as_str());
                s
            },
            RelyoError::RateLimited(m) => {
                let mut s = String::from_str("rate limit exceeded for ");
                s.append(m.as_str());
                s
            },
            RelyoError::Storage(m) => {
                let mut s = String::from_str("storage error: ");
                s.append(m.as_str());
                s
            },
            RelyoError::Other(m) => m.clone(),
        }
    }
}

} // verus!
