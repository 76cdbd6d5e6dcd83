//! Relyo addresses: Base58Check text of `PREFIX || TYPE || SHA3-256(pubkey)[0..20] || checksum[0..4]`.
use vstd::prelude::*;
use crate::bytes::{bytes_match, extend_prefix};
use crate::codec::{base58_bytes, base58_decode, base58_encode, base58_text};
use crate::crypto::{sha3_256, sha3_digest, PublicKey};
use crate::error::{RelyoError, Result};

verus! {

/// Network prefix byte of every raw address (`'R'`).
pub const ADDRESS_PREFIX: u8 = 0x52;

/// Length of a raw (decoded) address.
pub const ADDRESS_LEN: usize = 26;

/// Kind of address, stored in the second raw byte.
#[derive(Debug, Clone, Copy, PartialEq, Eq, Hash, Structural)]
pub enum AddressType {
    /// Standard user address for sending and receiving RLY.
    Standard,
    /// Smart-contract address (future use).
    Contract,
    /// Staking/validator address.
    Staking,
    /// Treasury address.
    Treasury,
}

/// The type byte of an address type.
pub open spec fn type_byte(t: AddressType) -> u8 {
    match t {
        AddressType::Standard => 1u8,
        AddressType::Contract => 2u8,
        AddressType::Staking => 3u8,
        AddressType::Treasury => 4u8,
    }
}

/// The address type a byte names, if any.
pub open spec fn type_of_byte(b: u8) -> Option<AddressType> {
    if b == 1 {
        Some(AddressType::Standard)
    } else if b == 2 {
        Some(AddressType::Contract)
    } else if b == 3 {
        Some(AddressType::Staking)
    } else if b == 4 {
        Some(AddressType::Treasury)
    } else {
        None
    }
}

impl AddressType {
    /// The byte that encodes this type.
    pub fn to_byte(&self) -> (b: u8)
        ensures
            b == type_byte(*self),
    {
        match self {
            AddressType::Standard => 1,
            AddressType::Contract => 2,
            AddressType::Staking => 3,
            AddressType::Treasury => 4,
        }
    }

    /// The type a byte encodes.
    fn from_byte(b: u8) -> (t: Option<Self>)
        ensures
            t == type_of_byte(b),
    {
        match b {
            1 => Some(AddressType::Standard),
            2 => Some(AddressType::Contract),
            3 => Some(AddressType::Staking),
            4 => Some(AddressType::Treasury),
            _ => None,
        }
    }
}

/// The checksum of a raw address body: the first 4 bytes of its SHA3-256.
pub open spec fn checksum_of(body: Seq<u8>) -> Seq<u8> {
    sha3_digest(body).subrange(0, 4)
}

/// A raw address: 26 bytes, the network prefix, and a checksum over the first 22 bytes.
pub open spec fn raw_address_ok(b: Seq<u8>) -> bool {
    &&& b.len() == 26
    &&& b[0] == ADDRESS_PREFIX
    &&& b.subrange(22, 26) == checksum_of(b.subrange(0, 22))
}

/// A raw address that also names a known address type.
pub open spec fn raw_address_valid(b: Seq<u8>) -> bool {
    raw_address_ok(b) && type_of_byte(b[1]) is Some
}

/// Whether a text is a valid address: Base58 of a valid raw address.
pub open spec fn address_text_valid(s: Seq<char>) -> bool {
    base58_bytes(s) matches Some(b) && raw_address_valid(b)
}

/// The raw address with the given type byte and 20-byte key hash.
pub open spec fn raw_address(t: u8, key_hash: Seq<u8>) -> Seq<u8> {
    let body = seq![ADDRESS_PREFIX, t] + key_hash;
    body + checksum_of(body)
}

/// The raw address derived from a public key.
pub open spec fn raw_address_of_key(pk: Seq<u8>, t: AddressType) -> Seq<u8> {
    raw_address(type_byte(t), sha3_digest(pk).subrange(0, 20))
}

/// The address text derived from a public key.
pub open spec fn address_of_key(pk: Seq<u8>, t: AddressType) -> Seq<char> {
    base58_text(raw_address_of_key(pk, t))
}

/// The text of the genesis address: standard type, zero key hash.
pub open spec fn genesis_address_text() -> Seq<char> {
    base58_text(raw_address(1, Seq::new(20, |i: int| 0u8)))
}

/// A Relyo network address: the Base58 text of a raw address.
#[derive(Debug, Hash)]
pub struct Address(String);

impl View for Address {
    type V = Seq<char>;

    closed spec fn view(&self) -> Seq<char> {
        self.0@
    }
}

impl Address {
    /// Every address decodes to a raw address with the network prefix and a valid checksum.
    #[verifier::type_invariant]
    closed spec fn inv(self) -> bool {
        base58_bytes(self.0@) matches Some(b) && raw_address_ok(b)
    }

    /// The raw bytes an address's text decodes to.
    pub open spec fn raw(&self) -> Seq<u8> {
        base58_bytes(self@).unwrap()
    }

    /// Build the address of a raw address that passed the checks.
    fn from_raw(raw: &[u8]) -> (a: Self)
        requires
            raw_address_ok(raw@),
        ensures
            a@ == base58_text(raw@),
            base58_bytes(a@) == Some(raw@),
            a.raw() == raw@,
    {
        Address(base58_encode(raw))
    }

    /// Derive a standard address from a public key.
    pub fn from_public_key(pubkey: &PublicKey) -> (a: Self)
        ensures
            a@ == address_of_key(pubkey@, AddressType::Standard),
            a.raw() == raw_address_of_key(pubkey@, AddressType::Standard),
            base58_bytes(a@) == Some(a.raw()),
            address_text_valid(a@),
            type_of_byte(a.raw()[1]) == Some(AddressType::Standard),
    {
        Self::from_public_key_typed(pubkey, AddressType::Standard)
    }

    /// Derive an address of a given type from a public key.
    pub fn from_public_key_typed(pubkey: &PublicKey, addr_type: AddressType) -> (a: Self)
        ensures
            a@ == address_of_key(pubkey@, addr_type),
            a.raw() == raw_address_of_key(pubkey@, addr_type),
            base58_bytes(a@) == Some(a.raw()),
            address_text_valid(a@),
            type_of_byte(a.raw()[1]) == Some(addr_type),
    {
        let hash = sha3_256(pubkey.as_bytes());
        Self::from_key_hash(addr_type.to_byte(), &hash)
    }

    /// The address with a type byte and the first 20 bytes of a key hash.
    fn from_key_hash(t: u8, hash: &[u8; 32]) -> (a: Self)
        ensures
            a@ == base58_text(raw_address(t, hash@.subrange(0, 20))),
            a.raw() == raw_address(t, hash@.subrange(0, 20)),
            raw_address_ok(a.raw()),
            a.raw()[1] == t,
            base58_bytes(a@) == Some(a.raw()),
    {
        let mut payload: Vec<u8> = Vec::with_capacity(26);
        payload.push(ADDRESS_PREFIX);
        payload.push(t);
        extend_prefix(&mut payload, hash, 20);
        let ghost body = payload@;
        assert(body =~= seq![ADDRESS_PREFIX, t] + hash@.subrange(0, 20));
        let checksum = sha3_256(payload.as_slice());
        extend_prefix(&mut payload, &checksum, 4);
        let ghost raw = raw_address(t, hash@.subrange(0, 20));
        assert(payload@ =~= raw);
        assert(raw.subrange(0, 22) =~= body);
        assert(raw.subrange(22, 26) =~= checksum_of(body));
        Self::from_raw(payload.as_slice())
    }

    /// Check the length, prefix and checksum of raw bytes.
    fn check_raw(bytes: &[u8]) -> (res: Result<()>)
        ensures
            res is Ok <==> raw_address_ok(bytes@),
            res matches Err(e) ==> e is InvalidAddress,
    {
        if bytes.len() != ADDRESS_LEN {
            return Err(RelyoError::InvalidAddress(String::from_str("expected 26 bytes")));
        }
        if bytes[0] != ADDRESS_PREFIX {
            return Err(RelyoError::InvalidAddress(String::from_str("invalid network prefix")));
        }
        let mut body: Vec<u8> = Vec::with_capacity(22);
        extend_prefix(&mut body, bytes, 22);
        let checksum = sha3_256(body.as_slice());
        if !bytes_match(bytes, 22, &checksum, 4) {
            assert(bytes@.subrange(22, 26) != checksum_of(bytes@.subrange(0, 22)));
            return Err(RelyoError::InvalidAddress(String::from_str("checksum mismatch")));
        }
        Ok(())
    }

    /// Construct an address from raw bytes (26 bytes, prefix, checksum).
    pub fn from_bytes(bytes: &[u8]) -> (res: Result<Self>)
        ensures
            res is Ok <==> raw_address_ok(bytes@),
            res matches Ok(a) ==> a@ == base58_text(bytes@) && a.raw() == bytes@,
            res matches Err(e) ==> e is InvalidAddress,
    {
        match Self::check_raw(bytes) {
            Err(e) => Err(e),
            Ok(()) => Ok(Self::from_raw(bytes)),
        }
    }

    /// The raw bytes of this address.
    pub fn to_bytes(&self) -> (res: Result<Vec<u8>>)
        ensures
            res matches Ok(v) && v@ == self.raw(),
    {
        proof {
            use_type_invariant(self);
        }
        match base58_decode(self.0.as_str()) {
            Ok(v) => Ok(v),
            Err(e) => Err(RelyoError::InvalidAddress(e)),
        }
    }

    /// The type of this address.
    pub fn address_type(&self) -> (res: Result<AddressType>)
        ensures
            res is Ok <==> type_of_byte(self.raw()[1]) is Some,
            res matches Ok(t) ==> type_of_byte(self.raw()[1]) == Some(t),
            res matches Err(e) ==> e is InvalidAddress,
    {
        proof {
            use_type_invariant(self);
        }
        let bytes = self.to_bytes()?;
        match AddressType::from_byte(bytes[1]) {
            Some(t) => Ok(t),
            None => Err(RelyoError::InvalidAddress(String::from_str("unknown address type"))),
        }
    }

    /// Validate that an address text is well formed.
    pub fn validate(addr: &str) -> (res: Result<()>)
        ensures
            res is Ok <==> address_text_valid(addr@),
            res matches Err(e) ==> e is InvalidAddress,
    {
        let bytes = match base58_decode(addr) {
            Ok(v) => v,
            Err(e) => return Err(RelyoError::InvalidAddress(e)),
        };
        if bytes.len() != ADDRESS_LEN {
            return Err(RelyoError::InvalidAddress(String::from_str("expected 26 bytes")));
        }
        if bytes[0] != ADDRESS_PREFIX {
            return Err(RelyoError::InvalidAddress(String::from_str("invalid network prefix")));
        }
        if AddressType::from_byte(bytes[1]).is_none() {
            return Err(RelyoError::InvalidAddress(String::from_str("unknown address type byte")));
        }
        Self::check_raw(bytes.as_slice())
    }

    /// Parse an address text (`FromStr`): it must pass `validate`.
    pub fn parse(s: &str) -> (res: Result<Self>)
        ensures
            res is Ok <==> address_text_valid(s@),
            res matches Ok(a) ==> a@ == s@,
            res matches Err(e) ==> e is InvalidAddress,
    {
        Self::validate(s)?;
        Ok(Address(String::from_str(s)))
    }

    /// Whether the checksum of this address is valid (it always is): its text
    /// decodes to 26 bytes with the network prefix whose last 4 bytes are the
    /// first 4 of the SHA3-256 of the first 22.
    pub fn is_valid_checksum(&self) -> (ok: bool)
        ensures
            base58_bytes(self@) == Some(self.raw()),
            ok == raw_address_ok(self.raw()),
            ok,
    {
        proof {
            use_type_invariant(self);
        }
        match self.to_bytes() {
            Ok(bytes) => {
                if bytes.len() == ADDRESS_LEN {
                    let mut body: Vec<u8> = Vec::with_capacity(22);
                    extend_prefix(&mut body, bytes.as_slice(), 22);
                    let checksum = sha3_256(body.as_slice());
                    return bytes_match(bytes.as_slice(), 22, &checksum, 4);
                }
                false
            },
            Err(_) => false,
        }
    }

    /// The address text.
    pub fn as_str(&self) -> (s: &str)
        ensures
            s@ == self@,
            base58_bytes(s@) == Some(self.raw()) && raw_address_ok(self.raw()),
    {
        proof {
            use_type_invariant(self);
        }
        self.0.as_str()
    }

    /// The genesis address: zero key hash, standard type.
    pub fn genesis() -> (a: Self)
        ensures
            a@ == genesis_address_text(),
            a.raw() == raw_address(1, Seq::new(20, |i: int| 0u8)),
            address_text_valid(a@),
    {
        let zeros = [0u8; 32];
        let a = Self::from_key_hash(1, &zeros);
        assert(zeros@.subrange(0, 20) =~= Seq::new(20, |i: int| 0u8));
        a
    }

    /// The treasury address of a public key.
    pub fn treasury(pubkey: &PublicKey) -> (a: Self)
        ensures
            a@ == address_of_key(pubkey@, AddressType::Treasury),
            a.raw() == raw_address_of_key(pubkey@, AddressType::Treasury),
            base58_bytes(a@) == Some(a.raw()),
            type_of_byte(a.raw()[1]) == Some(AddressType::Treasury),
    {
        Self::from_public_key_typed(pubkey, AddressType::Treasury)
    }

    /// The staking address of a public key.
    pub fn staking(pubkey: &PublicKey) -> (a: Self)
        ensures
            a@ == address_of_key(pubkey@, AddressType::Staking),
            a.raw() == raw_address_of_key(pubkey@, AddressType::Staking),
            base58_bytes(a@) == Some(a.raw()),
            type_of_byte(a.raw()[1]) == Some(AddressType::Staking),
    {
        Self::from_public_key_typed(pubkey, AddressType::Staking)
    }

    /// Whether two addresses have the same text.
    pub fn same(&self, other: &Self) -> (eq: bool)
        ensures
            eq == (self@ == other@),
    {
        self.0 == other.0
    }
}

impl PartialEq for Address {
    fn eq(&self, other: &Self) -> (eq: bool) {
        self.0 == other.0
    }
}

impl vstd::std_specs::cmp::PartialEqSpecImpl for Address {
    open spec fn obeys_eq_spec() -> bool {
        true
    }

    open spec fn eq_spec(&self, other: &Self) -> bool {
        self@ == other@
    }
}

impl Eq for Address {}

impl Clone for Address {
    fn clone(&self) -> (c: Self)
        ensures
            c@ == self@,
            c.raw() == self.raw(),
    {
        proof {
            use_type_invariant(self);
        }
        Address(self.0.clone())
    }
}

impl core::str::FromStr for Address {
    type Err = RelyoError;

    fn from_str(s: &str) -> (res: core::result::Result<Self, RelyoError>)
        ensures
            res is Ok <==> address_text_valid(s@),
            res matches Ok(a) ==> a@ == s@,
            res matches Err(e) ==> e is InvalidAddress,
    {
        Self::parse(s)
    }
}

impl AsRef<str> for Address {
    fn as_ref(&self) -> (s: &str)
        ensures
            s@ == self@,
    {
        self.0.as_str()
    }
}

/// Law: addresses whose raw type bytes differ are different texts; in
/// particular the standard, staking and treasury addresses of one key differ.
pub proof fn law_address_types_differ(a: Address, b: Address)
    requires
        base58_bytes(a@) is Some,
        base58_bytes(b@) is Some,
        a.raw()[1] != b.raw()[1],
    ensures
        a@ != b@,
{
}

} // verus!
