//! The genesis transaction that opens the ledger: protocol rules only, no
//! pre-allocated balance.
use vstd::prelude::*;
use crate::address::{genesis_address_text, Address};
use crate::bytes::extend_bytes;
use vstd::string::StringSliceAdditionalSpecFns;
use crate::crypto::{ed25519_signature_of, KeyPair, Signature};
use crate::graph::{DagGraph, NodeView};
use crate::state::amount_of;
use crate::transaction::{
    hash_view, signable_view, zero_hash_bytes, Transaction, TransactionHash, TransactionStatus,
    TransactionType, TxView,
};

verus! {

/// The memo every genesis transaction carries.
pub open spec fn genesis_memo() -> Seq<u8> {
    "Relyo Genesis: Let there be light".spec_bytes()
}

/// The genesis transaction of a public key before signing: zero amount, fee,
/// time and nonce, from and to the genesis address, zero parents, a zero
/// signature and the genesis memo.
pub open spec fn unsigned_genesis(pk: Seq<u8>) -> TxView {
    TxView {
        tx_type: TransactionType::Genesis,
        sender: genesis_address_text(),
        receiver: genesis_address_text(),
        amount: 0,
        fee: 0,
        timestamp: 0,
        nonce: 0,
        parent_1: zero_hash_bytes(),
        parent_2: zero_hash_bytes(),
        sender_pubkey: pk,
        signature: Seq::new(64, |i: int| 0u8),
        data: genesis_memo(),
    }
}

/// The genesis transaction signed with a keypair's seed.
pub open spec fn signed_genesis(seed: Seq<u8>, pk: Seq<u8>) -> TxView {
    let v = unsigned_genesis(pk);
    TxView { signature: ed25519_signature_of(seed, signable_view(v)), ..v }
}

/// Create the genesis transaction, signed with `genesis_keypair`, and insert it
/// into the DAG. It moves no value: the genesis address is credited nothing.
/// Returns the hashes of what was inserted: the genesis transaction's.
pub fn create_genesis(dag: &mut DagGraph, genesis_keypair: &KeyPair) -> (hashes: Vec<TransactionHash>)
    requires
        old(dag).wf(),
        genesis_keypair.wf(),
    ensures
        final(dag).wf(),
        ({
            let v = signed_genesis(genesis_keypair.seed@, genesis_keypair.public_key@);
            let h = hash_view(v);
            &&& hashes@.len() == 1
            &&& hashes@[0]@ == h
            &&& final(dag).ledger().balances() == old(dag).ledger().balances().insert(
                genesis_address_text(),
                amount_of(old(dag).ledger().balances(), genesis_address_text()),
            )
            &&& final(dag).ledger().nonces() == old(dag).ledger().nonces()
            &&& final(dag).ledger().stakes() == old(dag).ledger().stakes()
            &&& final(dag).ledger().unstakes() == old(dag).ledger().unstakes()
            &&& final(dag).ledger().fees() == old(dag).ledger().fees()
            &&& final(dag).nodes_view() == old(dag).nodes_view().insert(
                h,
                NodeView {
                    tx: v,
                    hash: h,
                    status: TransactionStatus::Confirmed,
                    children: Seq::empty(),
                    weight: 1,
                    depth: 0,
                },
            )
            &&& final(dag).tip_selector().tip_set() == old(dag).tip_selector().tip_set().insert(h)
            &&& final(dag).count() == vstd::wrapping::u64_specs::wrapping_add(old(dag).count(), 1)
            &&& final(dag).depth_reached() == old(dag).depth_reached()
            &&& final(dag).detector() == old(dag).detector()
        }),
{
    let genesis_addr = Address::genesis();
    let memo = "Relyo Genesis: Let there be light";
    let mut data: Vec<u8> = Vec::new();
    extend_bytes(&mut data, memo.as_bytes());
    let zero_sig = [0u8; 64];
    let mut tx = Transaction {
        tx_type: TransactionType::Genesis,
        sender: genesis_addr.clone(),
        receiver: genesis_addr,
        amount: 0,
        fee: 0,
        timestamp: 0,
        nonce: 0,
        parent_1: TransactionHash::zero(),
        parent_2: TransactionHash::zero(),
        sender_pubkey: genesis_keypair.public_key,
        signature: Signature::from_bytes(zero_sig),
        data,
    };
    proof {
        assert(zero_sig@ =~= Seq::new(64, |i: int| 0u8));
        assert(data@ =~= genesis_memo());
        assert(tx@ == unsigned_genesis(genesis_keypair.public_key@));
    }
    let msg = tx.signable_bytes();
    tx.signature = genesis_keypair.sign(msg.as_slice());
    proof {
        assert(tx@ == signed_genesis(genesis_keypair.seed@, genesis_keypair.public_key@));
    }
    let mut hashes: Vec<TransactionHash> = Vec::new();
    match dag.insert_genesis(tx) {
        Ok(hash) => {
            hashes.push(hash);
        },
        Err(_) => {},
    }
    proof {
        assert(vstd::wrapping::u64_specs::wrapping_add(
            amount_of(old(dag).ledger().balances(), genesis_address_text()),
            0u64,
        ) == amount_of(old(dag).ledger().balances(), genesis_address_text()));
    }
    hashes
}

} // verus!
