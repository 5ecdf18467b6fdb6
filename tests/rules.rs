use cita_auth::rules::{verfiy_tx, Verifier};
use cita_auth::types::{Ret, VerifyTxReq};

fn req(hash: u8, valid_until_block: u64, signer: Vec<u8>) -> VerifyTxReq {
    VerifyTxReq { tx_hash: vec![hash; 32], valid_until_block, signature: vec![7u8; 65], signer }
}

fn verifier_at(height: u64, known: Vec<Vec<u8>>) -> Verifier {
    let mut v = Verifier::new();
    v.update_hashes(height, known);
    v
}

#[test]
fn expired_transaction_is_out_of_time() {
    let v = verifier_at(10, vec![]);
    let r = verfiy_tx(&req(1, 9, vec![]), &v, &Some(vec![0xaa; 20]));
    assert_eq!(r.ret, Ret::OutOfTime);
    assert_eq!(r.tx_hash, vec![1u8; 32]);
    assert!(r.signer.is_empty());
    // regardless of the signature
    let r = verfiy_tx(&req(1, 9, vec![]), &v, &None);
    assert_eq!(r.ret, Ret::OutOfTime);
}

#[test]
fn valid_until_current_height_is_accepted() {
    let v = verifier_at(10, vec![]);
    let r = verfiy_tx(&req(1, 10, vec![]), &v, &Some(vec![0xaa; 20]));
    assert_eq!(r.ret, Ret::OK);
    assert_eq!(r.signer, vec![0xaa; 20]);
}

#[test]
fn known_hash_before_sync_is_not_ready() {
    let v = verifier_at(5, vec![vec![3u8; 32]]);
    assert!(!v.is_inited());
    let r = verfiy_tx(&req(3, 100, vec![]), &v, &Some(vec![0xaa; 20]));
    assert_eq!(r.ret, Ret::NotReady);
}

#[test]
fn known_hash_after_sync_is_dup() {
    let mut v = verifier_at(5, vec![vec![3u8; 32]]);
    v.set_inited();
    let r = verfiy_tx(&req(3, 100, vec![]), &v, &None);
    assert_eq!(r.ret, Ret::Dup);
    assert!(r.signer.is_empty());
}

#[test]
fn bad_signature_is_bad_sig() {
    let v = verifier_at(5, vec![]);
    let r = verfiy_tx(&req(4, 100, vec![]), &v, &None);
    assert_eq!(r.ret, Ret::BadSig);
}

#[test]
fn mismatched_signer_is_bad_sig() {
    let v = verifier_at(5, vec![]);
    let r = verfiy_tx(&req(4, 100, vec![0xbb; 20]), &v, &Some(vec![0xaa; 20]));
    assert_eq!(r.ret, Ret::BadSig);
    assert!(r.signer.is_empty());
}

#[test]
fn matching_signer_is_ok() {
    let v = verifier_at(5, vec![]);
    let r = verfiy_tx(&req(4, 100, vec![0xaa; 20]), &v, &Some(vec![0xaa; 20]));
    assert_eq!(r.ret, Ret::OK);
    assert_eq!(r.signer, vec![0xaa; 20]);
}

#[test]
fn update_hashes_replaces_a_height_and_keeps_the_highest() {
    let mut v = Verifier::new();
    v.update_hashes(8, vec![vec![1u8; 32]]);
    v.update_hashes(3, vec![vec![2u8; 32]]);
    assert_eq!(v.get_height(), 8);
    assert!(v.check_hash_exist(&vec![1u8; 32]));
    assert!(v.check_hash_exist(&vec![2u8; 32]));
    v.update_hashes(8, vec![vec![9u8; 32]]);
    assert!(!v.check_hash_exist(&vec![1u8; 32]));
    assert!(v.check_hash_exist(&vec![9u8; 32]));
    assert!(v.check_hash_exist(&vec![2u8; 32]));
    assert!(!v.verify_valid_until_block(7));
    assert!(v.verify_valid_until_block(8));
}
