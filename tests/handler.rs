use cita_auth::block::{BlockVerifyStatus, VerifyResult};
use cita_auth::cache::{VerifyBlockCache, VerifyCache};
use cita_auth::handler::{
    handle_remote_msg, handle_verificaton_result, verify_and_cache, verify_tx_service,
    DispatchError, InboundMsg, Publish,
};
use cita_auth::rules::Verifier;
use cita_auth::types::{Ret, VerifyTxReq, VerifyTxResp, VerifyType};

fn req(hash: u8) -> VerifyTxReq {
    VerifyTxReq { tx_hash: vec![hash; 32], valid_until_block: 100, signature: vec![1u8; 65], signer: vec![] }
}

fn resp(hash: u8, ret: Ret) -> VerifyTxResp {
    VerifyTxResp { tx_hash: vec![hash; 32], ret, signer: vec![] }
}

fn open_block(cache: &mut VerifyBlockCache, id: u64, n: u8) {
    let mut v = Verifier::new();
    let reqs = (0..n).map(req).collect();
    let jobs = handle_remote_msg(InboundMsg::VerifyBlock { id, reqs }, 2, &mut v, cache).unwrap();
    assert_eq!(jobs.len(), n as usize);
}

fn feed(cache: &mut VerifyBlockCache, id: u64, ret: Ret) -> Publish {
    handle_verificaton_result(cache, VerifyType::BlockVerify, id, resp(0, ret), 2)
}

fn block_result(p: &Publish) -> Option<Ret> {
    match p {
        Publish::BlockResult { ret, .. } => Some(*ret),
        _ => None,
    }
}

#[test]
fn dispatch_single_request() {
    let mut v = Verifier::new();
    let mut cache = VerifyBlockCache::new();
    let jobs = handle_remote_msg(InboundMsg::VerifyTx(req(5)), 3, &mut v, &mut cache).unwrap();
    assert_eq!(jobs.len(), 1);
    assert_eq!(jobs[0].verify_type, VerifyType::SingleVerify);
    assert_eq!(jobs[0].id, 0);
    assert_eq!(jobs[0].submodule, 3);
    assert_eq!(jobs[0].req.tx_hash, vec![5u8; 32]);
    assert!(!cache.contains(0));
}

#[test]
fn dispatch_block_request() {
    let mut v = Verifier::new();
    let mut cache = VerifyBlockCache::new();
    let msg = InboundMsg::VerifyBlock { id: 42, reqs: vec![req(1), req(2), req(3)] };
    let jobs = handle_remote_msg(msg, 4, &mut v, &mut cache).unwrap();
    assert_eq!(jobs.len(), 3);
    for (i, j) in jobs.iter().enumerate() {
        assert_eq!(j.verify_type, VerifyType::BlockVerify);
        assert_eq!(j.id, 42);
        assert_eq!(j.submodule, 4);
        assert_eq!(j.req.tx_hash, vec![(i + 1) as u8; 32]);
    }
    let s = cache.get(42).unwrap();
    assert_eq!(
        s,
        BlockVerifyStatus {
            block_verify_result: VerifyResult::VerifyOngoing,
            verify_success_cnt_required: 3,
            verify_success_cnt_capture: 0,
        }
    );
}

#[test]
fn dispatch_rejects_empty_block() {
    let mut v = Verifier::new();
    let mut cache = VerifyBlockCache::new();
    let r = handle_remote_msg(InboundMsg::VerifyBlock { id: 1, reqs: vec![] }, 4, &mut v, &mut cache);
    assert_eq!(r.err(), Some(DispatchError::EmptyBlock));
    assert!(!cache.contains(1));
}

#[test]
fn dispatch_rejects_duplicate_block_id() {
    let mut v = Verifier::new();
    let mut cache = VerifyBlockCache::new();
    open_block(&mut cache, 9, 2);
    let r = handle_remote_msg(InboundMsg::VerifyBlock { id: 9, reqs: vec![req(1)] }, 4, &mut v, &mut cache);
    assert_eq!(r.err(), Some(DispatchError::DuplicateBlockId));
    assert_eq!(cache.get(9).unwrap().verify_success_cnt_required, 2);
}

#[test]
fn dispatch_hashes_updates_verifier() {
    let mut v = Verifier::new();
    let mut cache = VerifyBlockCache::new();
    let msg = InboundMsg::BlockTxHashes { height: 12, tx_hashes: vec![vec![6u8; 32]] };
    let jobs = handle_remote_msg(msg, 1, &mut v, &mut cache).unwrap();
    assert!(jobs.is_empty());
    assert_eq!(v.get_height(), 12);
    assert!(v.check_hash_exist(&vec![6u8; 32]));
}

#[test]
fn dispatch_ignores_other_messages() {
    let mut v = Verifier::new();
    let mut cache = VerifyBlockCache::new();
    let jobs = handle_remote_msg(InboundMsg::Other, 1, &mut v, &mut cache).unwrap();
    assert!(jobs.is_empty());
    assert_eq!(v.get_height(), 0);
}

#[test]
fn single_result_is_published() {
    let mut cache = VerifyBlockCache::new();
    let p = handle_verificaton_result(&mut cache, VerifyType::SingleVerify, 0, resp(8, Ret::Dup), 6);
    match p {
        Publish::TxResult { submodule, resp } => {
            assert_eq!(submodule, 6);
            assert_eq!(resp.ret, Ret::Dup);
            assert_eq!(resp.tx_hash, vec![8u8; 32]);
        }
        _ => panic!("expected a transaction result"),
    }
}

#[test]
fn block_all_succeed_publishes_once_after_last() {
    let mut cache = VerifyBlockCache::new();
    open_block(&mut cache, 7, 3);
    assert!(matches!(feed(&mut cache, 7, Ret::OK), Publish::Nothing));
    assert!(matches!(feed(&mut cache, 7, Ret::OK), Publish::Nothing));
    let p = feed(&mut cache, 7, Ret::OK);
    assert_eq!(block_result(&p), Some(Ret::OK));
    match p {
        Publish::BlockResult { submodule, id, .. } => {
            assert_eq!(submodule, 2);
            assert_eq!(id, 7);
        }
        _ => panic!("expected a block result"),
    }
    assert_eq!(cache.get(7).unwrap().block_verify_result, VerifyResult::VerifySucceeded);
}

#[test]
fn block_failure_publishes_once_with_its_code() {
    let mut cache = VerifyBlockCache::new();
    open_block(&mut cache, 7, 4);
    assert!(matches!(feed(&mut cache, 7, Ret::OK), Publish::Nothing));
    assert_eq!(block_result(&feed(&mut cache, 7, Ret::BadSig)), Some(Ret::BadSig));
    assert!(matches!(feed(&mut cache, 7, Ret::OK), Publish::Nothing));
    assert!(matches!(feed(&mut cache, 7, Ret::OK), Publish::Nothing));
    assert!(matches!(feed(&mut cache, 7, Ret::Dup), Publish::Nothing));
    assert_eq!(cache.get(7).unwrap().block_verify_result, VerifyResult::VerifyFailed);
}

#[test]
fn block_result_does_not_depend_on_order() {
    let orders = [
        [Ret::OK, Ret::OutOfTime, Ret::OK],
        [Ret::OutOfTime, Ret::OK, Ret::OK],
        [Ret::OK, Ret::OK, Ret::OutOfTime],
    ];
    for (n, order) in orders.iter().enumerate() {
        let mut cache = VerifyBlockCache::new();
        let id = n as u64 + 1;
        open_block(&mut cache, id, 3);
        let published: Vec<Ret> = order.iter().filter_map(|r| block_result(&feed(&mut cache, id, *r))).collect();
        assert_eq!(published, vec![Ret::OutOfTime]);
        assert_eq!(cache.get(id).unwrap().block_verify_result, VerifyResult::VerifyFailed);
    }
}

#[test]
fn late_responses_after_success_publish_nothing() {
    let mut cache = VerifyBlockCache::new();
    open_block(&mut cache, 5, 1);
    assert_eq!(block_result(&feed(&mut cache, 5, Ret::OK)), Some(Ret::OK));
    assert!(matches!(feed(&mut cache, 5, Ret::OK), Publish::Nothing));
    assert!(matches!(feed(&mut cache, 5, Ret::BadSig), Publish::Nothing));
    assert_eq!(cache.get(5).unwrap().verify_success_cnt_capture, 1);
}

#[test]
fn unknown_block_is_reported() {
    let mut cache = VerifyBlockCache::new();
    open_block(&mut cache, 5, 2);
    match feed(&mut cache, 99, Ret::OK) {
        Publish::UnknownBlock { id } => assert_eq!(id, 99),
        _ => panic!("expected an anomaly"),
    }
    assert!(!cache.contains(99));
    assert_eq!(cache.get(5).unwrap().verify_success_cnt_capture, 0);
}

#[test]
fn service_twice_gives_same_answer() {
    let v = Verifier::new();
    let mut cache = VerifyCache::new();
    let r = req(3);
    let sig = Some(vec![0xaa; 20]);
    let a = verify_tx_service(&r, &v, &cache, &sig);
    let b = verify_tx_service(&r, &v, &cache, &sig);
    assert_eq!(a.ret, b.ret);
    assert_eq!(a.signer, b.signer);
    assert!(cache.get(&r.tx_hash).is_none());
    let w = verify_and_cache(&r, &v, &mut cache, &sig);
    assert_eq!(w.ret, Ret::OK);
    let c = verify_tx_service(&r, &v, &cache, &sig);
    assert_eq!(c.ret, a.ret);
    assert_eq!(c.signer, a.signer);
    assert_eq!(c.tx_hash, a.tx_hash);
}

#[test]
fn service_prefers_the_cache() {
    let v = Verifier::new();
    let mut cache = VerifyCache::new();
    cache.put(&vec![4u8; 32], resp(4, Ret::Dup));
    let r = verify_tx_service(&req(4), &v, &cache, &Some(vec![0xaa; 20]));
    assert_eq!(r.ret, Ret::Dup);
}

#[test]
fn cache_entry_is_never_overwritten() {
    let mut cache = VerifyCache::new();
    cache.put(&vec![4u8; 32], resp(4, Ret::Dup));
    cache.put(&vec![4u8; 32], resp(4, Ret::OK));
    assert_eq!(cache.get(&vec![4u8; 32]).unwrap().ret, Ret::Dup);
    assert!(cache.get(&vec![5u8; 32]).is_none());
}
