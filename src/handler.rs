use vstd::prelude::*;
use crate::block::{step, BlockVerifyStatus};
use crate::cache::{VerifyBlockCache, VerifyCache};
use crate::rules::{hash_set, verfiy_tx, Verifier};
use crate::types::{opt_bytes, ReqView, RespView, Ret, VerifyTxReq, VerifyTxResp, VerifyType};

verus! {

/// A verification job for the worker pool.
pub struct VerifyJob {
    pub verify_type: VerifyType,
    /// The block id for a block job, 0 for a single transaction.
    pub id: u64,
    pub req: VerifyTxReq,
    /// The submodule that the answer goes back to.
    pub submodule: u32,
}

/// An inbound message, decoded from its envelope.
pub enum InboundMsg {
    /// The transaction hashes of the block at `height`.
    BlockTxHashes { height: u64, tx_hashes: Vec<Vec<u8>> },
    /// A request to verify one transaction.
    VerifyTx(VerifyTxReq),
    /// A request to verify the transactions of block `id` together.
    VerifyBlock { id: u64, reqs: Vec<VerifyTxReq> },
    /// Any other kind of message.
    Other,
}

/// Why a block verification request was turned down.
#[derive(Clone, Copy, Debug, PartialEq, Eq, Structural)]
pub enum DispatchError {
    /// The block holds no transaction.
    EmptyBlock,
    /// A block with the same id is already in flight.
    DuplicateBlockId,
}

/// What the aggregator hands on after one worker response.
pub enum Publish {
    /// The result of a single transaction, for `submodule`.
    TxResult { submodule: u32, resp: VerifyTxResp },
    /// The decision on block `id`, for `submodule`.
    BlockResult { submodule: u32, id: u64, ret: Ret },
    /// The response was absorbed: nothing to publish.
    Nothing,
    /// The response names a block that has no record: an anomaly to report.
    UnknownBlock { id: u64 },
}

/// The job for request `req` of kind `t`, block `id`, from `submodule`.
pub open spec fn is_job(j: VerifyJob, t: VerifyType, id: u64, req: ReqView, submodule: u32) -> bool {
    &&& j.verify_type == t
    &&& j.id == id
    &&& j.req@ == req
    &&& j.submodule == submodule
}

/// Routes one inbound message. A hash notification updates the verifier's record; a
/// single request becomes one job; a block request opens the block's record and
/// becomes one job per transaction, in order. A block with no transaction, or whose
/// id is already in flight, is turned down and changes nothing. Other messages are
/// ignored.
pub fn handle_remote_msg(
    msg: InboundMsg,
    submodule: u32,
    verifier: &mut Verifier,
    block_cache: &mut VerifyBlockCache,
) -> (r: Result<Vec<VerifyJob>, DispatchError>)
    requires
        old(verifier).wf(),
        old(block_cache).wf(),
    ensures
        final(verifier).wf(),
        final(block_cache).wf(),
        match msg {
            InboundMsg::BlockTxHashes { height, tx_hashes } => {
                &&& r matches Ok(jobs) && jobs@.len() == 0
                &&& final(verifier).record() == old(verifier).record().insert(
                    height,
                    hash_set(tx_hashes@),
                )
                &&& final(verifier).current_height() == if height > old(
                    verifier,
                ).current_height() {
                    height
                } else {
                    old(verifier).current_height()
                }
                &&& final(verifier).synced() == old(verifier).synced()
                &&& final(block_cache)@ == old(block_cache)@
            },
            InboundMsg::VerifyTx(req) => {
                &&& r matches Ok(jobs) && jobs@.len() == 1 && is_job(
                    jobs@[0],
                    VerifyType::SingleVerify,
                    0,
                    req@,
                    submodule,
                )
                &&& *final(verifier) == *old(verifier)
                &&& final(block_cache)@ == old(block_cache)@
            },
            InboundMsg::VerifyBlock { id, reqs } => {
                &&& *final(verifier) == *old(verifier)
                &&& reqs@.len() == 0 ==> r == Err::<Vec<VerifyJob>, DispatchError>(
                    DispatchError::EmptyBlock,
                ) && final(block_cache)@ == old(block_cache)@
                &&& reqs@.len() > 0 && old(block_cache)@.contains_key(id) ==> r == Err::<
                    Vec<VerifyJob>,
                    DispatchError,
                >(DispatchError::DuplicateBlockId) && final(block_cache)@ == old(block_cache)@
                &&& reqs@.len() > 0 && !old(block_cache)@.contains_key(id) ==> {
                    &&& final(block_cache)@ == old(block_cache)@.insert(
                        id,
                        BlockVerifyStatus::fresh_spec(reqs@.len() as usize),
                    )
                    &&& r matches Ok(jobs) && jobs@.len() == reqs@.len() && forall|i: int|
                        0 <= i < jobs@.len() ==> is_job(
                            #[trigger] jobs@[i],
                            VerifyType::BlockVerify,
                            id,
                            reqs@[i]@,
                            submodule,
                        )
                }
            },
            InboundMsg::Other => {
                &&& r matches Ok(jobs) && jobs@.len() == 0
                &&& *final(verifier) == *old(verifier)
                &&& final(block_cache)@ == old(block_cache)@
            },
        },
{
    match msg {
        InboundMsg::BlockTxHashes { height, tx_hashes } => {
            verifier.update_hashes(height, tx_hashes);
            Ok(Vec::new())
        },
        InboundMsg::VerifyTx(req) => {
            let mut jobs: Vec<VerifyJob> = Vec::new();
            jobs.push(VerifyJob { verify_type: VerifyType::SingleVerify, id: 0, req, submodule });
            Ok(jobs)
        },
        InboundMsg::VerifyBlock { id, reqs } => {
            if reqs.len() == 0 {
                return Err(DispatchError::EmptyBlock);
            }
            let status = BlockVerifyStatus::fresh(reqs.len());
            if block_cache.insert(id, status).is_err() {
                return Err(DispatchError::DuplicateBlockId);
            }
            let mut jobs: Vec<VerifyJob> = Vec::new();
            let mut i: usize = 0;
            while i < reqs.len()
                invariant
                    0 <= i <= reqs@.len(),
                    jobs@.len() == i,
                    forall|k: int|
                        0 <= k < i ==> is_job(
                            #[trigger] jobs@[k],
                            VerifyType::BlockVerify,
                            id,
                            reqs@[k]@,
                            submodule,
                        ),
                decreases reqs@.len() - i,
            {
                jobs.push(
                    VerifyJob {
                        verify_type: VerifyType::BlockVerify,
                        id,
                        req: reqs[i].duplicate(),
                        submodule,
                    },
                );
                i = i + 1;
            }
            Ok(jobs)
        },
        InboundMsg::Other => Ok(Vec::new()),
    }
}

/// Takes one worker response. A single transaction's response is handed on as it is.
/// A block's response advances the block's record; the block's result is handed on
/// once, when it is decided: at the first failure, with its code, or at the last
/// required success, with `OK`. Responses for a decided block are absorbed, and one
/// for a block without a record is reported and changes nothing.
pub fn handle_verificaton_result(
    block_cache: &mut VerifyBlockCache,
    verify_type: VerifyType,
    id: u64,
    resp: VerifyTxResp,
    sub_module: u32,
) -> (r: Publish)
    requires
        old(block_cache).wf(),
    ensures
        final(block_cache).wf(),
        verify_type == VerifyType::SingleVerify ==> {
            &&& r matches Publish::TxResult { submodule, resp: out } && submodule == sub_module
                && out@ == resp@
            &&& final(block_cache)@ == old(block_cache)@
        },
        verify_type == VerifyType::BlockVerify && !old(block_cache)@.contains_key(id) ==> {
            &&& r matches Publish::UnknownBlock { id: rid } && rid == id
            &&& final(block_cache)@ == old(block_cache)@
        },
        verify_type == VerifyType::BlockVerify && old(block_cache)@.contains_key(id) ==> {
            let (next, out) = step(old(block_cache)@[id], resp.ret);
            &&& final(block_cache)@ == old(block_cache)@.insert(id, next)
            &&& match out {
                Some(ret) => r matches Publish::BlockResult { submodule, id: rid, ret: rret }
                    && submodule == sub_module && rid == id && rret == ret,
                None => r matches Publish::Nothing,
            }
        },
{
    match verify_type {
        VerifyType::SingleVerify => Publish::TxResult { submodule: sub_module, resp },
        VerifyType::BlockVerify => {
            if !block_cache.contains(id) {
                return Publish::UnknownBlock { id };
            }
            match block_cache.advance(id, resp.ret) {
                Some(ret) => Publish::BlockResult { submodule: sub_module, id, ret },
                None => Publish::Nothing,
            }
        },
    }
}

/// The answer of the verification service: the memoized response where the cache has
/// one for the hash, else the verifier's.
pub open spec fn service_spec(
    cache: Map<Seq<u8>, RespView>,
    verifier: Verifier,
    req: ReqView,
    recovered: Option<Seq<u8>>,
) -> RespView {
    if cache.contains_key(req.tx_hash) {
        cache[req.tx_hash]
    } else {
        verifier.verify_spec(req, recovered)
    }
}

/// The cache after a worker has handled `req`: the verifier's response is memoized
/// where the hash had none.
pub open spec fn memo_spec(
    cache: Map<Seq<u8>, RespView>,
    verifier: Verifier,
    req: ReqView,
    recovered: Option<Seq<u8>>,
) -> Map<Seq<u8>, RespView> {
    if cache.contains_key(req.tx_hash) {
        cache
    } else {
        cache.insert(req.tx_hash, verifier.verify_spec(req, recovered))
    }
}

/// Answers a verification request at once: from the cache where it holds the hash,
/// else from the verifier. The cache is only read. `recovered` is the outcome of
/// signature recovery on `req`.
pub fn verify_tx_service(
    req: &VerifyTxReq,
    verifier: &Verifier,
    cache: &VerifyCache,
    recovered: &Option<Vec<u8>>,
) -> (r: VerifyTxResp)
    requires
        verifier.wf(),
        cache.wf(),
    ensures
        r@ == service_spec(cache@, *verifier, req@, opt_bytes(recovered)),
{
    match cache.get(&req.tx_hash) {
        Some(resp) => resp,
        None => verfiy_tx(req, verifier, recovered),
    }
}

/// One worker's handling of a job: the memoized response where there is one, else
/// the verifier's, which is then memoized.
pub fn verify_and_cache(
    req: &VerifyTxReq,
    verifier: &Verifier,
    cache: &mut VerifyCache,
    recovered: &Option<Vec<u8>>,
) -> (r: VerifyTxResp)
    requires
        verifier.wf(),
        old(cache).wf(),
    ensures
        final(cache).wf(),
        r@ == service_spec(old(cache)@, *verifier, req@, opt_bytes(recovered)),
        final(cache)@ == memo_spec(old(cache)@, *verifier, req@, opt_bytes(recovered)),
{
    match cache.get(&req.tx_hash) {
        Some(resp) => resp,
        None => {
            let resp = verfiy_tx(req, verifier, recovered);
            cache.put(&req.tx_hash, resp.duplicate());
            resp
        },
    }
}

/// Memoization does not change the answer: once a worker has handled a request, the
/// service gives the same response for it as before, and handling it again changes
/// the cache no further.
pub proof fn lemma_service_idempotent(
    cache: Map<Seq<u8>, RespView>,
    verifier: Verifier,
    req: ReqView,
    recovered: Option<Seq<u8>>,
)
    ensures
        service_spec(memo_spec(cache, verifier, req, recovered), verifier, req, recovered)
            == service_spec(cache, verifier, req, recovered),
        memo_spec(memo_spec(cache, verifier, req, recovered), verifier, req, recovered)
            == memo_spec(cache, verifier, req, recovered),
{
}

} // verus!
