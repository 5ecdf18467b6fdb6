use vstd::prelude::*;
use crate::types::Ret;

verus! {

/// Where the verification of a block stands.
#[derive(Clone, Copy, Debug, PartialEq, Eq, Structural)]
pub enum VerifyResult {
    VerifyOngoing,
    VerifyFailed,
    VerifySucceeded,
}

/// Aggregation record of one block verification request.
#[derive(Clone, Copy, Debug, PartialEq, Eq, Structural)]
pub struct BlockVerifyStatus {
    pub block_verify_result: VerifyResult,
    /// Number of transactions in the block.
    pub verify_success_cnt_required: usize,
    /// Number of successes observed so far.
    pub verify_success_cnt_capture: usize,
}

impl BlockVerifyStatus {
    /// The counts agree with the result: fewer successes than required while the
    /// block is open or failed, all of them once it has succeeded.
    pub open spec fn wf(&self) -> bool {
        match self.block_verify_result {
            VerifyResult::VerifySucceeded => self.verify_success_cnt_capture
                == self.verify_success_cnt_required,
            _ => self.verify_success_cnt_capture < self.verify_success_cnt_required,
        }
    }

    /// Whether a decision has been taken for the block.
    pub open spec fn is_decided(&self) -> bool {
        self.block_verify_result != VerifyResult::VerifyOngoing
    }

    /// The record of a block of `required` transactions before any response.
    pub open spec fn fresh_spec(required: usize) -> BlockVerifyStatus {
        BlockVerifyStatus {
            block_verify_result: VerifyResult::VerifyOngoing,
            verify_success_cnt_required: required,
            verify_success_cnt_capture: 0,
        }
    }

    /// A new open record for a block of `required` transactions.
    pub fn fresh(required: usize) -> (r: BlockVerifyStatus)
        ensures
            r == BlockVerifyStatus::fresh_spec(required),
    {
        BlockVerifyStatus {
            block_verify_result: VerifyResult::VerifyOngoing,
            verify_success_cnt_required: required,
            verify_success_cnt_capture: 0,
        }
    }
}

/// One transition of the aggregation record on a response with result `ret`: the
/// new record, and the block result to publish, if any.
pub open spec fn step(s: BlockVerifyStatus, ret: Ret) -> (BlockVerifyStatus, Option<Ret>) {
    if s.is_decided() {
        (s, None)
    } else if ret != Ret::OK {
        (BlockVerifyStatus { block_verify_result: VerifyResult::VerifyFailed, ..s }, Some(ret))
    } else if s.verify_success_cnt_capture + 1 == s.verify_success_cnt_required {
        (
            BlockVerifyStatus {
                block_verify_result: VerifyResult::VerifySucceeded,
                verify_success_cnt_capture: (s.verify_success_cnt_capture + 1) as usize,
                ..s
            },
            Some(Ret::OK),
        )
    } else {
        (
            BlockVerifyStatus {
                verify_success_cnt_capture: (s.verify_success_cnt_capture + 1) as usize,
                ..s
            },
            None,
        )
    }
}

/// The record after the responses `rets`, in order of arrival, and the block results
/// published on the way.
pub open spec fn run(s: BlockVerifyStatus, rets: Seq<Ret>) -> (BlockVerifyStatus, Seq<Ret>)
    decreases rets.len(),
{
    if rets.len() == 0 {
        (s, seq![])
    } else {
        let (s1, p) = run(s, rets.drop_last());
        let (s2, q) = step(s1, rets.last());
        (
            s2,
            match q {
                Some(r) => p.push(r),
                None => p,
            },
        )
    }
}

/// A transition keeps the record well formed.
pub proof fn lemma_step_wf(s: BlockVerifyStatus, ret: Ret)
    requires
        s.wf(),
    ensures
        step(s, ret).0.wf(),
        step(s, ret).0.verify_success_cnt_required == s.verify_success_cnt_required,
{
}

/// Once a block is decided, later responses change nothing and publish nothing.
pub proof fn lemma_decided_inert(s: BlockVerifyStatus, rets: Seq<Ret>)
    requires
        s.is_decided(),
    ensures
        run(s, rets) == (s, Seq::<Ret>::empty()),
    decreases rets.len(),
{
    if rets.len() > 0 {
        lemma_decided_inert(s, rets.drop_last());
    }
}

/// Feeding `a` and then `b` is feeding `a + b`.
pub proof fn lemma_run_append(s: BlockVerifyStatus, a: Seq<Ret>, b: Seq<Ret>)
    ensures
        run(s, a + b) == (run(run(s, a).0, b).0, run(s, a).1 + run(run(s, a).0, b).1),
    decreases b.len(),
{
    if b.len() == 0 {
        assert(a + b =~= a);
        assert(run(s, a).1 + Seq::<Ret>::empty() =~= run(s, a).1);
    } else {
        assert((a + b).drop_last() =~= a + b.drop_last());
        assert((a + b).last() == b.last());
        lemma_run_append(s, a, b.drop_last());
        let m = run(run(s, a).0, b.drop_last());
        let q = step(m.0, b.last()).1;
        match q {
            Some(r) => {
                assert(run(s, a).1 + m.1.push(r) =~= (run(s, a).1 + m.1).push(r));
            },
            None => {},
        }
    }
}

/// The whole course of a block of `n` transactions, up to `n` responses: while every
/// response so far is `OK`, the record counts them and publishes once, `OK`, at the
/// `n`th; after a failure the block has failed and has published exactly one result,
/// a failing code found among the responses.
pub proof fn lemma_run_fresh(n: usize, rets: Seq<Ret>)
    requires
        n > 0,
        rets.len() <= n,
    ensures
        run(BlockVerifyStatus::fresh_spec(n), rets).0.wf(),
        run(BlockVerifyStatus::fresh_spec(n), rets).0.verify_success_cnt_required == n,
        (forall|i: int| 0 <= i < rets.len() ==> rets[i] == Ret::OK) ==> {
            let (s, p) = run(BlockVerifyStatus::fresh_spec(n), rets);
            &&& s.verify_success_cnt_capture == rets.len()
            &&& s.block_verify_result == if rets.len() == n {
                VerifyResult::VerifySucceeded
            } else {
                VerifyResult::VerifyOngoing
            }
            &&& p == if rets.len() == n {
                seq![Ret::OK]
            } else {
                Seq::<Ret>::empty()
            }
        },
        (exists|i: int| 0 <= i < rets.len() && rets[i] != Ret::OK) ==> {
            let (s, p) = run(BlockVerifyStatus::fresh_spec(n), rets);
            &&& s.block_verify_result == VerifyResult::VerifyFailed
            &&& p.len() == 1
            &&& p[0] != Ret::OK
            &&& rets.contains(p[0])
        },
    decreases rets.len(),
{
    let f = BlockVerifyStatus::fresh_spec(n);
    if rets.len() == 0 {
        return;
    }
    let init = rets.drop_last();
    lemma_run_fresh(n, init);
    let (s1, p1) = run(f, init);
    lemma_step_wf(s1, rets.last());
    let all_init = forall|i: int| 0 <= i < init.len() ==> init[i] == Ret::OK;
    if all_init {
        if rets.last() == Ret::OK {
            assert forall|i: int| 0 <= i < rets.len() implies rets[i] == Ret::OK by {
                if i < init.len() {
                    assert(init[i] == rets[i]);
                }
            }
        } else {
            assert(run(f, rets).1 =~= seq![rets.last()]);
            assert(rets[rets.len() - 1] == rets.last());
        }
    } else {
        let i = choose|i: int| 0 <= i < init.len() && init[i] != Ret::OK;
        assert(rets[i] == init[i]);
        assert(run(f, rets) == (s1, p1));
        assert(init.contains(p1[0]));
        let k = choose|k: int| 0 <= k < init.len() && init[k] == p1[0];
        assert(rets[k] == init[k]);
    }
}

/// A block of `n` transactions that all succeed publishes `OK` exactly once, when the
/// `n`th success arrives, and nothing before.
pub proof fn lemma_block_all_succeed(n: usize, rets: Seq<Ret>)
    requires
        n > 0,
        rets.len() == n,
        forall|i: int| 0 <= i < rets.len() ==> rets[i] == Ret::OK,
    ensures
        run(BlockVerifyStatus::fresh_spec(n), rets).0.block_verify_result
            == VerifyResult::VerifySucceeded,
        run(BlockVerifyStatus::fresh_spec(n), rets).1 == seq![Ret::OK],
        forall|k: int|
            0 <= k < n ==> #[trigger] run(BlockVerifyStatus::fresh_spec(n), rets.take(k)).1
                == Seq::<Ret>::empty(),
{
    lemma_run_fresh(n, rets);
    assert forall|k: int| 0 <= k < n implies #[trigger] run(
        BlockVerifyStatus::fresh_spec(n),
        rets.take(k),
    ).1 == Seq::<Ret>::empty() by {
        lemma_run_fresh(n, rets.take(k));
    }
}

/// A block of `n` transactions whose transaction `k` is the first to fail publishes
/// exactly one result, that failure's code, and is failed for good, whatever arrives
/// after it.
pub proof fn lemma_block_first_failure(n: usize, rets: Seq<Ret>, k: int)
    requires
        0 <= k < n,
        k < rets.len(),
        forall|i: int| 0 <= i < k ==> rets[i] == Ret::OK,
        rets[k] != Ret::OK,
    ensures
        run(BlockVerifyStatus::fresh_spec(n), rets).0.block_verify_result
            == VerifyResult::VerifyFailed,
        run(BlockVerifyStatus::fresh_spec(n), rets).1 == seq![rets[k]],
{
    let f = BlockVerifyStatus::fresh_spec(n);
    let a = rets.take(k + 1);
    let b = rets.skip(k + 1);
    assert(rets =~= a + b);
    lemma_run_append(f, a, b);
    lemma_run_fresh(n, a.drop_last());
    assert(a.drop_last() =~= rets.take(k));
    assert(a.last() == rets[k]);
    let s = run(f, a).0;
    assert(run(f, a).1 =~= seq![rets[k]]);
    lemma_decided_inert(s, b);
    assert(seq![rets[k]] + Seq::<Ret>::empty() =~= seq![rets[k]]);
}

/// For a block of `n` transactions, the order in which the `n` responses arrive does
/// not change whether the block succeeds or fails, and exactly one result is published
/// in every order: `OK` on success, else one of the failing codes among the responses.
pub proof fn lemma_block_order_independent(n: usize, a: Seq<Ret>, b: Seq<Ret>)
    requires
        n > 0,
        a.len() == n,
        a.to_multiset() == b.to_multiset(),
    ensures
        run(BlockVerifyStatus::fresh_spec(n), a).0.block_verify_result == run(
            BlockVerifyStatus::fresh_spec(n),
            b,
        ).0.block_verify_result,
        run(BlockVerifyStatus::fresh_spec(n), a).1.len() == 1,
        run(BlockVerifyStatus::fresh_spec(n), b).1.len() == 1,
        run(BlockVerifyStatus::fresh_spec(n), a).0.block_verify_result
            == VerifyResult::VerifySucceeded ==> run(BlockVerifyStatus::fresh_spec(n), a).1 == seq![
            Ret::OK,
        ] && run(BlockVerifyStatus::fresh_spec(n), b).1 == seq![Ret::OK],
        run(BlockVerifyStatus::fresh_spec(n), a).0.block_verify_result
            == VerifyResult::VerifyFailed ==> {
            let pa = run(BlockVerifyStatus::fresh_spec(n), a).1[0];
            let pb = run(BlockVerifyStatus::fresh_spec(n), b).1[0];
            &&& pa != Ret::OK && a.contains(pa) && b.contains(pa)
            &&& pb != Ret::OK && a.contains(pb) && b.contains(pb)
        },
{
    a.to_multiset_ensures();
    b.to_multiset_ensures();
    assert(b.len() == n);
    lemma_run_fresh(n, a);
    lemma_run_fresh(n, b);
    let pa = run(BlockVerifyStatus::fresh_spec(n), a).1[0];
    let pb = run(BlockVerifyStatus::fresh_spec(n), b).1[0];
    assert(a.contains(pa) ==> a.to_multiset().count(pa) > 0);
    assert(b.contains(pa) <== b.to_multiset().count(pa) > 0);
    assert(b.contains(pb) ==> b.to_multiset().count(pb) > 0);
    assert(a.contains(pb) <== a.to_multiset().count(pb) > 0);
    if exists|i: int| 0 <= i < a.len() && a[i] != Ret::OK {
        let i = choose|i: int| 0 <= i < a.len() && a[i] != Ret::OK;
        assert(a.contains(a[i]));
        assert(a.to_multiset().count(a[i]) > 0);
        assert(b.to_multiset().count(a[i]) > 0);
        assert(b.contains(a[i]));
    } else if exists|i: int| 0 <= i < b.len() && b[i] != Ret::OK {
        let i = choose|i: int| 0 <= i < b.len() && b[i] != Ret::OK;
        assert(b.contains(b[i]));
        assert(b.to_multiset().count(b[i]) > 0);
        assert(a.to_multiset().count(b[i]) > 0);
        assert(a.contains(b[i]));
    }
}

} // verus!
