use vstd::prelude::*;
use crate::block::{lemma_step_wf, step, BlockVerifyStatus, VerifyResult};
use crate::types::{bytes_eq, copy_bytes, RespView, Ret, VerifyTxResp};

verus! {

/// Memoized responses, keyed by transaction hash.
pub struct VerifyCache {
    entries: Vec<(Vec<u8>, VerifyTxResp)>,
    contents: Ghost<Map<Seq<u8>, RespView>>,
}

impl View for VerifyCache {
    type V = Map<Seq<u8>, RespView>;

    closed spec fn view(&self) -> Map<Seq<u8>, RespView> {
        self.contents@
    }
}

impl VerifyCache {
    pub closed spec fn wf(&self) -> bool {
        &&& forall|i: int|
            0 <= i < self.entries@.len() ==> {
                let e = #[trigger] self.entries@[i];
                self.contents@.contains_key(e.0@) && self.contents@[e.0@] == e.1@
            }
        &&& forall|h: Seq<u8>|
            #[trigger] self.contents@.contains_key(h) ==> exists|i: int|
                0 <= i < self.entries@.len() && #[trigger] self.entries@[i].0@ == h
    }

    pub fn new() -> (r: VerifyCache)
        ensures
            r.wf(),
            r@ == Map::<Seq<u8>, RespView>::empty(),
    {
        VerifyCache { entries: Vec::new(), contents: Ghost(Map::empty()) }
    }

    /// The position of the entry for `hash`, if there is one.
    fn find(&self, hash: &Vec<u8>) -> (r: Option<usize>)
        requires
            self.wf(),
        ensures
            match r {
                Some(i) => i < self.entries@.len() && self.entries@[i as int].0@ == hash@,
                None => !self@.contains_key(hash@),
            },
    {
        let mut i: usize = 0;
        while i < self.entries.len()
            invariant
                0 <= i <= self.entries@.len(),
                forall|k: int| 0 <= k < i ==> #[trigger] self.entries@[k].0@ != hash@,
            decreases self.entries@.len() - i,
        {
            if bytes_eq(&self.entries[i].0, hash) {
                return Some(i);
            }
            i = i + 1;
        }
        None
    }

    /// The response memoized for `hash`, if any.
    pub fn get(&self, hash: &Vec<u8>) -> (r: Option<VerifyTxResp>)
        requires
            self.wf(),
        ensures
            match r {
                Some(resp) => self@.contains_key(hash@) && resp@ == self@[hash@],
                None => !self@.contains_key(hash@),
            },
    {
        match self.find(hash) {
            Some(i) => Some(self.entries[i].1.duplicate()),
            None => None,
        }
    }

    /// Memoizes `resp` for `hash`. A hash that already has a response keeps it: an
    /// entry is never overwritten.
    pub fn put(&mut self, hash: &Vec<u8>, resp: VerifyTxResp)
        requires
            old(self).wf(),
        ensures
            final(self).wf(),
            final(self)@ == if old(self)@.contains_key(hash@) {
                old(self)@
            } else {
                old(self)@.insert(hash@, resp@)
            },
    {
        if self.find(hash).is_some() {
            return;
        }
        let ghost old_entries = self.entries@;
        self.contents = Ghost(self.contents@.insert(hash@, resp@));
        self.entries.push((copy_bytes(hash), resp));
        assert forall|i: int| 0 <= i < self.entries@.len() implies {
            let e = #[trigger] self.entries@[i];
            self.contents@.contains_key(e.0@) && self.contents@[e.0@] == e.1@
        } by {
            if i < old_entries.len() {
                assert(self.entries@[i] == old_entries[i]);
            }
        }
        assert forall|h: Seq<u8>| #[trigger] self.contents@.contains_key(h) implies exists|i: int|
            0 <= i < self.entries@.len() && #[trigger] self.entries@[i].0@ == h by {
            if h == hash@ {
                assert(self.entries@[old_entries.len() as int].0@ == h);
            } else {
                let i = choose|i: int| 0 <= i < old_entries.len() && #[trigger] old_entries[i].0@ == h;
                assert(self.entries@[i] == old_entries[i]);
            }
        }
    }
}

/// Aggregation records of the block verification requests in flight, keyed by block id.
pub struct VerifyBlockCache {
    entries: Vec<(u64, BlockVerifyStatus)>,
    contents: Ghost<Map<u64, BlockVerifyStatus>>,
}

impl View for VerifyBlockCache {
    type V = Map<u64, BlockVerifyStatus>;

    closed spec fn view(&self) -> Map<u64, BlockVerifyStatus> {
        self.contents@
    }
}

impl VerifyBlockCache {
    /// The entries match the contents, and every record is well formed.
    pub closed spec fn wf(&self) -> bool {
        &&& forall|i: int, k: int|
            0 <= i < k < self.entries@.len() ==> #[trigger] self.entries@[i].0
                != #[trigger] self.entries@[k].0
        &&& forall|i: int|
            0 <= i < self.entries@.len() ==> {
                let e = #[trigger] self.entries@[i];
                self.contents@.contains_key(e.0) && self.contents@[e.0] == e.1
            }
        &&& forall|id: u64|
            #[trigger] self.contents@.contains_key(id) ==> exists|i: int|
                0 <= i < self.entries@.len() && #[trigger] self.entries@[i].0 == id
        &&& forall|id: u64| #[trigger] self.contents@.contains_key(id) ==> self.contents@[id].wf()
    }

    pub fn new() -> (r: VerifyBlockCache)
        ensures
            r.wf(),
            r@ == Map::<u64, BlockVerifyStatus>::empty(),
    {
        VerifyBlockCache { entries: Vec::new(), contents: Ghost(Map::empty()) }
    }

    /// The position of the entry for `id`, if there is one.
    fn find(&self, id: u64) -> (r: Option<usize>)
        requires
            self.wf(),
        ensures
            match r {
                Some(i) => i < self.entries@.len() && self.entries@[i as int].0 == id,
                None => !self@.contains_key(id),
            },
    {
        let mut i: usize = 0;
        while i < self.entries.len()
            invariant
                0 <= i <= self.entries@.len(),
                forall|k: int| 0 <= k < i ==> #[trigger] self.entries@[k].0 != id,
            decreases self.entries@.len() - i,
        {
            if self.entries[i].0 == id {
                return Some(i);
            }
            i = i + 1;
        }
        None
    }

    pub fn contains(&self, id: u64) -> (r: bool)
        requires
            self.wf(),
        ensures
            r == self@.contains_key(id),
    {
        self.find(id).is_some()
    }

    /// The record of block `id`, if there is one.
    pub fn get(&self, id: u64) -> (r: Option<BlockVerifyStatus>)
        requires
            self.wf(),
        ensures
            match r {
                Some(s) => self@.contains_key(id) && s == self@[id],
                None => !self@.contains_key(id),
            },
    {
        match self.find(id) {
            Some(i) => Some(self.entries[i].1),
            None => None,
        }
    }

    /// Adds the record of a new block `id`. Fails, changing nothing, when `id` is
    /// already in flight.
    pub fn insert(&mut self, id: u64, status: BlockVerifyStatus) -> (r: Result<(), ()>)
        requires
            old(self).wf(),
            status.wf(),
        ensures
            final(self).wf(),
            r is Ok <==> !old(self)@.contains_key(id),
            final(self)@ == if old(self)@.contains_key(id) {
                old(self)@
            } else {
                old(self)@.insert(id, status)
            },
    {
        if self.find(id).is_some() {
            return Err(());
        }
        let ghost old_entries = self.entries@;
        self.contents = Ghost(self.contents@.insert(id, status));
        self.entries.push((id, status));
        assert forall|i: int, k: int| 0 <= i < k < self.entries@.len() implies #[trigger] self.entries@[i].0
            != #[trigger] self.entries@[k].0 by {
            if k == old_entries.len() {
                assert(self.entries@[i] == old_entries[i]);
                assert(old_entries[i].0 != id);
            } else {
                assert(self.entries@[i] == old_entries[i]);
                assert(self.entries@[k] == old_entries[k]);
            }
        }
        assert forall|i: int| 0 <= i < self.entries@.len() implies {
            let e = #[trigger] self.entries@[i];
            self.contents@.contains_key(e.0) && self.contents@[e.0] == e.1
        } by {
            if i < old_entries.len() {
                assert(self.entries@[i] == old_entries[i]);
            }
        }
        assert forall|h: u64| #[trigger] self.contents@.contains_key(h) implies exists|i: int|
            0 <= i < self.entries@.len() && #[trigger] self.entries@[i].0 == h by {
            if h == id {
                assert(self.entries@[old_entries.len() as int].0 == h);
            } else {
                let i = choose|i: int| 0 <= i < old_entries.len() && #[trigger] old_entries[i].0 == h;
                assert(self.entries@[i] == old_entries[i]);
            }
        }
        Ok(())
    }

    /// Advances the record of block `id` on a response with result `ret`, and returns
    /// the block result to publish, if any.
    pub fn advance(&mut self, id: u64, ret: Ret) -> (r: Option<Ret>)
        requires
            old(self).wf(),
            old(self)@.contains_key(id),
        ensures
            final(self).wf(),
            final(self)@ == old(self)@.insert(id, step(old(self)@[id], ret).0),
            r == step(old(self)@[id], ret).1,
    {
        let i = match self.find(id) {
            Some(i) => i,
            None => { return None; },
        };
        let ghost old_entries = self.entries@;
        let s = self.entries[i].1;
        assert(s == self.contents@[id]);
        let (next, out) = if s.block_verify_result != VerifyResult::VerifyOngoing {
            (s, None)
        } else if ret != Ret::OK {
            (BlockVerifyStatus { block_verify_result: VerifyResult::VerifyFailed, ..s }, Some(ret))
        } else if s.verify_success_cnt_capture + 1 == s.verify_success_cnt_required {
            (
                BlockVerifyStatus {
                    block_verify_result: VerifyResult::VerifySucceeded,
                    verify_success_cnt_capture: s.verify_success_cnt_capture + 1,
                    ..s
                },
                Some(Ret::OK),
            )
        } else {
            (BlockVerifyStatus { verify_success_cnt_capture: s.verify_success_cnt_capture + 1, ..s }, None)
        };
        assert(next == step(s, ret).0 && out == step(s, ret).1);
        proof {
            lemma_step_wf(s, ret);
        }
        self.contents = Ghost(self.contents@.insert(id, next));
        self.entries.set(i, (id, next));
        assert forall|a: int, k: int| 0 <= a < k < self.entries@.len() implies #[trigger] self.entries@[a].0
            != #[trigger] self.entries@[k].0 by {
            assert(self.entries@[a].0 == old_entries[a].0);
            assert(self.entries@[k].0 == old_entries[k].0);
        }
        assert forall|a: int| 0 <= a < self.entries@.len() implies {
            let e = #[trigger] self.entries@[a];
            self.contents@.contains_key(e.0) && self.contents@[e.0] == e.1
        } by {
            if a != i {
                assert(self.entries@[a] == old_entries[a]);
                assert(old_entries[a].0 != old_entries[i as int].0);
            }
        }
        assert forall|h: u64| #[trigger] self.contents@.contains_key(h) implies exists|a: int|
            0 <= a < self.entries@.len() && #[trigger] self.entries@[a].0 == h by {
            let a = choose|a: int| 0 <= a < old_entries.len() && #[trigger] old_entries[a].0 == h;
            assert(self.entries@[a].0 == old_entries[a].0);
        }
        out
    }
}

} // verus!
