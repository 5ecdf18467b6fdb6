use vstd::prelude::*;
use crate::types::{bytes_eq, copy_bytes, opt_bytes, ReqView, Ret, RespView, VerifyTxReq, VerifyTxResp};

verus! {

/// The set of hash values held in a list of byte strings.
pub open spec fn hash_set(v: Seq<Vec<u8>>) -> Set<Seq<u8>> {
    Set::new(|x: Seq<u8>| exists|j: int| 0 <= j < v.len() && #[trigger] v[j]@ == x)
}

/// The transaction hashes known for one block height.
pub struct HeightHashes {
    pub height: u64,
    pub hashes: Vec<Vec<u8>>,
}

/// Stateful rule engine that classifies transaction verification requests.
pub struct Verifier {
    height: u64,
    inited: bool,
    records: Vec<HeightHashes>,
    record: Ghost<Map<u64, Set<Seq<u8>>>>,
}

impl Verifier {
    /// The current block height.
    pub closed spec fn current_height(&self) -> u64 {
        self.height
    }

    /// Whether the initial sync is complete.
    pub closed spec fn synced(&self) -> bool {
        self.inited
    }

    /// The known-hash record: for each height, the hashes known at it.
    pub closed spec fn record(&self) -> Map<u64, Set<Seq<u8>>> {
        self.record@
    }

    /// Whether a hash is in the record, at any height.
    pub open spec fn known(&self, h: Seq<u8>) -> bool {
        exists|g: u64| #[trigger] self.record().contains_key(g) && self.record()[g].contains(h)
    }

    pub closed spec fn wf(&self) -> bool {
        &&& forall|i: int, k: int|
            0 <= i < k < self.records@.len() ==> #[trigger] self.records@[i].height
                != #[trigger] self.records@[k].height
        &&& forall|i: int|
            0 <= i < self.records@.len() ==> {
                let r = #[trigger] self.records@[i];
                self.record@.contains_key(r.height) && self.record@[r.height] == hash_set(r.hashes@)
            }
        &&& forall|g: u64|
            #[trigger] self.record@.contains_key(g) ==> exists|i: int|
                0 <= i < self.records@.len() && #[trigger] self.records@[i].height == g
    }

    /// The response that the rules give to `req`, where `recovered` is the outcome of
    /// signature recovery on it (`None` on a cryptographic failure).
    pub open spec fn verify_spec(&self, req: ReqView, recovered: Option<Seq<u8>>) -> RespView {
        if self.current_height() > req.valid_until_block {
            RespView { tx_hash: req.tx_hash, ret: Ret::OutOfTime, signer: seq![] }
        } else if self.known(req.tx_hash) {
            RespView {
                tx_hash: req.tx_hash,
                ret: if self.synced() { Ret::Dup } else { Ret::NotReady },
                signer: seq![],
            }
        } else {
            match recovered {
                None => RespView { tx_hash: req.tx_hash, ret: Ret::BadSig, signer: seq![] },
                Some(addr) => if req.signer.len() != 0 && req.signer != addr {
                    RespView { tx_hash: req.tx_hash, ret: Ret::BadSig, signer: seq![] }
                } else {
                    RespView { tx_hash: req.tx_hash, ret: Ret::OK, signer: addr }
                },
            }
        }
    }

    /// A verifier at height 0, before initial sync, with an empty record.
    pub fn new() -> (r: Verifier)
        ensures
            r.wf(),
            r.current_height() == 0,
            !r.synced(),
            r.record() == Map::<u64, Set<Seq<u8>>>::empty(),
    {
        Verifier { height: 0, inited: false, records: Vec::new(), record: Ghost(Map::empty()) }
    }

    pub fn get_height(&self) -> (r: u64)
        ensures
            r == self.current_height(),
    {
        self.height
    }

    pub fn is_inited(&self) -> (r: bool)
        ensures
            r == self.synced(),
    {
        self.inited
    }

    /// Marks the initial sync as complete.
    pub fn set_inited(&mut self)
        requires
            old(self).wf(),
        ensures
            final(self).wf(),
            final(self).synced(),
            final(self).current_height() == old(self).current_height(),
            final(self).record() == old(self).record(),
    {
        self.inited = true;
        assert(self.records@ == old(self).records@);
        assert(self.record@ == old(self).record@);
    }

    /// Whether the expiry window still admits a transaction valid until `valid_until_block`.
    pub fn verify_valid_until_block(&self, valid_until_block: u64) -> (r: bool)
        ensures
            r == (self.current_height() <= valid_until_block),
    {
        self.height <= valid_until_block
    }

    /// Whether `hash` is in the known-hash record.
    pub fn check_hash_exist(&self, hash: &Vec<u8>) -> (r: bool)
        requires
            self.wf(),
        ensures
            r == self.known(hash@),
    {
        let mut i: usize = 0;
        while i < self.records.len()
            invariant
                self.wf(),
                0 <= i <= self.records@.len(),
                forall|a: int, j: int|
                    0 <= a < i && 0 <= j < self.records@[a].hashes@.len()
                        ==> #[trigger] self.records@[a].hashes@[j]@ != hash@,
            decreases self.records@.len() - i,
        {
            let rec = &self.records[i];
            let mut j: usize = 0;
            while j < rec.hashes.len()
                invariant
                    self.wf(),
                    0 <= i < self.records@.len(),
                    *rec == self.records@[i as int],
                    0 <= j <= rec.hashes@.len(),
                    forall|a: int, k: int|
                        0 <= a < i && 0 <= k < self.records@[a].hashes@.len()
                            ==> #[trigger] self.records@[a].hashes@[k]@ != hash@,
                    forall|k: int| 0 <= k < j ==> #[trigger] rec.hashes@[k]@ != hash@,
                decreases rec.hashes@.len() - j,
            {
                if bytes_eq(&rec.hashes[j], hash) {
                    let g = rec.height;
                    assert(self.record@.contains_key(self.records@[i as int].height));
                    assert(rec.hashes@[j as int]@ == hash@);
                    assert(hash_set(rec.hashes@).contains(hash@));
                    assert(self.record()[g].contains(hash@));
                    return true;
                }
                j = j + 1;
            }
            i = i + 1;
        }
        assert forall|g: u64| #[trigger] self.record().contains_key(g) implies !self.record()[g].contains(hash@) by {
            let a = choose|a: int| 0 <= a < self.records@.len() && #[trigger] self.records@[a].height == g;
            assert(self.record@[g] == hash_set(self.records@[a].hashes@));
        }
        false
    }

    /// Replaces the hashes known at `height` with `hashes`, and raises the current
    /// height to `height` where it is below it.
    pub fn update_hashes(&mut self, height: u64, hashes: Vec<Vec<u8>>)
        requires
            old(self).wf(),
        ensures
            final(self).wf(),
            final(self).record() == old(self).record().insert(height, hash_set(hashes@)),
            final(self).current_height() == if height > old(self).current_height() {
                height
            } else {
                old(self).current_height()
            },
            final(self).synced() == old(self).synced(),
    {
        if height > self.height {
            self.height = height;
        }
        let ghost new_set = hash_set(hashes@);
        let ghost old_map = self.record@;
        let mut i: usize = 0;
        let mut found = false;
        while i < self.records.len() && !found
            invariant
                0 <= i <= self.records@.len(),
                found ==> i < self.records@.len() && self.records@[i as int].height == height,
                forall|k: int| 0 <= k < i ==> #[trigger] self.records@[k].height != height,
            decreases self.records@.len() - i + if found { 0int } else { 1int },
        {
            if self.records[i].height == height {
                found = true;
            } else {
                i = i + 1;
            }
        }
        let ghost old_records = self.records@;
        if found {
            self.records.set(i, HeightHashes { height, hashes });
            self.record = Ghost(old_map.insert(height, new_set));
            assert(forall|k: int| 0 <= k < self.records@.len() && k != i ==> self.records@[k] == old_records[k]);
        } else {
            self.records.push(HeightHashes { height, hashes });
            self.record = Ghost(old_map.insert(height, new_set));
            assert(forall|k: int| 0 <= k < old_records.len() ==> self.records@[k] == old_records[k]);
            assert(self.records@[old_records.len() as int].height == height);
        }
        assert forall|g: u64| #[trigger] self.record@.contains_key(g) implies exists|a: int|
            0 <= a < self.records@.len() && #[trigger] self.records@[a].height == g by {
            if g == height {
                if found {
                    assert(self.records@[i as int].height == g);
                } else {
                    assert(self.records@[old_records.len() as int].height == g);
                }
            } else {
                let a = choose|a: int| 0 <= a < old_records.len() && #[trigger] old_records[a].height == g;
                assert(self.records@[a].height == g);
            }
        }
        assert forall|a: int, k: int| 0 <= a < k < self.records@.len() implies #[trigger] self.records@[a].height
            != #[trigger] self.records@[k].height by {
            if found {
                assert(old_records[i as int].height == height);
                if a == i {
                    assert(old_records[k].height == self.records@[k].height);
                    assert(old_records[a].height != old_records[k].height);
                } else if k == i {
                    assert(old_records[a].height == self.records@[a].height);
                    assert(old_records[a].height != old_records[k].height);
                } else {
                    assert(old_records[a].height != old_records[k].height);
                }
            } else {
                if k == old_records.len() {
                    assert(old_records[a].height == self.records@[a].height);
                } else {
                    assert(old_records[a].height != old_records[k].height);
                }
            }
        }
        assert forall|a: int| 0 <= a < self.records@.len() implies {
            let r = #[trigger] self.records@[a];
            self.record@.contains_key(r.height) && self.record@[r.height] == hash_set(r.hashes@)
        } by {
            if self.records@[a].height != height {
                assert(self.records@[a] == old_records[a]);
                assert(old_map.contains_key(old_records[a].height));
                assert(old_map[old_records[a].height] == hash_set(old_records[a].hashes@));
            } else if found {
                assert(a == i);
            } else {
                assert(a == old_records.len());
            }
        }
    }
}

/// The outcomes of the rules. An expired transaction is out of time whatever its
/// signature; an unexpired one whose hash is known is a duplicate after initial sync,
/// and not ready before it, whatever its signature; any other fails on a signature
/// that does not recover, or that recovers to another address than the claimed signer.
pub proof fn lemma_rule_outcomes(v: Verifier, req: ReqView, recovered: Option<Seq<u8>>)
    ensures
        v.current_height() > req.valid_until_block ==> v.verify_spec(req, recovered).ret
            == Ret::OutOfTime,
        v.current_height() <= req.valid_until_block && v.known(req.tx_hash) ==> v.verify_spec(
            req,
            recovered,
        ).ret == if v.synced() {
            Ret::Dup
        } else {
            Ret::NotReady
        },
        v.current_height() <= req.valid_until_block && !v.known(req.tx_hash) && recovered is None
            ==> v.verify_spec(req, recovered).ret == Ret::BadSig,
        v.current_height() <= req.valid_until_block && !v.known(req.tx_hash) && recovered
            is Some && req.signer.len() != 0 && req.signer != recovered->0 ==> v.verify_spec(
            req,
            recovered,
        ).ret == Ret::BadSig,
        v.verify_spec(req, recovered).tx_hash == req.tx_hash,
{
}

/// Classifies one transaction verification request. The rules apply in order and the
/// first that matches decides: expiry, then the known-hash record, then the signature.
/// `recovered` is the outcome of signature recovery on `req` (`None` on a cryptographic
/// failure).
pub fn verfiy_tx(req: &VerifyTxReq, verifier: &Verifier, recovered: &Option<Vec<u8>>) -> (r: VerifyTxResp)
    requires
        verifier.wf(),
    ensures
        r@ == verifier.verify_spec(req@, opt_bytes(recovered)),
{
    let tx_hash = copy_bytes(&req.tx_hash);
    if !verifier.verify_valid_until_block(req.valid_until_block) {
        return VerifyTxResp { tx_hash, ret: Ret::OutOfTime, signer: Vec::new() };
    }
    if verifier.check_hash_exist(&req.tx_hash) {
        let ret = if verifier.is_inited() { Ret::Dup } else { Ret::NotReady };
        return VerifyTxResp { tx_hash, ret, signer: Vec::new() };
    }
    match recovered {
        None => VerifyTxResp { tx_hash, ret: Ret::BadSig, signer: Vec::new() },
        Some(addr) => {
            if req.signer.len() != 0 && !bytes_eq(&req.signer, addr) {
                VerifyTxResp { tx_hash, ret: Ret::BadSig, signer: Vec::new() }
            } else {
                VerifyTxResp { tx_hash, ret: Ret::OK, signer: copy_bytes(addr) }
            }
        },
    }
}

} // verus!
