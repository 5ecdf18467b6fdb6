use vstd::prelude::*;

verus! {

/// Result code of a transaction verification.
#[derive(Clone, Copy, Debug, PartialEq, Eq, Structural)]
pub enum Ret {
    OK,
    OutOfTime,
    Dup,
    NotReady,
    BadSig,
}

/// Whether a verification job belongs to a single transaction or to a block.
#[derive(Clone, Copy, Debug, PartialEq, Eq, Structural)]
pub enum VerifyType {
    SingleVerify,
    BlockVerify,
}

/// The contents of an optional byte string.
pub open spec fn opt_bytes(o: &Option<Vec<u8>>) -> Option<Seq<u8>> {
    match o {
        Some(v) => Some(v@),
        None => None,
    }
}

/// Byte-wise equality of two byte strings.
pub fn bytes_eq(a: &Vec<u8>, b: &Vec<u8>) -> (r: bool)
    ensures
        r == (a@ == b@),
{
    if a.len() != b.len() {
        return false;
    }
    let mut i: usize = 0;
    while i < a.len()
        invariant
            a@.len() == b@.len(),
            0 <= i <= a@.len(),
            a@.subrange(0, i as int) == b@.subrange(0, i as int),
        decreases a@.len() - i,
    {
        if a[i] != b[i] {
            assert(a@[i as int] != b@[i as int]);
            return false;
        }
        assert(a@.subrange(0, i + 1) == a@.subrange(0, i as int).push(a@[i as int]));
        assert(b@.subrange(0, i + 1) == b@.subrange(0, i as int).push(b@[i as int]));
        i = i + 1;
    }
    assert(a@ == a@.subrange(0, a@.len() as int));
    assert(b@ == b@.subrange(0, b@.len() as int));
    true
}

/// A copy of a byte string with the same contents.
pub fn copy_bytes(a: &Vec<u8>) -> (r: Vec<u8>)
    ensures
        r@ == a@,
{
    let r = a.clone();
    assert(r@ =~= a@);
    r
}


/// A request to verify one transaction.
#[derive(Debug)]
pub struct VerifyTxReq {
    /// Digest that identifies the transaction.
    pub tx_hash: Vec<u8>,
    /// Last block height at which the transaction may still be accepted.
    pub valid_until_block: u64,
    /// Signature material, handed to signature recovery.
    pub signature: Vec<u8>,
    /// Claimed signer address; empty when the sender claims none.
    pub signer: Vec<u8>,
}

/// The plain contents of a [`VerifyTxReq`].
pub ghost struct ReqView {
    pub tx_hash: Seq<u8>,
    pub valid_until_block: u64,
    pub signature: Seq<u8>,
    pub signer: Seq<u8>,
}

impl View for VerifyTxReq {
    type V = ReqView;

    open spec fn view(&self) -> ReqView {
        ReqView {
            tx_hash: self.tx_hash@,
            valid_until_block: self.valid_until_block,
            signature: self.signature@,
            signer: self.signer@,
        }
    }
}

impl VerifyTxReq {
    /// A field-by-field copy.
    pub fn duplicate(&self) -> (r: VerifyTxReq)
        ensures
            r@ == self@,
    {
        VerifyTxReq {
            tx_hash: copy_bytes(&self.tx_hash),
            valid_until_block: self.valid_until_block,
            signature: copy_bytes(&self.signature),
            signer: copy_bytes(&self.signer),
        }
    }
}

/// The answer to a [`VerifyTxReq`].
#[derive(Debug)]
pub struct VerifyTxResp {
    /// The hash of the request, echoed.
    pub tx_hash: Vec<u8>,
    pub ret: Ret,
    /// The recovered signer address; empty unless `ret` is `OK`.
    pub signer: Vec<u8>,
}

/// The plain contents of a [`VerifyTxResp`].
pub ghost struct RespView {
    pub tx_hash: Seq<u8>,
    pub ret: Ret,
    pub signer: Seq<u8>,
}

impl View for VerifyTxResp {
    type V = RespView;

    open spec fn view(&self) -> RespView {
        RespView { tx_hash: self.tx_hash@, ret: self.ret, signer: self.signer@ }
    }
}

impl VerifyTxResp {
    /// A field-by-field copy.
    pub fn duplicate(&self) -> (r: VerifyTxResp)
        ensures
            r@ == self@,
    {
        VerifyTxResp {
            tx_hash: copy_bytes(&self.tx_hash),
            ret: self.ret,
            signer: copy_bytes(&self.signer),
        }
    }
}

} // verus!
