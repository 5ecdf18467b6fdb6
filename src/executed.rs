use vstd::prelude::*;

verus! {

/// rlp's decoding error, as the decoding wrapper returns it.
#[verifier::external_type_specification]
#[verifier::external_body]
pub struct ExDecoderError(rlp::DecoderError);

/// The kind of a call-like instruction.
#[derive(Clone, Copy, Debug, PartialEq, Eq, Structural)]
pub enum CallType {
    /// Not a CALL.
    NoCall,
    /// CALL.
    Call,
    /// CALLCODE.
    CallCode,
    /// DELEGATECALL.
    DelegateCall,
}

/// Why bytes could not be read as a [`CallType`].
#[derive(Clone, Copy, Debug, PartialEq, Eq, Structural)]
pub enum CallTypeDecodeError {
    /// The bytes are not the RLP encoding of a one-byte integer.
    Malformed,
    /// The integer names no call type.
    InvalidValue(u8),
}

/// The shortest big-endian bytes of `v`: none for zero.
pub open spec fn min_be(v: nat) -> Seq<u8>
    decreases v,
{
    if v == 0 {
        seq![]
    } else {
        min_be(v / 256).push((v % 256) as u8)
    }
}

/// The RLP encoding of a byte string shorter than 56 bytes.
pub open spec fn rlp_short_value(b: Seq<u8>) -> Seq<u8> {
    if b.len() == 1 && b[0] < 0x80 {
        b
    } else {
        seq![(0x80 + b.len()) as u8] + b
    }
}

/// The integer that RLP bytes decode to as a `u8`, or `None` where they do not.
pub open spec fn rlp_u8_of(b: Seq<u8>) -> Option<u8> {
    if b.len() == 0 {
        None
    } else if b[0] < 0x80 {
        if b[0] == 0 { None } else { Some(b[0]) }
    } else if b[0] == 0x80 {
        Some(0u8)
    } else if b[0] == 0x81 {
        if b.len() >= 2 && b[1] >= 0x80 { Some(b[1]) } else { None }
    } else if b[0] == 0xb8 {
        if b.len() >= 3 && b[1] == 1 && b[2] != 0 { Some(b[2]) } else { None }
    } else {
        None
    }
}

/// Relies on rlp::encode for `u32`: the shortest big-endian bytes of the value, as an
/// RLP byte string.
#[verifier::external_body]
fn rlp_encode_u32(v: u32) -> (r: Vec<u8>)
    ensures
        r@ == rlp_short_value(min_be(v as nat)),
{
    rlp::encode(&v).into_vec()
}

/// Relies on rlp::decode for `u8`: a one-byte integer read from the front of the
/// bytes, with its canonical-form checks.
#[verifier::external_body]
fn rlp_decode_u8(bytes: &[u8]) -> (r: Result<u8, rlp::DecoderError>)
    ensures
        match rlp_u8_of(bytes@) {
            Some(v) => r == Ok::<u8, rlp::DecoderError>(v),
            None => r is Err,
        },
{
    rlp::decode::<u8>(bytes)
}

impl CallType {
    /// The number that stands for the call type in RLP.
    pub open spec fn code_spec(&self) -> u8 {
        match self {
            CallType::NoCall => 0,
            CallType::Call => 1,
            CallType::CallCode => 2,
            CallType::DelegateCall => 3,
        }
    }

    /// The call type that a number stands for.
    pub open spec fn from_code_spec(v: u8) -> Option<CallType> {
        if v == 0 {
            Some(CallType::NoCall)
        } else if v == 1 {
            Some(CallType::Call)
        } else if v == 2 {
            Some(CallType::CallCode)
        } else if v == 3 {
            Some(CallType::DelegateCall)
        } else {
            None
        }
    }

    /// The RLP encoding of a call type: its number as an RLP integer.
    pub open spec fn rlp_spec(&self) -> Seq<u8> {
        if self.code_spec() == 0 {
            seq![0x80u8]
        } else {
            seq![self.code_spec()]
        }
    }

    /// The RLP encoding of the call type.
    pub fn rlp_bytes(&self) -> (r: Vec<u8>)
        ensures
            r@ == self.rlp_spec(),
    {
        let value: u32 = match self {
            CallType::NoCall => 0,
            CallType::Call => 1,
            CallType::CallCode => 2,
            CallType::DelegateCall => 3,
        };
        let r = rlp_encode_u32(value);
        proof {
            assert(min_be(0) == Seq::<u8>::empty());
            assert(min_be(1) == min_be(0).push(1u8));
            assert(min_be(2) == min_be(0).push(2u8));
            assert(min_be(3) == min_be(0).push(3u8));
            assert(rlp_short_value(seq![]) =~= seq![0x80u8]);
        }
        r
    }

    /// Reads a call type from RLP bytes. Fails with `Malformed` where the bytes are no
    /// RLP one-byte integer, and with `InvalidValue` where the integer is above 3.
    pub fn decode(bytes: &[u8]) -> (r: Result<CallType, CallTypeDecodeError>)
        ensures
            match rlp_u8_of(bytes@) {
                None => r == Err::<CallType, CallTypeDecodeError>(
                    CallTypeDecodeError::Malformed,
                ),
                Some(v) => match CallType::from_code_spec(v) {
                    Some(c) => r == Ok::<CallType, CallTypeDecodeError>(c),
                    None => r == Err::<CallType, CallTypeDecodeError>(
                        CallTypeDecodeError::InvalidValue(v),
                    ),
                },
            },
    {
        match rlp_decode_u8(bytes) {
            Err(_) => Err(CallTypeDecodeError::Malformed),
            Ok(0) => Ok(CallType::NoCall),
            Ok(1) => Ok(CallType::Call),
            Ok(2) => Ok(CallType::CallCode),
            Ok(3) => Ok(CallType::DelegateCall),
            Ok(v) => Err(CallTypeDecodeError::InvalidValue(v)),
        }
    }
}

/// Decoding the encoding of a call type gives the call type back.
pub proof fn lemma_call_type_round_trip(c: CallType)
    ensures
        rlp_u8_of(c.rlp_spec()) == Some(c.code_spec()),
        CallType::from_code_spec(c.code_spec()) == Some(c),
{
}

} // verus!
