use vstd::prelude::*;

use crate::errors::SettlementError;

verus! {

/// Number of bytes in the big-endian count prefix of a signal payload.
pub const COUNT_PREFIX_LEN: usize = 4;

/// Number of bytes in one public signal (a 256-bit field value).
pub const SIGNAL_WIDTH: usize = 32;

/// The unsigned count declared by the payload's first four bytes,
/// read big-endian.
pub open spec fn declared_count(payload: Seq<u8>) -> int
    recommends
        payload.len() >= COUNT_PREFIX_LEN,
{
    payload[0] * 0x100_0000 + payload[1] * 0x1_0000 + payload[2] * 0x100 + payload[3]
}

/// A payload decodes successfully exactly when it carries the four-byte
/// count prefix and at least `32 * n` further bytes, where `n` is the
/// declared count.
pub open spec fn decode_ok(payload: Seq<u8>) -> bool {
    payload.len() >= COUNT_PREFIX_LEN
        && payload.len() >= COUNT_PREFIX_LEN + SIGNAL_WIDTH * declared_count(payload)
}

/// The `i`-th decoded signal: the `i`-th 32-byte field after the prefix,
/// in payload order.
pub open spec fn signal_at(payload: Seq<u8>, i: int) -> Seq<u8>
    recommends
        decode_ok(payload),
        0 <= i < declared_count(payload),
{
    payload.subrange(
        COUNT_PREFIX_LEN + SIGNAL_WIDTH * i,
        COUNT_PREFIX_LEN + SIGNAL_WIDTH * (i + 1),
    )
}

/// Decode a length-prefixed array of fixed-width public signals from an
/// opaque byte payload.
///
/// The first four bytes are a big-endian unsigned count `n`; they must be
/// followed by at least `n` fields of 32 bytes each. Any shorter or
/// truncated payload is rejected with `InvalidProof`; no interpretation of
/// field semantics happens here.
pub fn parse_public_signals(payload: &Vec<u8>) -> (r: Result<Vec<Vec<u8>>, SettlementError>)
    ensures
        r is Ok <==> decode_ok(payload@),
        r is Err ==> r == Err::<Vec<Vec<u8>>, SettlementError>(SettlementError::InvalidProof),
        r matches Ok(signals) ==> {
            &&& signals@.len() == declared_count(payload@)
            &&& forall|i: int|
                0 <= i < signals@.len() ==> #[trigger] signals@[i]@ == signal_at(payload@, i)
            &&& forall|i: int|
                0 <= i < signals@.len() ==> #[trigger] signals@[i]@.len() == SIGNAL_WIDTH
        },
{
    if payload.len() < COUNT_PREFIX_LEN {
        return Err(SettlementError::InvalidProof);
    }
    let n: u32 = (payload[0] as u32) * 0x100_0000 + (payload[1] as u32) * 0x1_0000
        + (payload[2] as u32) * 0x100 + (payload[3] as u32);
    assert(n == declared_count(payload@));

    // Compare lengths in u64 so the bound cannot overflow the platform's
    // usize before it is checked.
    proof {
        assert((SIGNAL_WIDTH as u64) * (n as u64) <= 32 * 0xFFFF_FFFFu64) by (nonlinear_arith)
            requires
                n <= 0xFFFF_FFFFu32,
        ;
    }
    let needed: u64 = (COUNT_PREFIX_LEN as u64) + (SIGNAL_WIDTH as u64) * (n as u64);
    if (payload.len() as u64) < needed {
        return Err(SettlementError::InvalidProof);
    }
    let count: usize = n as usize;

    let mut signals: Vec<Vec<u8>> = Vec::new();
    let mut k: usize = 0;
    while k < count
        invariant
            count == declared_count(payload@),
            payload@.len() >= COUNT_PREFIX_LEN + SIGNAL_WIDTH * count,
            payload@.len() <= usize::MAX,
            k <= count,
            signals@.len() == k,
            forall|i: int|
                0 <= i < k ==> #[trigger] signals@[i]@ == signal_at(payload@, i),
            forall|i: int|
                0 <= i < k ==> #[trigger] signals@[i]@.len() == SIGNAL_WIDTH,
        decreases count - k,
    {
        proof {
            assert(SIGNAL_WIDTH * k + SIGNAL_WIDTH <= SIGNAL_WIDTH * count) by (nonlinear_arith)
                requires
                    k < count,
            ;
        }
        let base: usize = COUNT_PREFIX_LEN + SIGNAL_WIDTH * k;
        let mut field: Vec<u8> = Vec::new();
        let mut j: usize = 0;
        while j < SIGNAL_WIDTH
            invariant
                payload@.len() >= COUNT_PREFIX_LEN + SIGNAL_WIDTH * count,
                payload@.len() <= usize::MAX,
                k < count,
                base == COUNT_PREFIX_LEN + SIGNAL_WIDTH * k,
                base + SIGNAL_WIDTH <= payload@.len(),
                j <= SIGNAL_WIDTH,
                field@ == payload@.subrange(base as int, base + j),
            decreases SIGNAL_WIDTH - j,
        {
            field.push(payload[base + j]);
            proof {
                assert(payload@.subrange(base as int, base + j + 1) =~= payload@.subrange(
                    base as int,
                    base + j,
                ).push(payload@[base + j]));
            }
            j += 1;
        }
        assert(field@ == signal_at(payload@, k as int));
        signals.push(field);
        k += 1;
    }
    Ok(signals)
}

} // verus!
