//! The positional binary codec: a schema-less, fixed-order encoding.
//!
//! A timestamp is encoded as exactly 12 bytes: the seconds field as a 64-bit
//! two's-complement integer in little-endian byte order, immediately followed
//! by the nanoseconds field as a 32-bit two's-complement integer in
//! little-endian byte order. There are no field names, markers, length
//! prefixes or padding; byte position alone carries the meaning.

use vstd::bytes::*;
use vstd::prelude::*;
use vstd::slice::slice_subrange;

use crate::timestamp::Et;
use crate::timestamp::EtError;

verus! {

/// The 64-bit two's-complement bit pattern of a seconds value.
pub open spec fn sec_bits(s: i64) -> u64 {
    (if s >= 0 {
        s as int
    } else {
        s + 0x1_0000_0000_0000_0000
    }) as u64
}

/// The seconds value read back from a 64-bit two's-complement bit pattern.
pub open spec fn bits_sec(u: u64) -> i64 {
    (if u < 0x8000_0000_0000_0000 {
        u as int
    } else {
        u - 0x1_0000_0000_0000_0000
    }) as i64
}

/// The 32-bit two's-complement bit pattern of a nanoseconds value.
pub open spec fn nsec_bits(n: i32) -> u32 {
    (if n >= 0 {
        n as int
    } else {
        n + 0x1_0000_0000
    }) as u32
}

/// The nanoseconds value read back from a 32-bit two's-complement bit pattern.
pub open spec fn bits_nsec(u: u32) -> i32 {
    (if u < 0x8000_0000 {
        u as int
    } else {
        u - 0x1_0000_0000
    }) as i32
}

/// The 12-byte positional encoding of a timestamp.
pub open spec fn spec_encode_positional(t: Et) -> Seq<u8> {
    spec_u64_to_le_bytes(sec_bits(t.sec)) + spec_u32_to_le_bytes(nsec_bits(t.nsec))
}

/// What decoding a byte string positionally yields: the timestamp read from
/// exactly 12 bytes, or `MalformedEncoding` for any other length.
pub open spec fn spec_decode_positional(bytes: Seq<u8>) -> Result<Et, EtError> {
    if bytes.len() != 12 {
        Err(EtError::MalformedEncoding)
    } else {
        Ok(
            Et {
                sec: bits_sec(spec_u64_from_le_bytes(bytes.subrange(0, 8))),
                nsec: bits_nsec(spec_u32_from_le_bytes(bytes.subrange(8, 12))),
            },
        )
    }
}

impl Et {
    /// Encodes the timestamp positionally: 8 little-endian bytes of seconds,
    /// then 4 little-endian bytes of nanoseconds.
    pub fn encode_positional(&self) -> (r: Vec<u8>)
        ensures
            r@ == spec_encode_positional(*self),
            r@.len() == 12,
    {
        let u: u64 = if self.sec >= 0 {
            self.sec as u64
        } else {
            u64::MAX - ((-(self.sec + 1)) as u64)
        };
        let un: u32 = if self.nsec >= 0 {
            self.nsec as u32
        } else {
            u32::MAX - ((-(self.nsec + 1)) as u32)
        };
        proof {
            assert(u == sec_bits(self.sec));
            assert(un == nsec_bits(self.nsec));
        }
        let mut out = u64_to_le_bytes(u);
        let mut tail = u32_to_le_bytes(un);
        out.append(&mut tail);
        proof {
            assert(out@ =~= spec_encode_positional(*self));
        }
        out
    }

    /// Decodes a positional encoding: reads 8 bytes of seconds then 4 bytes
    /// of nanoseconds, in that fixed order. The input must be exactly the 12
    /// bytes of an encoding; any other length is a `MalformedEncoding` error.
    pub fn decode_positional(bytes: &[u8]) -> (r: Result<Et, EtError>)
        ensures
            r == spec_decode_positional(bytes@),
    {
        if bytes.len() != 12 {
            return Err(EtError::MalformedEncoding);
        }
        let head = slice_subrange(bytes, 0, 8);
        let u = u64_from_le_bytes(head);
        let tail = slice_subrange(bytes, 8, 12);
        let un = u32_from_le_bytes(tail);
        let sec: i64 = if u < 0x8000_0000_0000_0000 {
            u as i64
        } else {
            -((u64::MAX - u) as i64) - 1
        };
        let nsec: i32 = if un < 0x8000_0000 {
            un as i32
        } else {
            -((u32::MAX - un) as i32) - 1
        };
        proof {
            assert(sec == bits_sec(u));
            assert(nsec == bits_nsec(un));
        }
        Ok(Et { sec, nsec })
    }
}

/// Round-trip law of the positional codec: decoding an encoding yields the
/// original timestamp exactly, for every seconds/nanoseconds pair, including
/// negative seconds and nanoseconds outside `[0, 1_000_000_000)`.
pub proof fn lemma_positional_round_trip(t: Et)
    ensures
        spec_decode_positional(spec_encode_positional(t)) == Ok::<Et, EtError>(t),
{
    lemma_auto_spec_u64_to_from_le_bytes();
    lemma_auto_spec_u32_to_from_le_bytes();
    let e = spec_encode_positional(t);
    assert(e.subrange(0, 8) =~= spec_u64_to_le_bytes(sec_bits(t.sec)));
    assert(e.subrange(8, 12) =~= spec_u32_to_le_bytes(nsec_bits(t.nsec)));
    assert(bits_sec(sec_bits(t.sec)) == t.sec);
    assert(bits_nsec(nsec_bits(t.nsec)) == t.nsec);
}

} // verus!
