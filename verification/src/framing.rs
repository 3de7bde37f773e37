//! BER length framing: how many bytes a message takes on the wire.
//!
//! A message starts with a tag byte and a length byte. A length byte with
//! its top bit clear is the length of the payload. Otherwise its low seven
//! bits say how many length bytes follow, and those hold the length of the
//! payload, most significant byte first.

use vstd::prelude::*;

verus! {

/// Why a length prefix cannot be read.
#[derive(Debug, Copy, Clone, PartialEq, Eq, Structural)]
pub enum FrameError {
    /// The number of length bytes is not the number that the first length byte announces.
    LengthOctets,
    /// The length does not fit in a `usize`.
    TooLong,
}

/// The value of `bytes` as a big-endian unsigned number.
pub open spec fn be_value(bytes: Seq<u8>) -> nat
    decreases bytes.len(),
{
    if bytes.len() == 0 {
        0
    } else {
        be_value(bytes.drop_last()) * 256 + bytes.last() as nat
    }
}

/// The number of length bytes that follow the first length byte.
pub open spec fn long_octets(first_len: u8) -> nat {
    if first_len & 0x80 == 0 {
        0
    } else {
        (first_len & 0x7f) as nat
    }
}

/// The length of the payload that a length prefix announces; `None` where
/// the number of length bytes is not the announced one.
pub open spec fn payload_length_spec(first_len: u8, long: Seq<u8>) -> Option<nat> {
    if first_len & 0x80 == 0 {
        Some(first_len as nat)
    } else if long.len() != long_octets(first_len) {
        None
    } else {
        Some(be_value(long))
    }
}

/// The number of bytes that the first message of `stream` takes, header and
/// payload together; `None` where `stream` does not hold its whole length prefix.
pub open spec fn frame_length_spec(stream: Seq<u8>) -> Option<nat> {
    if stream.len() < 2 || stream.len() < 2 + long_octets(stream[1]) {
        None
    } else {
        let k = long_octets(stream[1]);
        Some(2 + k + payload_length_spec(stream[1], stream.subrange(2, 2 + k as int))->0)
    }
}

/// A prefix of a byte string has at most its value.
pub proof fn lemma_be_value_prefix(bytes: Seq<u8>, i: int)
    requires
        0 <= i <= bytes.len(),
    ensures
        be_value(bytes.take(i)) <= be_value(bytes),
    decreases bytes.len() - i,
{
    if i == bytes.len() {
        assert(bytes.take(i) =~= bytes);
    } else {
        lemma_be_value_prefix(bytes, i + 1);
        assert(bytes.take(i + 1).drop_last() =~= bytes.take(i));
    }
}

/// The number of length bytes that follow the first length byte.
pub fn ber_length_octets(first_len: u8) -> (k: usize)
    ensures
        k == long_octets(first_len),
        k <= 127,
{
    assert(first_len & 0x7f <= 127) by (bit_vector);
    if first_len & 0x80 == 0 {
        0
    } else {
        (first_len & 0x7f) as usize
    }
}

/// The length of the payload, from the first length byte and the length
/// bytes that followed it.
pub fn ber_payload_length(first_len: u8, long: &[u8]) -> (r: Result<usize, FrameError>)
    ensures
        match r {
            Ok(n) => payload_length_spec(first_len, long@) == Some(n as nat),
            Err(FrameError::LengthOctets) => payload_length_spec(first_len, long@) is None,
            Err(FrameError::TooLong) => payload_length_spec(first_len, long@) matches Some(n)
                && n > usize::MAX,
        },
{
    if first_len & 0x80 == 0 {
        return Ok(first_len as usize);
    }
    if long.len() != ber_length_octets(first_len) {
        return Err(FrameError::LengthOctets);
    }
    let mut acc: usize = 0;
    let mut i: usize = 0;
    proof {
        assert(long@.take(0) =~= Seq::<u8>::empty());
    }
    while i < long.len()
        invariant
            i <= long@.len(),
            first_len & 0x80 != 0,
            long@.len() == long_octets(first_len),
            acc == be_value(long@.take(i as int)),
        decreases long@.len() - i,
    {
        proof {
            assert(long@.take(i as int + 1).drop_last() =~= long@.take(i as int));
            assert(long@.take(i as int + 1).last() == long@[i as int]);
            assert(be_value(long@.take(i as int + 1)) == acc * 256 + long@[i as int] as nat);
            lemma_be_value_prefix(long@, i as int + 1);
        }
        let shifted = match acc.checked_mul(256) {
            Some(m) => m,
            None => {
                return Err(FrameError::TooLong);
            },
        };
        acc = match shifted.checked_add(long[i] as usize) {
            Some(v) => v,
            None => {
                return Err(FrameError::TooLong);
            },
        };
        i += 1;
    }
    proof {
        assert(long@.take(i as int) =~= long@);
    }
    Ok(acc)
}

/// The number of bytes that the first message of `stream` takes, header and
/// payload together. `Ok(None)` where `stream` is too short to tell.
pub fn ber_frame_length(stream: &[u8]) -> (r: Result<Option<usize>, FrameError>)
    ensures
        match r {
            Ok(Some(n)) => frame_length_spec(stream@) == Some(n as nat),
            Ok(None) => frame_length_spec(stream@) is None,
            Err(_) => frame_length_spec(stream@) matches Some(n) && n > usize::MAX,
        },
{
    if stream.len() < 2 {
        return Ok(None);
    }
    let k = ber_length_octets(stream[1]);
    if stream.len() - 2 < k {
        return Ok(None);
    }
    let long = vstd::slice::slice_subrange(stream, 2, 2 + k);
    match ber_payload_length(stream[1], long) {
        Ok(n) => match n.checked_add(2 + k) {
            Some(total) => Ok(Some(total)),
            None => Err(FrameError::TooLong),
        },
        Err(_) => Err(FrameError::TooLong),
    }
}

/// The bytes of a message: the two header bytes, the length bytes, and the payload.
pub fn ber_frame(header: &[u8], long: &[u8], payload: &[u8]) -> (r: Vec<u8>)
    ensures
        r@ == header@ + long@ + payload@,
{
    let mut buf: Vec<u8> = Vec::new();
    buf.extend_from_slice(header);
    buf.extend_from_slice(long);
    buf.extend_from_slice(payload);
    buf
}

} // verus!
