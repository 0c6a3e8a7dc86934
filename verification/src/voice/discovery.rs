//! Address discovery: a packet to the voice server whose answer says which address and
//! port the server sees.

use vstd::prelude::*;
use vstd::slice::slice_subrange;

use crate::bytes::{be16, be32, lemma_be32_len, push_be16, push_be32, read_be16, u16_be_at};
use crate::text::{from_utf8_lossy, lossy_text};
use crate::voice::error::VoiceError;

verus! {

broadcast use lemma_be32_len;

/// The bytes of a request and of an answer.
pub const DISCOVERY_BYTES: usize = 74;

/// A request: its type, the length of the rest, the source, and 66 zeros.
pub open spec fn request_bytes(ssrc: u32) -> Seq<u8> {
    be16(1) + be16(70) + be32(ssrc) + Seq::new(66, |i: int| 0u8)
}

/// How many bytes come before the first zero; all of them where there is none.
pub open spec fn until_zero(s: Seq<u8>) -> int
    decreases s.len(),
{
    if s.len() == 0 || s[0] == 0 {
        0
    } else {
        1 + until_zero(s.drop_first())
    }
}

/// The address in an answer: the text from its ninth byte up to a zero, 64 bytes at most.
pub open spec fn answered_address(answer: Seq<u8>) -> Seq<char> {
    let field = answer.subrange(8, 72);
    lossy_text(field.take(until_zero(field)))
}

/// The request for a source.
pub fn discovery_request(ssrc: u32) -> (r: Vec<u8>)
    ensures
        r@ == request_bytes(ssrc),
        r@.len() == DISCOVERY_BYTES,
{
    let mut out: Vec<u8> = Vec::new();
    push_be16(&mut out, 1);
    push_be16(&mut out, 70);
    push_be32(&mut out, ssrc);
    let ghost head = out@;
    while out.len() < DISCOVERY_BYTES
        invariant
            head.len() == 8,
            8 <= out@.len() <= 74,
            out@ == head + Seq::new((out@.len() - 8) as nat, |i: int| 0u8),
        decreases 74 - out@.len(),
    {
        out.push(0);
        assert(out@ =~= head + Seq::new((out@.len() - 8) as nat, |i: int| 0u8));
    }
    assert(out@ =~= request_bytes(ssrc));
    out
}

proof fn lemma_until_zero(s: Seq<u8>, n: int)
    requires
        0 <= n <= s.len(),
        forall|k: int| 0 <= k < n ==> s[k] != 0,
        n < s.len() ==> s[n] == 0,
    ensures
        until_zero(s) == n,
    decreases s.len(),
{
    if n > 0 {
        assert(s[0] != 0);
        assert forall|k: int| 0 <= k < n - 1 implies s.drop_first()[k] != 0 by {
            assert(s.drop_first()[k] == s[k + 1]);
        }
        lemma_until_zero(s.drop_first(), n - 1);
    }
}

/// The address and the port in an answer. An answer that is too short, or that holds no
/// address or no port, is refused.
pub fn discovery_answer(answer: &[u8]) -> (r: Result<(String, u16), VoiceError>)
    ensures
        match r {
            Ok((address, port)) => answer@.len() >= 74 && address@ == answered_address(answer@)
                && port == u16_be_at(answer@, 72) && address@.len() > 0 && port != 0,
            Err(VoiceError::ShortDiscovery(n)) => n == answer@.len() && answer@.len() < 74,
            Err(VoiceError::BadDiscovery) => answer@.len() >= 74 && (answered_address(
                answer@,
            ).len() == 0 || u16_be_at(answer@, 72) == 0),
            Err(_) => false,
        },
{
    if answer.len() < DISCOVERY_BYTES {
        return Err(VoiceError::ShortDiscovery(answer.len()));
    }
    let field = slice_subrange(answer, 8, 72);
    let mut end: usize = 0;
    while end < 64 && field[end] != 0
        invariant
            field@.len() == 64,
            end <= 64,
            forall|k: int| 0 <= k < end ==> field@[k] != 0,
        decreases 64 - end,
    {
        end = end + 1;
    }
    proof {
        lemma_until_zero(field@, end as int);
    }
    assert(field@.take(end as int) =~= field@.subrange(0, end as int));
    let address = from_utf8_lossy(slice_subrange(field, 0, end));
    let port: u16 = read_be16(answer, 72);
    if address.as_str().is_empty() || port == 0 {
        return Err(VoiceError::BadDiscovery);
    }
    Ok((address, port))
}

} // verus!
