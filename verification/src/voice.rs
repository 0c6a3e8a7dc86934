//! Voice: the packets, the voice gateway session, the keys of the senders and the
//! buffer that puts received packets back in order.

use vstd::prelude::*;

use crate::text::{
    before_char, chars_of, concat3, find_char, starts_at, text_of, without_prefixes,
};

pub mod discovery;
pub mod error;
pub mod jitter;
pub mod keys;
pub mod messages;
pub mod receiver;
pub mod rtp;
pub mod sender;
pub mod session;

verus! {

/// The only packet encryption that this client speaks.
pub const PREFERRED_MODE: &'static str = "aead_xchacha20_poly1305_rtpsize";

/// What it takes to open a voice session.
pub struct VoiceConnInfo {
    /// The server that the channel belongs to.
    pub guild_id: String,
    /// The voice channel.
    pub channel_id: String,
    /// The user.
    pub user_id: String,
    /// The session that the main gateway gave for voice.
    pub session_id: String,
    /// Where the voice gateway is.
    pub endpoint: String,
    /// The token for the voice gateway.
    pub token: String,
}

/// The host in an endpoint: without the scheme in front, up to the first slash.
pub open spec fn host_of(endpoint: Seq<char>) -> Seq<char> {
    before_char(without_prefixes(endpoint, "wss://"@), '/')
}

/// The host in an endpoint.
pub fn endpoint_host(endpoint: &str) -> (r: String)
    ensures
        r@ == host_of(endpoint@),
{
    let chars = chars_of(endpoint);
    let scheme = chars_of("wss://");
    proof {
        reveal_strlit("wss://");
    }
    let mut i: usize = 0;
    assert(chars@.skip(0) =~= chars@ && chars@.len() == chars.len());
    while starts_at(&chars, i, &scheme)
        invariant
            i <= chars@.len(),
            chars@.len() <= usize::MAX,
            scheme@ == "wss://"@,
            scheme@.len() == 6,
            without_prefixes(chars@, scheme@) == without_prefixes(chars@.skip(i as int), scheme@),
        decreases chars@.len() - i,
    {
        assert(chars@.skip(i as int).skip(6) =~= chars@.skip(i + 6));
        i = i + scheme.len();
    }
    let end: usize = find_char(&chars, i, '/');
    assert(chars@.skip(i as int).take(end - i) =~= chars@.subrange(i as int, end as int));
    text_of(&chars, i, end)
}

/// The address of the voice gateway, in the version that negotiates encryption.
pub fn gateway_url(info: &VoiceConnInfo) -> (r: String)
    ensures
        r@ == "wss://"@ + host_of(info.endpoint@) + "/?v=8"@,
{
    concat3("wss://", endpoint_host(info.endpoint.as_str()).as_str(), "/?v=8")
}

} // verus!
