//! The keys of a call, by what they seal and open.

use std::collections::HashMap;

use vstd::prelude::*;

use crate::dave::mls::MlsSession;
use crate::dave::{ends_with_magic, lemma_frame_roundtrip, open_frame, seal_frame, FrameCryptor};
use crate::voice::keys::{MediaFrame, MediaKeys};

verus! {

broadcast use vstd::std_specs::hash::group_hash_axioms;

/// Once the keys of the group are installed, what the client sends is a frame under its own
/// secret, numbered from zero, and a frame of a sender that is known opens under that sender's
/// secret, and no other.
pub proof fn law_installed_keys(
    keys: &mut MediaKeys,
    group: &MlsSession,
    speakers: &HashMap<u32, u64>,
    done: (),
    k1: &mut MediaKeys,
    opus: &[u8],
    sealed: Vec<u8>,
    after: &MediaKeys,
    ssrc: u32,
    frame: Vec<u8>,
    counter: u32,
    packet: Seq<u8>,
    opened: MediaFrame,
)
    requires
        call_ensures(MediaKeys::install, (keys, group, speakers), done),
        *old(k1) == *final(keys),
        call_ensures(MediaKeys::seal, (k1, opus), sealed),
        *after == *final(keys),
        call_ensures(MediaKeys::open, (after, ssrc, frame), opened),
    ensures
        group.media_secret(group.user()) is Some ==> {
            let secret = group.media_secret(group.user())->Some_0;
            &&& sealed@ == seal_frame(secret, 0, opus@)
            &&& open_frame(secret, sealed@) == Ok::<Seq<u8>, crate::dave::error::DaveError>(opus@)
            &&& after@.active
        },
        speakers@.contains_key(ssrc) && group.media_secret(speakers@[ssrc]) is Some && frame@
            == seal_frame(group.media_secret(speakers@[ssrc])->Some_0, counter, packet) ==> (
        opened is Audio && opened->Audio_0@ == packet),
        after@.active && !speakers@.contains_key(ssrc) ==> opened is NoKey,
        after@.active && speakers@.contains_key(ssrc) && group.media_secret(speakers@[ssrc])
            is None ==> opened is NoKey,
{
    if group.media_secret(group.user()) is Some {
        lemma_frame_roundtrip(group.media_secret(group.user())->Some_0, 0, opus@);
    }
    if speakers@.contains_key(ssrc) && group.media_secret(speakers@[ssrc]) is Some {
        lemma_frame_roundtrip(group.media_secret(speakers@[ssrc])->Some_0, counter, packet);
    }
}

/// A sender that becomes known gets its key: its frames then open, and those of the others
/// fare as before.
pub proof fn law_new_speakers_are_heard(
    keys: &mut MediaKeys,
    group: &MlsSession,
    ssrc: u32,
    user_id: u64,
    done: (),
    after: &MediaKeys,
    frame: Vec<u8>,
    counter: u32,
    packet: Seq<u8>,
    opened: MediaFrame,
    other: u32,
    plain: Vec<u8>,
    before: &MediaKeys,
    was: MediaFrame,
    is: MediaFrame,
)
    requires
        call_ensures(MediaKeys::add_speaker, (keys, group, ssrc, user_id), done),
        *after == *final(keys),
        *before == *old(keys),
        call_ensures(MediaKeys::open, (after, ssrc, frame), opened),
        call_ensures(MediaKeys::open, (before, other, plain), was),
        call_ensures(MediaKeys::open, (after, other, plain), is),
    ensures
        !before@.rx.contains_key(ssrc) && group.media_secret(user_id) is Some && frame@
            == seal_frame(group.media_secret(user_id)->Some_0, counter, packet) ==> (opened is Audio
            && opened->Audio_0@ == packet),
        other != ssrc ==> is@ == was@,
        before@.rx.contains_key(ssrc) ==> after@ == before@,
        after@.tx == before@.tx,
        after@.active == before@.active,
{
    if group.media_secret(user_id) is Some {
        lemma_frame_roundtrip(group.media_secret(user_id)->Some_0, counter, packet);
    }
}

/// Frames that are sealed one after the other have numbers one after the other, and keep the
/// secret.
pub proof fn law_sealed_frames_are_numbered(
    k1: &mut MediaKeys,
    a: &[u8],
    first: Vec<u8>,
    k2: &mut MediaKeys,
    b: &[u8],
    second: Vec<u8>,
    secret: Seq<u8>,
    counter: u32,
)
    requires
        old(k1)@.tx == Some((secret, counter)),
        call_ensures(MediaKeys::seal, (k1, a), first),
        *old(k2) == *final(k1),
        call_ensures(MediaKeys::seal, (k2, b), second),
    ensures
        first@ == seal_frame(secret, counter, a@),
        second@ == seal_frame(secret, ((counter + 1) % 0x1_0000_0000) as u32, b@),
        ends_with_magic(first@),
        ends_with_magic(second@),
{
    lemma_frame_roundtrip(secret, counter, a@);
    lemma_frame_roundtrip(secret, ((counter + 1) % 0x1_0000_0000) as u32, b@);
}

/// Without keys everything passes as it is, in both directions: before encryption starts, and
/// after it was left.
pub proof fn law_without_keys_all_passes(
    fresh: MediaKeys,
    keys: &mut MediaKeys,
    done: (),
    k1: &mut MediaKeys,
    opus: &[u8],
    sealed: Vec<u8>,
    after: &MediaKeys,
    ssrc: u32,
    plain: Vec<u8>,
    opened: MediaFrame,
    active: bool,
)
    requires
        call_ensures(MediaKeys::new, (), fresh) || call_ensures(
            MediaKeys::deactivate,
            (keys,),
            done,
        ) && fresh == *final(keys),
        *old(k1) == fresh,
        call_ensures(MediaKeys::seal, (k1, opus), sealed),
        *after == fresh,
        call_ensures(MediaKeys::open, (after, ssrc, plain), opened),
        call_ensures(MediaKeys::is_active, (after,), active),
    ensures
        sealed@ == opus@,
        opened is Audio,
        opened->Audio_0@ == plain@,
        !active,
{
}

/// With a key for its sender, a payload that does not open is silence where it lacks the
/// marker of an encrypted frame, and otherwise a failure; it never passes for audio.
pub proof fn law_what_does_not_open(
    keys: &MediaKeys,
    ssrc: u32,
    plain: Vec<u8>,
    opened: MediaFrame,
)
    requires
        call_ensures(MediaKeys::open, (keys, ssrc, plain), opened),
        keys@.rx.contains_key(ssrc),
        open_frame(keys@.rx[ssrc], plain@) is Err,
    ensures
        ends_with_magic(plain@) ==> opened is Undecryptable,
        !ends_with_magic(plain@) ==> opened is Filler,
{
}

/// A frame that a cryptor makes is opened by any cryptor with the same secret, to the packet
/// it was made of, and by the marker it is told from filler.
pub proof fn law_frames_open(
    base: &[u8],
    a: FrameCryptor,
    b: FrameCryptor,
    sender: &mut FrameCryptor,
    opus: &[u8],
    made: Result<Vec<u8>, crate::dave::error::DaveError>,
    frame: &[u8],
    opened: Result<Vec<u8>, crate::dave::error::DaveError>,
    marked: bool,
)
    requires
        call_ensures(FrameCryptor::from_base_secret, (base,), a),
        call_ensures(FrameCryptor::from_base_secret, (base,), b),
        old(sender).base() == a.base(),
        call_ensures(FrameCryptor::encrypt, (sender, opus), made),
        frame@ == made->Ok_0@,
        call_ensures(FrameCryptor::decrypt, (&b, frame), opened),
        call_ensures(crate::dave::has_dave_magic, (frame,), marked),
    ensures
        made is Ok,
        opened is Ok,
        opened->Ok_0@ == opus@,
        marked,
        final(sender).base() == old(sender).base(),
        final(sender).counter() == (old(sender).counter() + 1) % 0x1_0000_0000,
        a.counter() == 0,
{
    lemma_frame_roundtrip(a.base(), old(sender).counter(), opus@);
}

} // verus!
