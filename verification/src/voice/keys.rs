//! The keys of the call: the cryptor for what is sent, and one for each other sender.

use std::collections::HashMap;

use vstd::prelude::*;
use vstd::std_specs::iter::IteratorSpec;

use crate::dave::error::DaveError;
use crate::dave::mls::MlsSession;
use crate::dave::{
    ends_with_magic, has_dave_magic, lemma_frame_roundtrip, open_frame, seal_frame, FrameCryptor,
};

verus! {

broadcast use vstd::std_specs::hash::group_hash_axioms;

/// The keys of the call in contracts: the base secret and the counter for what is sent,
/// the base secret of each source, and whether the call is end-to-end encrypted.
pub struct KeysView {
    pub tx: Option<(Seq<u8>, u32)>,
    pub rx: Map<u32, Seq<u8>>,
    pub active: bool,
}

/// What came out of the payload of a voice packet.
pub enum MediaFrame {
    /// An Opus packet.
    Audio(Vec<u8>),
    /// The sender is silent: the frame is not an encrypted one.
    Filler,
    /// An encrypted frame that does not decrypt.
    Undecryptable,
    /// The call is encrypted and there is no key for the sender yet.
    NoKey,
}

/// What came out of the payload of a voice packet, in contracts.
pub enum MediaFrameView {
    Audio(Seq<u8>),
    Filler,
    Undecryptable,
    NoKey,
}

impl View for MediaFrame {
    type V = MediaFrameView;

    open spec fn view(&self) -> MediaFrameView {
        match *self {
            MediaFrame::Audio(opus) => MediaFrameView::Audio(opus@),
            MediaFrame::Filler => MediaFrameView::Filler,
            MediaFrame::Undecryptable => MediaFrameView::Undecryptable,
            MediaFrame::NoKey => MediaFrameView::NoKey,
        }
    }
}

impl KeysView {
    /// No keys at all.
    pub open spec fn none() -> KeysView {
        KeysView { tx: None, rx: Map::empty(), active: false }
    }

    /// The keys after those of the group's current epoch were installed: the group's
    /// secret for this client replaces the one before where there is one, and the senders
    /// keep no key of an earlier epoch.
    pub open spec fn installed(self, group: MlsSession, speakers: Map<u32, u64>) -> KeysView {
        let own = group.media_secret(group.user());
        KeysView {
            tx: match own {
                Some(secret) => Some((secret, 0)),
                None => self.tx,
            },
            rx: Map::new(
                |ssrc: u32|
                    speakers.contains_key(ssrc) && group.media_secret(speakers[ssrc]) is Some,
                |ssrc: u32| group.media_secret(speakers[ssrc])->Some_0,
            ),
            active: own is Some || self.active,
        }
    }

    /// The keys after a sender became known: it gets its key unless it has one already.
    pub open spec fn with_speaker(self, group: MlsSession, ssrc: u32, user_id: u64) -> KeysView {
        match group.media_secret(user_id) {
            Some(secret) if !self.rx.contains_key(ssrc) => KeysView {
                rx: self.rx.insert(ssrc, secret),
                ..self
            },
            _ => self,
        }
    }

    /// What the payload of a packet from a source holds.
    pub open spec fn frame(self, ssrc: u32, plain: Seq<u8>) -> MediaFrameView {
        if self.rx.contains_key(ssrc) {
            match open_frame(self.rx[ssrc], plain) {
                Ok(opus) => MediaFrameView::Audio(opus),
                Err(_) => if ends_with_magic(plain) {
                    MediaFrameView::Undecryptable
                } else {
                    MediaFrameView::Filler
                },
            }
        } else if self.active {
            MediaFrameView::NoKey
        } else {
            MediaFrameView::Audio(plain)
        }
    }
}

/// The keys of the call.
pub struct MediaKeys {
    tx: Option<FrameCryptor>,
    rx: HashMap<u32, FrameCryptor>,
    active: bool,
}

impl View for MediaKeys {
    type V = KeysView;

    closed spec fn view(&self) -> KeysView {
        KeysView {
            tx: match self.tx {
                Some(c) => Some((c.base(), c.counter())),
                None => None,
            },
            rx: self.rx@.map_values(|c: FrameCryptor| c.base()),
            active: self.active,
        }
    }
}

impl MediaKeys {
    /// No keys: the call is not end-to-end encrypted.
    pub fn new() -> (r: MediaKeys)
        ensures
            r@ == KeysView::none(),
    {
        let r = MediaKeys { tx: None, rx: HashMap::new(), active: false };
        assert(r@.rx =~= Map::<u32, Seq<u8>>::empty());
        r
    }

    /// Takes the keys of the group's current epoch: the client's own, and that of each
    /// sender that is known.
    pub fn install(&mut self, group: &MlsSession, speakers: &HashMap<u32, u64>)
        ensures
            final(self)@ == old(self)@.installed(*group, speakers@),
    {
        match group.media_base_secret() {
            Ok(secret) => {
                self.tx = Some(FrameCryptor::from_base_secret(secret.as_slice()));
                self.active = true;
            },
            Err(_) => {},
        }
        let mut rx: HashMap<u32, FrameCryptor> = HashMap::new();
        let ghost want = old(self)@.installed(*group, speakers@).rx;
        for (ssrc, user_id) in it: speakers.iter()
            invariant
                want == old(self)@.installed(*group, speakers@).rx,
                it.seq() == speakers.iter().remaining(),
                forall|k: u32|
                    #[trigger] rx@.contains_key(k) ==> want.contains_key(k) && rx@[k].base()
                        == want[k],
                forall|i: int|
                    0 <= i < it.index() && want.contains_key(*(#[trigger] it.seq()[i]).0)
                        ==> rx@.contains_key(*it.seq()[i].0),
        {
            match group.media_base_secret_for(*user_id) {
                Ok(secret) => {
                    rx.insert(*ssrc, FrameCryptor::from_base_secret(secret.as_slice()));
                },
                Err(_) => {},
            }
        }
        proof {
            let got = rx@.map_values(|c: FrameCryptor| c.base());
            assert forall|k: u32| want.contains_key(k) implies got.contains_key(k) by {
                assert(speakers@.contains_key(k));
                let s = speakers.iter().remaining();
                assert(s.contains((&k, &speakers@[k])));
                let i = choose|i: int| 0 <= i < s.len() && s[i] == (&k, &speakers@[k]);
                assert(*s[i].0 == k);
            }
            assert(got =~= want);
        }
        self.rx = rx;
    }

    /// Takes the key of a sender that became known, unless it has one already.
    pub fn add_speaker(&mut self, group: &MlsSession, ssrc: u32, user_id: u64)
        ensures
            final(self)@ == old(self)@.with_speaker(*group, ssrc, user_id),
    {
        if self.rx.contains_key(&ssrc) {
            assert(old(self)@.rx.contains_key(ssrc));
            return;
        }
        assert(!old(self)@.rx.contains_key(ssrc));
        match group.media_base_secret_for(user_id) {
            Ok(secret) => {
                self.rx.insert(ssrc, FrameCryptor::from_base_secret(secret.as_slice()));
                assert(self@.rx =~= old(self)@.rx.insert(ssrc, secret@));
            },
            Err(_) => {},
        }
    }

    /// Leaves end-to-end encryption: all keys are dropped.
    pub fn deactivate(&mut self)
        ensures
            final(self)@ == KeysView::none(),
    {
        self.active = false;
        self.tx = None;
        self.rx.clear();
        assert(self@.rx =~= Map::<u32, Seq<u8>>::empty());
    }

    /// Tells whether the call is end-to-end encrypted.
    pub fn is_active(&self) -> (r: bool)
        ensures
            r == self@.active,
    {
        self.active
    }

    /// What goes into a voice packet for an Opus packet: an encrypted frame where there is
    /// a key, otherwise the packet itself.
    pub fn seal(&mut self, opus: &[u8]) -> (r: Vec<u8>)
        ensures
            final(self)@.rx == old(self)@.rx,
            final(self)@.active == old(self)@.active,
            match old(self)@.tx {
                Some((base, counter)) => {
                    &&& r@ == seal_frame(base, counter, opus@)
                    &&& final(self)@.tx == Some((base, ((counter + 1) % 0x1_0000_0000) as u32))
                },
                None => r@ == opus@ && final(self)@.tx is None,
            },
    {
        match &mut self.tx {
            Some(cryptor) => cryptor.seal(opus),
            None => vstd::slice::slice_to_vec(opus),
        }
    }

    /// What the payload of a voice packet from a source holds.
    pub fn open(&self, ssrc: u32, plain: Vec<u8>) -> (r: MediaFrame)
        ensures
            r@ == self@.frame(ssrc, plain@),
    {
        match self.rx.get(&ssrc) {
            Some(cryptor) => {
                assert(self@.rx.contains_key(ssrc) && self@.rx[ssrc] == cryptor.base());
                match cryptor.decrypt(plain.as_slice()) {
                    Ok(opus) => MediaFrame::Audio(opus),
                    Err(_) => if has_dave_magic(plain.as_slice()) {
                        MediaFrame::Undecryptable
                    } else {
                        MediaFrame::Filler
                    },
                }
            },
            None => {
                assert(!self@.rx.contains_key(ssrc));
                if self.active {
                    MediaFrame::NoKey
                } else {
                    MediaFrame::Audio(plain)
                }
            },
        }
    }
}

/// While the call is encrypted, nothing is taken for audio that did not decrypt: what a
/// sender without a key sends is dropped.
pub proof fn lemma_encrypted_call_plays_only_decrypted(keys: KeysView, ssrc: u32, plain: Seq<u8>)
    requires
        keys.active,
        keys.frame(ssrc, plain) is Audio,
    ensures
        keys.rx.contains_key(ssrc),
        open_frame(keys.rx[ssrc], plain) == Ok::<Seq<u8>, DaveError>(
            keys.frame(ssrc, plain)->Audio_0,
        ),
{
}

/// What one client seals, another that has its key opens to the same Opus packet.
pub proof fn lemma_media_roundtrip(keys: KeysView, ssrc: u32, counter: u32, opus: Seq<u8>)
    requires
        keys.rx.contains_key(ssrc),
    ensures
        keys.frame(ssrc, seal_frame(keys.rx[ssrc], counter, opus)) == MediaFrameView::Audio(opus),
{
    lemma_frame_roundtrip(keys.rx[ssrc], counter, opus);
}

} // verus!
