//! Why a voice session ended.

use vstd::prelude::*;

use crate::text::{concat3, decimal, decimal_text};
use crate::voice::PREFERRED_MODE;

verus! {

/// Why a voice session ended.
pub enum VoiceError {
    /// The voice gateway did not answer the last heartbeat.
    NoHeartbeatAck,
    /// The voice gateway's answer lacks a source, an address or a port.
    IncompleteReady,
    /// The voice gateway offers these encryptions, and not the one this client speaks.
    ModeNotOffered(Vec<String>),
    /// The transport key has this many bytes in place of 32.
    BadSecretKey(usize),
    /// The transport key came before there was a socket.
    UdpNotReady,
    /// The answer to the address discovery has only this many bytes.
    ShortDiscovery(usize),
    /// The answer to the address discovery holds no address.
    BadDiscovery,
}

/// Why a voice session ended, in contracts.
pub enum VoiceErrorView {
    NoHeartbeatAck,
    IncompleteReady,
    ModeNotOffered(Seq<Seq<char>>),
    BadSecretKey(nat),
    UdpNotReady,
    ShortDiscovery(nat),
    BadDiscovery,
}

/// The texts in a list.
pub open spec fn texts_view(list: Seq<String>) -> Seq<Seq<char>> {
    list.map_values(|s: String| s@)
}

impl View for VoiceError {
    type V = VoiceErrorView;

    open spec fn view(&self) -> VoiceErrorView {
        match *self {
            VoiceError::NoHeartbeatAck => VoiceErrorView::NoHeartbeatAck,
            VoiceError::IncompleteReady => VoiceErrorView::IncompleteReady,
            VoiceError::ModeNotOffered(modes) => VoiceErrorView::ModeNotOffered(
                texts_view(modes@),
            ),
            VoiceError::BadSecretKey(n) => VoiceErrorView::BadSecretKey(n as nat),
            VoiceError::UdpNotReady => VoiceErrorView::UdpNotReady,
            VoiceError::ShortDiscovery(n) => VoiceErrorView::ShortDiscovery(n as nat),
            VoiceError::BadDiscovery => VoiceErrorView::BadDiscovery,
        }
    }
}

/// A list of texts as std's `{:?}` shows it.
pub uninterp spec fn debug_list(list: Seq<Seq<char>>) -> Seq<char>;

/// Formats with std's `{:?}` of `Vec<String>`; the text is a function of the texts in the
/// list.
#[verifier::external_body]
fn debug_texts(list: &Vec<String>) -> (r: String)
    ensures
        r@ == debug_list(texts_view(list@)),
{
    format!("{:?}", list)
}

impl VoiceErrorView {
    /// The text for the user.
    pub open spec fn text(self) -> Seq<char> {
        match self {
            VoiceErrorView::NoHeartbeatAck => "sin ACK de heartbeat de voz"@,
            VoiceErrorView::IncompleteReady => "READY de voz incompleto"@,
            VoiceErrorView::ModeNotOffered(modes) => "el servidor no ofrece "@ + PREFERRED_MODE@ + (
            " (modos: "@ + debug_list(modes) + ")"@),
            VoiceErrorView::BadSecretKey(n) => "secret_key inválida ("@ + decimal(n) + " bytes)"@,
            VoiceErrorView::UdpNotReady => "UDP no listo"@,
            VoiceErrorView::ShortDiscovery(n) => "respuesta de IP discovery corta ("@ + decimal(n)
                + ")"@,
            VoiceErrorView::BadDiscovery => "IP discovery inválido"@,
        }
    }
}

impl VoiceError {
    /// The text for the user.
    pub fn text(&self) -> (r: String)
        ensures
            r@ == self@.text(),
    {
        match self {
            VoiceError::NoHeartbeatAck => "sin ACK de heartbeat de voz".to_owned(),
            VoiceError::IncompleteReady => "READY de voz incompleto".to_owned(),
            VoiceError::ModeNotOffered(modes) => {
                let offered = concat3(" (modos: ", debug_texts(modes).as_str(), ")");
                concat3("el servidor no ofrece ", PREFERRED_MODE, offered.as_str())
            },
            VoiceError::BadSecretKey(n) => concat3(
                "secret_key inválida (",
                decimal_text(*n as u64).as_str(),
                " bytes)",
            ),
            VoiceError::UdpNotReady => "UDP no listo".to_owned(),
            VoiceError::ShortDiscovery(n) => concat3(
                "respuesta de IP discovery corta (",
                decimal_text(*n as u64).as_str(),
                ")",
            ),
            VoiceError::BadDiscovery => "IP discovery inválido".to_owned(),
        }
    }
}

} // verus!
