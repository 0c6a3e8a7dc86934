//! The lengths inside the messages of the group protocol. A length is written in one, two or
//! four bytes, as the top two bits of the first byte say; the fourth class is not in use. A
//! message in which a length of that class would be read is told apart here, before anything
//! else reads the message.

use vstd::prelude::*;
use vstd::slice::slice_subrange;

verus! {

/// The longest vector there can be.
pub const MAX_VECTOR: u64 = 0x3fff_ffff;

/// A part of a message that has a name of its own, and the type of the `openmls` crate that
/// it is read as.
#[derive(Clone, Copy, Debug, PartialEq, Eq, Structural)]
pub enum Part {
    /// `MlsMessageIn`: the version and the body.
    Message,
    /// `MlsMessageBodyIn`.
    Body,
    /// `PublicMessageIn`.
    PublicMessage,
    /// The `Sender` in a `FramedContentIn`, and what follows it.
    Sender,
    /// `FramedContentBodyIn` and `FramedContentAuthData`.
    Content,
    /// `PrivateMessageIn`.
    PrivateMessage,
    /// `Welcome`.
    Welcome,
    /// `EncryptedGroupSecrets`.
    GroupSecrets,
    /// `HpkeCiphertext`.
    Ciphertext,
    /// `VerifiableGroupInfo`.
    GroupInfo,
    /// `KeyPackageIn`.
    KeyPackage,
    /// `LeafNodeIn`.
    LeafNode,
    /// `LeafNodeSource`.
    LeafSource,
    /// `Extension`.
    Extension,
    /// `ProposalIn`.
    Proposal,
    /// `ProposalOrRefIn`.
    ProposalOrReference,
    /// `PreSharedKeyId`.
    PreSharedKey,
    /// `MessageRange`, in an `AppAckProposal`.
    MessageRange,
    /// An optional `UpdatePathIn`.
    OptionalPath,
    /// `UpdatePathNode`.
    PathNode,
    /// `ExternalSender`.
    ExternalSender,
    /// `RatchetTreeExtension`.
    RatchetTree,
    /// An optional `NodeIn`.
    OptionalNode,
    /// `NodeIn`.
    Node,
    /// `RequiredCapabilitiesExtension`.
    RequiredCapabilities,
    /// `ExternalSendersExtension`.
    ExternalSenders,
    /// `ApplicationIdExtension` and `ExternalPubExtension`: a vector of bytes.
    Vector,
    /// `LastResortExtension`: nothing at all.
    Nothing,
    /// A number of two bytes.
    Number16,
    /// A number of four bytes.
    Number32,
}

/// What a part is made of.
#[derive(Clone, Copy, Debug, PartialEq, Eq, Structural)]
pub enum Field {
    /// So many bytes.
    Skip(u8),
    /// A vector of bytes.
    Bytes,
    /// A part.
    One(Part),
    /// A vector of parts.
    Many(Part),
    /// A vector of bytes that is itself read as a part, in an extension.
    Inside(Part),
    /// A vector of bytes that is left as it is, in an extension.
    Data,
}

/// How many bytes at the front of a part say which kind of it follows.
pub open spec fn tag_bytes(part: Part) -> nat {
    match part {
        Part::Body | Part::Extension | Part::Proposal => 2,
        Part::Sender | Part::Content | Part::LeafSource | Part::ProposalOrReference => 1,
        Part::PreSharedKey | Part::OptionalPath | Part::OptionalNode | Part::Node => 1,
        _ => 0,
    }
}

/// What a part is made of, behind its tag; nothing where there is no such kind of it.
pub open spec fn fields(part: Part, tag: nat) -> Option<Seq<Field>> {
    match part {
        Part::Message => Some(seq![Field::Skip(2), Field::One(Part::Body)]),
        Part::Body => if tag == 1 {
            Some(seq![Field::One(Part::PublicMessage)])
        } else if tag == 2 {
            Some(seq![Field::One(Part::PrivateMessage)])
        } else if tag == 3 {
            Some(seq![Field::One(Part::Welcome)])
        } else if tag == 4 {
            Some(seq![Field::One(Part::GroupInfo)])
        } else if tag == 5 {
            Some(seq![Field::One(Part::KeyPackage)])
        } else {
            None
        },
        Part::PublicMessage => Some(seq![Field::Bytes, Field::Skip(8), Field::One(Part::Sender)]),
        // Behind the sender come the authenticated data and the content; the message of a
        // member ends with the membership tag.
        Part::Sender => if tag == 1 {
            Some(seq![Field::Skip(4), Field::Bytes, Field::One(Part::Content), Field::Bytes])
        } else if tag == 2 {
            Some(seq![Field::Skip(4), Field::Bytes, Field::One(Part::Content)])
        } else if tag == 3 || tag == 4 {
            Some(seq![Field::Bytes, Field::One(Part::Content)])
        } else {
            None
        },
        // Behind the content comes the signature, and behind a commit's the confirmation tag.
        Part::Content => if tag == 1 {
            Some(seq![Field::Bytes, Field::Bytes])
        } else if tag == 2 {
            Some(seq![Field::One(Part::Proposal), Field::Bytes])
        } else if tag == 3 {
            Some(
                seq![
                    Field::Many(Part::ProposalOrReference),
                    Field::One(Part::OptionalPath),
                    Field::Bytes,
                    Field::Bytes,
                ],
            )
        } else {
            None
        },
        Part::PrivateMessage => Some(
            seq![Field::Bytes, Field::Skip(9), Field::Bytes, Field::Bytes, Field::Bytes],
        ),
        Part::Welcome => Some(
            seq![Field::Skip(2), Field::Many(Part::GroupSecrets), Field::Bytes],
        ),
        Part::GroupSecrets => Some(seq![Field::Bytes, Field::One(Part::Ciphertext)]),
        Part::Ciphertext => Some(seq![Field::Bytes, Field::Bytes]),
        Part::GroupInfo => Some(
            seq![
                Field::Skip(4),
                Field::Bytes,
                Field::Skip(8),
                Field::Bytes,
                Field::Bytes,
                Field::Many(Part::Extension),
                Field::Many(Part::Extension),
                Field::Bytes,
                Field::Skip(4),
                Field::Bytes,
            ],
        ),
        Part::KeyPackage => Some(
            seq![
                Field::Skip(4),
                Field::Bytes,
                Field::One(Part::LeafNode),
                Field::Many(Part::Extension),
                Field::Bytes,
            ],
        ),
        // Two keys, the credential, five lists of what the client can do, where the leaf comes
        // from, the extensions and the signature.
        Part::LeafNode => Some(
            seq![
                Field::Bytes,
                Field::Bytes,
                Field::Skip(2),
                Field::Bytes,
                Field::Many(Part::Number16),
                Field::Many(Part::Number16),
                Field::Many(Part::Number16),
                Field::Many(Part::Number16),
                Field::Many(Part::Number16),
                Field::One(Part::LeafSource),
                Field::Many(Part::Extension),
                Field::Bytes,
            ],
        ),
        Part::LeafSource => if tag == 1 {
            Some(seq![Field::Skip(16)])
        } else if tag == 2 {
            Some(seq![])
        } else if tag == 3 {
            Some(seq![Field::Bytes])
        } else {
            None
        },
        Part::Extension => if tag == 1 || tag == 4 {
            Some(seq![Field::Inside(Part::Vector)])
        } else if tag == 2 {
            Some(seq![Field::Inside(Part::RatchetTree)])
        } else if tag == 3 {
            Some(seq![Field::Inside(Part::RequiredCapabilities)])
        } else if tag == 5 {
            Some(seq![Field::Inside(Part::ExternalSenders)])
        } else if tag == 10 {
            Some(seq![Field::Inside(Part::Nothing)])
        } else {
            Some(seq![Field::Data])
        },
        Part::Proposal => if tag == 1 {
            Some(seq![Field::One(Part::KeyPackage)])
        } else if tag == 2 {
            Some(seq![Field::One(Part::LeafNode)])
        } else if tag == 3 {
            Some(seq![Field::Skip(4)])
        } else if tag == 4 {
            Some(seq![Field::One(Part::PreSharedKey)])
        } else if tag == 5 {
            Some(seq![Field::Bytes, Field::Skip(4), Field::Many(Part::Extension)])
        } else if tag == 7 {
            Some(seq![Field::Many(Part::Extension)])
        } else if tag == 8 {
            Some(seq![Field::Many(Part::MessageRange)])
        } else {
            Some(seq![Field::Bytes])
        },
        Part::ProposalOrReference => if tag == 1 {
            Some(seq![Field::One(Part::Proposal)])
        } else if tag == 2 {
            Some(seq![Field::Bytes])
        } else {
            None
        },
        Part::PreSharedKey => if tag == 1 {
            Some(seq![Field::Bytes, Field::Bytes])
        } else if tag == 2 {
            Some(seq![Field::Skip(1), Field::Bytes, Field::Skip(8), Field::Bytes])
        } else {
            None
        },
        Part::MessageRange => Some(seq![Field::Bytes, Field::Skip(8)]),
        Part::OptionalPath => if tag == 0 {
            Some(seq![])
        } else if tag == 1 {
            Some(seq![Field::One(Part::LeafNode), Field::Many(Part::PathNode)])
        } else {
            None
        },
        Part::PathNode => Some(seq![Field::Bytes, Field::Many(Part::Ciphertext)]),
        Part::ExternalSender => Some(seq![Field::Bytes, Field::Skip(2), Field::Bytes]),
        Part::RatchetTree => Some(seq![Field::Many(Part::OptionalNode)]),
        Part::OptionalNode => if tag == 0 {
            Some(seq![])
        } else if tag == 1 {
            Some(seq![Field::One(Part::Node)])
        } else {
            None
        },
        Part::Node => if tag == 1 {
            Some(seq![Field::One(Part::LeafNode)])
        } else if tag == 2 {
            Some(seq![Field::Bytes, Field::Bytes, Field::Many(Part::Number32)])
        } else {
            None
        },
        Part::RequiredCapabilities => Some(
            seq![
                Field::Many(Part::Number16),
                Field::Many(Part::Number16),
                Field::Many(Part::Number16),
            ],
        ),
        Part::ExternalSenders => Some(seq![Field::Many(Part::ExternalSender)]),
        Part::Vector => Some(seq![Field::Bytes]),
        Part::Nothing => Some(seq![]),
        Part::Number16 => Some(seq![Field::Skip(2)]),
        Part::Number32 => Some(seq![Field::Skip(4)]),
    }
}

/// The fields of a part, in contracts.
spec fn fields_view(list: Option<Vec<Field>>) -> Option<Seq<Field>> {
    match list {
        Some(v) => Some(v@),
        None => None,
    }
}

/// Tells what a part is made of, behind its tag.
fn fields_of(part: Part, tag: usize) -> (r: Option<Vec<Field>>)
    ensures
        fields_view(r) == fields(part, tag as nat),
{
    let r: Option<Vec<Field>> = match part {
        Part::Message => Some(vec![Field::Skip(2), Field::One(Part::Body)]),
        Part::Body => if tag == 1 {
            Some(vec![Field::One(Part::PublicMessage)])
        } else if tag == 2 {
            Some(vec![Field::One(Part::PrivateMessage)])
        } else if tag == 3 {
            Some(vec![Field::One(Part::Welcome)])
        } else if tag == 4 {
            Some(vec![Field::One(Part::GroupInfo)])
        } else if tag == 5 {
            Some(vec![Field::One(Part::KeyPackage)])
        } else {
            None
        },
        Part::PublicMessage => Some(vec![Field::Bytes, Field::Skip(8), Field::One(Part::Sender)]),
        Part::Sender => if tag == 1 {
            Some(vec![Field::Skip(4), Field::Bytes, Field::One(Part::Content), Field::Bytes])
        } else if tag == 2 {
            Some(vec![Field::Skip(4), Field::Bytes, Field::One(Part::Content)])
        } else if tag == 3 || tag == 4 {
            Some(vec![Field::Bytes, Field::One(Part::Content)])
        } else {
            None
        },
        Part::Content => if tag == 1 {
            Some(vec![Field::Bytes, Field::Bytes])
        } else if tag == 2 {
            Some(vec![Field::One(Part::Proposal), Field::Bytes])
        } else if tag == 3 {
            Some(
                vec![
                    Field::Many(Part::ProposalOrReference),
                    Field::One(Part::OptionalPath),
                    Field::Bytes,
                    Field::Bytes,
                ],
            )
        } else {
            None
        },
        Part::PrivateMessage => Some(
            vec![Field::Bytes, Field::Skip(9), Field::Bytes, Field::Bytes, Field::Bytes],
        ),
        Part::Welcome => Some(
            vec![Field::Skip(2), Field::Many(Part::GroupSecrets), Field::Bytes],
        ),
        Part::GroupSecrets => Some(vec![Field::Bytes, Field::One(Part::Ciphertext)]),
        Part::Ciphertext => Some(vec![Field::Bytes, Field::Bytes]),
        Part::GroupInfo => Some(
            vec![
                Field::Skip(4),
                Field::Bytes,
                Field::Skip(8),
                Field::Bytes,
                Field::Bytes,
                Field::Many(Part::Extension),
                Field::Many(Part::Extension),
                Field::Bytes,
                Field::Skip(4),
                Field::Bytes,
            ],
        ),
        Part::KeyPackage => Some(
            vec![
                Field::Skip(4),
                Field::Bytes,
                Field::One(Part::LeafNode),
                Field::Many(Part::Extension),
                Field::Bytes,
            ],
        ),
        Part::LeafNode => Some(
            vec![
                Field::Bytes,
                Field::Bytes,
                Field::Skip(2),
                Field::Bytes,
                Field::Many(Part::Number16),
                Field::Many(Part::Number16),
                Field::Many(Part::Number16),
                Field::Many(Part::Number16),
                Field::Many(Part::Number16),
                Field::One(Part::LeafSource),
                Field::Many(Part::Extension),
                Field::Bytes,
            ],
        ),
        Part::LeafSource => if tag == 1 {
            Some(vec![Field::Skip(16)])
        } else if tag == 2 {
            Some(vec![])
        } else if tag == 3 {
            Some(vec![Field::Bytes])
        } else {
            None
        },
        Part::Extension => if tag == 1 || tag == 4 {
            Some(vec![Field::Inside(Part::Vector)])
        } else if tag == 2 {
            Some(vec![Field::Inside(Part::RatchetTree)])
        } else if tag == 3 {
            Some(vec![Field::Inside(Part::RequiredCapabilities)])
        } else if tag == 5 {
            Some(vec![Field::Inside(Part::ExternalSenders)])
        } else if tag == 10 {
            Some(vec![Field::Inside(Part::Nothing)])
        } else {
            Some(vec![Field::Data])
        },
        Part::Proposal => if tag == 1 {
            Some(vec![Field::One(Part::KeyPackage)])
        } else if tag == 2 {
            Some(vec![Field::One(Part::LeafNode)])
        } else if tag == 3 {
            Some(vec![Field::Skip(4)])
        } else if tag == 4 {
            Some(vec![Field::One(Part::PreSharedKey)])
        } else if tag == 5 {
            Some(vec![Field::Bytes, Field::Skip(4), Field::Many(Part::Extension)])
        } else if tag == 7 {
            Some(vec![Field::Many(Part::Extension)])
        } else if tag == 8 {
            Some(vec![Field::Many(Part::MessageRange)])
        } else {
            Some(vec![Field::Bytes])
        },
        Part::ProposalOrReference => if tag == 1 {
            Some(vec![Field::One(Part::Proposal)])
        } else if tag == 2 {
            Some(vec![Field::Bytes])
        } else {
            None
        },
        Part::PreSharedKey => if tag == 1 {
            Some(vec![Field::Bytes, Field::Bytes])
        } else if tag == 2 {
            Some(vec![Field::Skip(1), Field::Bytes, Field::Skip(8), Field::Bytes])
        } else {
            None
        },
        Part::MessageRange => Some(vec![Field::Bytes, Field::Skip(8)]),
        Part::OptionalPath => if tag == 0 {
            Some(vec![])
        } else if tag == 1 {
            Some(vec![Field::One(Part::LeafNode), Field::Many(Part::PathNode)])
        } else {
            None
        },
        Part::PathNode => Some(vec![Field::Bytes, Field::Many(Part::Ciphertext)]),
        Part::ExternalSender => Some(vec![Field::Bytes, Field::Skip(2), Field::Bytes]),
        Part::RatchetTree => Some(vec![Field::Many(Part::OptionalNode)]),
        Part::OptionalNode => if tag == 0 {
            Some(vec![])
        } else if tag == 1 {
            Some(vec![Field::One(Part::Node)])
        } else {
            None
        },
        Part::Node => if tag == 1 {
            Some(vec![Field::One(Part::LeafNode)])
        } else if tag == 2 {
            Some(vec![Field::Bytes, Field::Bytes, Field::Many(Part::Number32)])
        } else {
            None
        },
        Part::RequiredCapabilities => Some(
            vec![
                Field::Many(Part::Number16),
                Field::Many(Part::Number16),
                Field::Many(Part::Number16),
            ],
        ),
        Part::ExternalSenders => Some(vec![Field::Many(Part::ExternalSender)]),
        Part::Vector => Some(vec![Field::Bytes]),
        Part::Nothing => Some(vec![]),
        Part::Number16 => Some(vec![Field::Skip(2)]),
        Part::Number32 => Some(vec![Field::Skip(4)]),
    };
    assert(fields_view(r) is Some ==> fields_view(r)->Some_0 =~= fields(part, tag as nat)->Some_0);
    r
}

/// What walking over a part comes to.
pub enum WalkView {
    /// The part ends before `pos`, and takes `size` bytes when it is written again.
    Next { pos: int, size: int },
    /// The message ends too early, or there is no such kind of a part.
    Stop,
    /// A length of the class that is not in use, or a vector inside another one that would be
    /// too long when it is written again.
    Bad,
}

/// A length that is read at some place.
pub enum LengthView {
    Found { value: int, next: int },
    Missing,
    Bad,
}

/// The length at `pos`.
pub open spec fn length_at(b: Seq<u8>, pos: int) -> LengthView {
    if pos >= b.len() {
        LengthView::Missing
    } else if b[pos] < 64 {
        LengthView::Found { value: b[pos] as int, next: pos + 1 }
    } else if b[pos] < 128 {
        if pos + 2 > b.len() {
            LengthView::Missing
        } else {
            LengthView::Found { value: (b[pos] - 64) * 0x100 + b[pos + 1], next: pos + 2 }
        }
    } else if b[pos] < 192 {
        if pos + 4 > b.len() {
            LengthView::Missing
        } else {
            LengthView::Found {
                value: (b[pos] - 128) * 0x100_0000 + b[pos + 1] * 0x1_0000 + b[pos + 2] * 0x100
                    + b[pos + 3],
                next: pos + 4,
            }
        }
    } else {
        LengthView::Bad
    }
}

/// A vector of `n` bytes, with its length.
pub open spec fn vector_size(n: int) -> int {
    if n <= 0x3f {
        n + 1
    } else if n <= 0x3fff {
        n + 2
    } else {
        n + 4
    }
}

/// What an extension counts for a content of `n` bytes, with its length.
pub open spec fn data_size(n: int) -> int {
    if n < 0x40 {
        n + 1
    } else if n < 0x3fff {
        n + 2
    } else if n < 0x3fff_ffff {
        n + 4
    } else {
        n + 8
    }
}

/// The number in the `n` bytes at `pos`, of which there are at most two.
pub open spec fn tag_at(b: Seq<u8>, pos: int, n: nat) -> nat {
    if n == 0 {
        0
    } else if n == 1 {
        b[pos] as nat
    } else {
        (b[pos] * 0x100 + b[pos + 1]) as nat
    }
}

/// How many bytes there are from `pos` on.
pub open spec fn rest(b: Seq<u8>, pos: int) -> nat {
    if 0 <= pos < b.len() {
        (b.len() - pos) as nat
    } else {
        0
    }
}

/// Walks over a part, inside a vector of parts or not.
pub open spec fn walk_part(part: Part, b: Seq<u8>, pos: int, inside: bool) -> WalkView
    decreases rest(b, pos), 3nat, 0nat,
{
    let n = tag_bytes(part);
    if pos + n > b.len() {
        WalkView::Stop
    } else {
        match fields(part, tag_at(b, pos, n)) {
            None => WalkView::Stop,
            Some(list) => walk_fields(list, b, pos, pos + n, n as int, inside),
        }
    }
}

/// Walks over fields of the part that begins at `start`, behind `size` bytes of it.
pub open spec fn walk_fields(
    list: Seq<Field>,
    b: Seq<u8>,
    start: int,
    pos: int,
    size: int,
    inside: bool,
) -> WalkView
    decreases rest(b, start), 2nat, list.len(),
{
    if list.len() == 0 {
        WalkView::Next { pos, size }
    } else {
        match walk_field(list[0], b, start, pos, inside) {
            WalkView::Next { pos: p, size: n } => walk_fields(
                list.skip(1),
                b,
                start,
                p,
                size + n,
                inside,
            ),
            other => other,
        }
    }
}

/// Walks over a field of the part that begins at `start`. No part begins with another one
/// before a byte of its own.
pub open spec fn walk_field(
    field: Field,
    b: Seq<u8>,
    start: int,
    pos: int,
    inside: bool,
) -> WalkView
    decreases rest(b, start), 1nat, 0nat,
{
    if !(0 <= start <= pos <= b.len()) {
        WalkView::Stop
    } else {
        match field {
            Field::Skip(n) => if pos + n > b.len() {
                WalkView::Stop
            } else {
                WalkView::Next { pos: pos + n, size: n as int }
            },
            Field::One(part) => if pos == start {
                WalkView::Stop
            } else {
                walk_part(part, b, pos, inside)
            },
            _ => match length_at(b, pos) {
                LengthView::Missing => WalkView::Stop,
                LengthView::Bad => WalkView::Bad,
                LengthView::Found { value, next } => match field {
                    Field::Many(part) => match walk_list(part, b, next, value, 0) {
                        WalkView::Next { pos: p, size } => if inside && size > MAX_VECTOR {
                            WalkView::Bad
                        } else {
                            WalkView::Next { pos: p, size: vector_size(size) }
                        },
                        other => other,
                    },
                    _ => if value < 0 || next + value > b.len() {
                        WalkView::Stop
                    } else {
                        match field {
                            Field::Inside(part) => match walk_part(
                                part,
                                b.subrange(next, next + value),
                                0,
                                inside,
                            ) {
                                WalkView::Next { pos: _, size } => WalkView::Next {
                                    pos: next + value,
                                    size: data_size(size),
                                },
                                other => other,
                            },
                            Field::Data => WalkView::Next {
                                pos: next + value,
                                size: data_size(value),
                            },
                            _ => WalkView::Next { pos: next + value, size: vector_size(value) },
                        }
                    },
                },
            },
        }
    }
}

/// Walks over the parts in a vector of `length` bytes, behind parts that count `read` bytes.
/// The vector ends with the first part that fills it. Every part takes at least a byte.
pub open spec fn walk_list(part: Part, b: Seq<u8>, pos: int, length: int, read: int) -> WalkView
    decreases rest(b, pos), 4nat, 0nat,
{
    if read >= length {
        WalkView::Next { pos, size: read }
    } else {
        match walk_part(part, b, pos, true) {
            WalkView::Next { pos: p, size } => if !(0 <= pos < p <= b.len()) {
                WalkView::Stop
            } else {
                walk_list(part, b, p, length, read + size)
            },
            other => other,
        }
    }
}

/// The lengths in a message, of which the bytes are the given part, are such that it can be
/// read: none of the class that is not in use comes up. Bytes that end too early, or hold a
/// part of an unknown kind, can be read up to there.
pub open spec fn readable(part: Part, b: Seq<u8>) -> bool {
    !(walk_part(part, b, 0, false) is Bad)
}

enum Walk {
    Next { pos: usize, size: u128 },
    Stop,
    Bad,
}

impl View for Walk {
    type V = WalkView;

    closed spec fn view(&self) -> WalkView {
        match *self {
            Walk::Next { pos, size } => WalkView::Next { pos: pos as int, size: size as int },
            Walk::Stop => WalkView::Stop,
            Walk::Bad => WalkView::Bad,
        }
    }
}

impl Walk {
    /// The walk has not gone back and is still inside the bytes, and what it passed over is
    /// not much longer when it is written again.
    closed spec fn within(&self, start: int, n: nat) -> bool {
        match *self {
            Walk::Next { pos, size } => start <= pos <= n && size <= 9 * (pos - start),
            _ => true,
        }
    }
}

enum Length {
    Found { value: usize, next: usize },
    Missing,
    Bad,
}

fn read_length(b: &[u8], pos: usize) -> (r: Length)
    requires
        pos <= b@.len(),
    ensures
        length_at(b@, pos as int) == (match r {
            Length::Found { value, next } => LengthView::Found {
                value: value as int,
                next: next as int,
            },
            Length::Missing => LengthView::Missing,
            Length::Bad => LengthView::Bad,
        }),
        match r {
            Length::Found { value, next } => value <= MAX_VECTOR && pos < next <= b@.len(),
            _ => true,
        },
{
    let left: usize = b.len() - pos;
    if left == 0 {
        return Length::Missing;
    }
    let first: usize = b[pos] as usize;
    if first < 64 {
        Length::Found { value: first, next: pos + 1 }
    } else if first < 128 {
        if left < 2 {
            return Length::Missing;
        }
        Length::Found { value: (first - 64) * 0x100 + b[pos + 1] as usize, next: pos + 2 }
    } else if first < 192 {
        if left < 4 {
            return Length::Missing;
        }
        let high: usize = (first - 128) * 0x100_0000 + b[pos + 1] as usize * 0x1_0000;
        Length::Found {
            value: high + b[pos + 2] as usize * 0x100 + b[pos + 3] as usize,
            next: pos + 4,
        }
    } else {
        Length::Bad
    }
}

fn size_of_vector(n: u128) -> (r: u128)
    requires
        n < 0x1_0000_0000_0000_0000_0000,
    ensures
        r == vector_size(n as int),
{
    if n <= 0x3f {
        n + 1
    } else if n <= 0x3fff {
        n + 2
    } else {
        n + 4
    }
}

fn size_of_data(n: u128) -> (r: u128)
    requires
        n < 0x1_0000_0000_0000_0000_0000,
    ensures
        r == data_size(n as int),
{
    if n < 0x40 {
        n + 1
    } else if n < 0x3fff {
        n + 2
    } else if n < 0x3fff_ffff {
        n + 4
    } else {
        n + 8
    }
}

fn over_part(part: Part, b: &[u8], pos: usize, inside: bool) -> (r: Walk)
    requires
        pos <= b@.len(),
    ensures
        r@ == walk_part(part, b@, pos as int, inside),
        r.within(pos as int, b@.len()),
    decreases rest(b@, pos as int), 3nat, 0nat,
{
    let n: usize = match part {
        Part::Body | Part::Extension | Part::Proposal => 2,
        Part::Sender | Part::Content | Part::LeafSource | Part::ProposalOrReference => 1,
        Part::PreSharedKey | Part::OptionalPath | Part::OptionalNode | Part::Node => 1,
        _ => 0,
    };
    if b.len() - pos < n {
        return Walk::Stop;
    }
    let tag: usize = if n == 0 {
        0
    } else if n == 1 {
        b[pos] as usize
    } else {
        b[pos] as usize * 0x100 + b[pos + 1] as usize
    };
    match fields_of(part, tag) {
        None => Walk::Stop,
        Some(list) => over_fields(&list, b, pos, n, inside),
    }
}

fn over_fields(list: &Vec<Field>, b: &[u8], start: usize, tag: usize, inside: bool) -> (r: Walk)
    requires
        start + tag <= b@.len() <= usize::MAX,
    ensures
        r@ == walk_fields(list@, b@, start as int, start + tag, tag as int, inside),
        r.within(start as int, b@.len()),
    decreases rest(b@, start as int), 2nat, 0nat,
{
    let mut pos: usize = start + tag;
    let mut size: u128 = tag as u128;
    let mut k: usize = 0;
    assert(list@.skip(0) =~= list@);
    while k < list.len()
        invariant
            k <= list@.len(),
            start <= pos <= b@.len(),
            size <= 9 * (pos - start),
            walk_fields(list@, b@, start as int, start + tag, tag as int, inside) == walk_fields(
                list@.skip(k as int),
                b@,
                start as int,
                pos as int,
                size as int,
                inside,
            ),
        decreases list@.len() - k,
    {
        assert(list@.skip(k as int)[0] == list@[k as int]);
        assert(list@.skip(k as int).skip(1) =~= list@.skip(k + 1));
        match over_field(list[k], b, start, pos, inside) {
            Walk::Next { pos: p, size: n } => {
                pos = p;
                size = size + n;
            },
            other => {
                return other;
            },
        }
        k = k + 1;
    }
    Walk::Next { pos, size }
}

fn over_field(field: Field, b: &[u8], start: usize, pos: usize, inside: bool) -> (r: Walk)
    requires
        start <= pos <= b@.len(),
    ensures
        r@ == walk_field(field, b@, start as int, pos as int, inside),
        r.within(pos as int, b@.len()),
    decreases rest(b@, start as int), 1nat, 0nat,
{
    match field {
        Field::Skip(n) => {
            if n as usize > b.len() - pos {
                return Walk::Stop;
            }
            return Walk::Next { pos: pos + n as usize, size: n as u128 };
        },
        Field::One(part) => {
            if pos == start {
                return Walk::Stop;
            }
            return over_part(part, b, pos, inside);
        },
        _ => {},
    }
    let (value, next) = match read_length(b, pos) {
        Length::Missing => {
            return Walk::Stop;
        },
        Length::Bad => {
            return Walk::Bad;
        },
        Length::Found { value, next } => (value, next),
    };
    if let Field::Many(part) = field {
        return match over_list(part, b, next, value) {
            Walk::Next { pos: p, size } => if inside && size > MAX_VECTOR as u128 {
                Walk::Bad
            } else {
                Walk::Next { pos: p, size: size_of_vector(size) }
            },
            other => other,
        };
    }
    if value > b.len() - next {
        return Walk::Stop;
    }
    match field {
        Field::Inside(part) => match over_part(
            part,
            slice_subrange(b, next, next + value),
            0,
            inside,
        ) {
            Walk::Next { pos: _, size } => Walk::Next {
                pos: next + value,
                size: size_of_data(size),
            },
            other => other,
        },
        Field::Data => Walk::Next { pos: next + value, size: size_of_data(value as u128) },
        _ => Walk::Next { pos: next + value, size: size_of_vector(value as u128) },
    }
}

fn over_list(part: Part, b: &[u8], start: usize, length: usize) -> (r: Walk)
    requires
        start <= b@.len(),
    ensures
        r@ == walk_list(part, b@, start as int, length as int, 0),
        r.within(start as int, b@.len()),
    decreases rest(b@, start as int), 4nat, 0nat,
{
    let mut pos: usize = start;
    let mut read: u128 = 0;
    while read < length as u128
        invariant
            start <= pos <= b@.len(),
            read <= 9 * (pos - start),
            walk_list(part, b@, start as int, length as int, 0) == walk_list(
                part,
                b@,
                pos as int,
                length as int,
                read as int,
            ),
        decreases b@.len() - pos,
    {
        match over_part(part, b, pos, true) {
            Walk::Next { pos: p, size } => {
                if p == pos {
                    return Walk::Stop;
                }
                pos = p;
                read = read + size;
            },
            other => {
                return other;
            },
        }
    }
    Walk::Next { pos, size: read }
}

/// Tells whether the lengths in a message are such that it can be read.
pub fn is_readable(part: Part, b: &[u8]) -> (r: bool)
    ensures
        r == readable(part, b@),
{
    match over_part(part, b, 0, false) {
        Walk::Bad => false,
        _ => true,
    }
}

} // verus!
