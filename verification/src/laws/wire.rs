//! The messages of the group protocol, byte by byte: where each part of one ends, and which
//! lengths keep it from being read.

use vstd::prelude::*;

use crate::dave::wire::{
    fields, is_readable, length_at, tag_at, tag_bytes, vector_size,
    walk_field, walk_fields, walk_list, walk_part, Field, LengthView, Part, WalkView,
};
use crate::laws::packets::{number16, number32};

verus! {

/// The number in the bytes at a place: one byte for a number below 64, two for one below
/// 16384 and four for one below 2^30, where the first byte counts 64 and 128 more.
pub open spec fn length_from(b: Seq<u8>, p: int, next: int, n: int) -> bool {
    &&& 0 <= p < next <= b.len()
    &&& n >= 0
    &&& {
        ||| next == p + 1 && n < 0x40 && b[p] == n
        ||| next == p + 2 && 0x40 <= n < 0x4000 && number16(b[p], b[p + 1]) == 0x4000 + n
        ||| next == p + 4 && 0x4000 <= n < 0x4000_0000 && number32(
            b[p],
            b[p + 1],
            b[p + 2],
            b[p + 3],
        ) == 0x8000_0000 + n
    }
}

/// A length of the class that is not in use stands at a place.
pub open spec fn bad_length(b: Seq<u8>, p: int) -> bool {
    0 <= p < b.len() && b[p] >= 192
}

/// A vector of bytes stands from `p` to `q`: its length, then so many bytes.
pub open spec fn is_vector(b: Seq<u8>, p: int, next: int, q: int) -> bool {
    length_from(b, p, next, q - next) && q <= b.len()
}

/// A part stands from `p` to `q`.
pub open spec fn is_part(part: Part, b: Seq<u8>, p: int, q: int, inside: bool) -> bool {
    &&& 0 <= p < q <= b.len()
    &&& walk_part(part, b, p, inside) == (WalkView::Next { pos: q, size: q - p })
}

/// Parts of one kind stand from one place to the next, without a gap.
pub open spec fn are_parts(part: Part, b: Seq<u8>, at: Seq<int>) -> bool {
    &&& at.len() > 0
    &&& forall|i: int| 0 <= i < at.len() - 1 ==> #[trigger] is_item(part, b, at, i)
}

/// A part stands from a place to the one behind it.
pub open spec fn is_item(part: Part, b: Seq<u8>, at: Seq<int>, i: int) -> bool {
    is_part(part, b, at[i], at[i + 1], true)
}

/// A field stands from `p` to `q`; `next` is where its content begins and `items` where the
/// parts of a list do.
pub open spec fn stands(
    field: Field,
    b: Seq<u8>,
    p: int,
    next: int,
    items: Seq<int>,
    q: int,
    inside: bool,
) -> bool {
    match field {
        Field::Skip(n) => 0 <= p && q == p + n && q <= b.len(),
        Field::Bytes => is_vector(b, p, next, q),
        Field::One(part) => is_part(part, b, p, q, inside),
        Field::Many(part) => is_vector(b, p, next, q) && are_parts(part, b, items) && items[0]
            == next && items.last() == q,
        Field::Data => is_vector(b, p, next, q) && counted(q - next),
        Field::Inside(part) => {
            &&& is_vector(b, p, next, q)
            &&& counted(q - next)
            &&& q > next
            &&& is_part(part, b.subrange(next, q), 0, q - next, inside)
        },
    }
}

/// The content of an extension has a length that is counted as it is written.
pub open spec fn counted(n: int) -> bool {
    n != 0x3fff && n != 0x3fff_ffff
}

/// A field at `p` cannot be read, whatever follows: its length is of the class that is not in
/// use, or its content is a part that cannot be read.
pub open spec fn spoiled(
    field: Field,
    b: Seq<u8>,
    p: int,
    next: int,
    q: int,
    inside: bool,
) -> bool {
    match field {
        Field::Skip(_) => false,
        Field::One(part) => walk_part(part, b, p, inside) is Bad,
        Field::Bytes | Field::Data => bad_length(b, p),
        Field::Many(part) => bad_length(b, p) || is_vector(b, p, next, q) && q > next && walk_part(
            part,
            b,
            next,
            true,
        ) is Bad,
        Field::Inside(part) => bad_length(b, p) || is_vector(b, p, next, q) && walk_part(
            part,
            b.subrange(next, q),
            0,
            inside,
        ) is Bad,
    }
}

/// Where the fields of a part stand: each from its place to the next one.
pub struct Layout {
    pub at: Seq<int>,
    pub next: Seq<int>,
    pub items: Seq<Seq<int>>,
}

/// The field at a place of a list stands where it should.
pub open spec fn in_place(list: Seq<Field>, b: Seq<u8>, l: Layout, i: int, inside: bool) -> bool {
    stands(list[i], b, l.at[i], l.next[i], l.items[i], l.at[i + 1], inside)
}

/// The first `k` fields of a list stand one behind the other.
pub open spec fn laid_out(
    list: Seq<Field>,
    b: Seq<u8>,
    l: Layout,
    k: int,
    inside: bool,
) -> bool {
    &&& l.at.len() == list.len() + 1
    &&& l.next.len() == list.len()
    &&& l.items.len() == list.len()
    &&& 0 <= k <= list.len()
    &&& forall|i: int| 0 <= i < k ==> #[trigger] in_place(list, b, l, i, inside)
}

/// A part with a tag is made of the fields in a list: where they stand one behind the other
/// behind the tag, the part stands from the tag to the end of the last one; and the first one
/// that cannot be read spoils the part.
pub open spec fn made_of(
    part: Part,
    tag: int,
    list: Seq<Field>,
    b: Seq<u8>,
    start: int,
    l: Layout,
    k: int,
    inside: bool,
) -> bool {
    tagged(part, tag, b, start, l.at[0]) && l.at[0] <= b.len() && laid_out(list, b, l, k, inside)
        ==> {
        &&& k == list.len() && l.at[k] > start ==> is_part(part, b, start, l.at[k], inside)
        &&& k < list.len() && spoiled(list[k], b, l.at[k], l.next[k], l.at[k + 1], inside)
            ==> walk_part(part, b, start, inside) is Bad
    }
}

/// The tag of a part stands in front of its fields: two bytes, one or none.
pub open spec fn tagged(part: Part, tag: int, b: Seq<u8>, start: int, behind: int) -> bool {
    &&& 0 <= start <= behind <= b.len()
    &&& match part {
        Part::Body | Part::Extension | Part::Proposal => behind == start + 2 && number16(
            b[start],
            b[start + 1],
        ) == tag,
        Part::Sender
        | Part::Content
        | Part::LeafSource
        | Part::ProposalOrReference
        | Part::PreSharedKey
        | Part::OptionalPath
        | Part::OptionalNode
        | Part::Node => behind == start + 1 && b[start] == tag,
        _ => behind == start,
    }
}

proof fn lemma_length(b: Seq<u8>, p: int, next: int, n: int)
    ensures
        length_from(b, p, next, n) ==> length_at(b, p) == (LengthView::Found { value: n, next })
            && vector_size(n) == n + (next - p),
        bad_length(b, p) ==> length_at(b, p) is Bad,
{
}

proof fn lemma_parts(part: Part, b: Seq<u8>, at: Seq<int>, length: int, read: int)
    requires
        are_parts(part, b, at),
        read >= 0,
        read + (at.last() - at[0]) == length,
    ensures
        walk_list(part, b, at[0], length, read) == (WalkView::Next {
            pos: at.last(),
            size: length,
        }),
    decreases at.len(),
{
    if at.len() > 1 {
        assert(is_item(part, b, at, 0));
        let rest = at.skip(1);
        assert forall|i: int| 0 <= i < rest.len() - 1 implies #[trigger] is_item(
            part,
            b,
            rest,
            i,
        ) by {
            assert(is_item(part, b, at, i + 1));
        }
        lemma_forward(part, b, at);
        lemma_parts(part, b, rest, length, read + (at[1] - at[0]));
    }
}

proof fn lemma_forward(part: Part, b: Seq<u8>, at: Seq<int>)
    requires
        are_parts(part, b, at),
    ensures
        at[0] <= at.last(),
        at.len() > 1 ==> at[0] < at.last(),
    decreases at.len(),
{
    if at.len() > 1 {
        let rest = at.skip(1);
        assert(is_item(part, b, at, 0));
        assert forall|i: int| 0 <= i < rest.len() - 1 implies #[trigger] is_item(
            part,
            b,
            rest,
            i,
        ) by {
            assert(is_item(part, b, at, i + 1));
        }
        lemma_forward(part, b, rest);
    }
}

proof fn lemma_stands(
    field: Field,
    b: Seq<u8>,
    start: int,
    p: int,
    next: int,
    items: Seq<int>,
    q: int,
    inside: bool,
)
    requires
        0 <= start <= p <= b.len(),
        field is One ==> start < p,
    ensures
        stands(field, b, p, next, items, q, inside) ==> walk_field(field, b, start, p, inside) == (
        WalkView::Next { pos: q, size: q - p }) && p <= q <= b.len(),
        spoiled(field, b, p, next, q, inside) ==> walk_field(field, b, start, p, inside) is Bad,
{
    lemma_length(b, p, next, q - next);
    if stands(field, b, p, next, items, q, inside) {
        match field {
            Field::Many(part) => {
                lemma_parts(part, b, items, q - next, 0);
            },
            _ => {},
        }
    }
}

proof fn lemma_steps(
    list: Seq<Field>,
    b: Seq<u8>,
    start: int,
    l: Layout,
    k: int,
    size: int,
    inside: bool,
)
    requires
        0 <= start <= l.at[0] <= b.len(),
        laid_out(list, b, l, k, inside),
        list.len() > 0 && list[0] is One ==> start < l.at[0],
        forall|i: int| 0 <= i < list.len() ==> (#[trigger] list[i]) != Field::Skip(0),
    ensures
        k == list.len() ==> walk_fields(list, b, start, l.at[0], size, inside) == (WalkView::Next {
            pos: l.at[k],
            size: size + (l.at[k] - l.at[0]),
        }) && l.at[0] <= l.at[k] <= b.len(),
        k < list.len() && spoiled(list[k], b, l.at[k], l.next[k], l.at[k + 1], inside)
            ==> walk_fields(list, b, start, l.at[0], size, inside) is Bad,
    decreases list.len(),
{
    if list.len() > 0 {
        lemma_stands(
            list[0],
            b,
            start,
            l.at[0],
            l.next[0],
            l.items[0],
            l.at[1],
            inside,
        );
        if k > 0 {
            assert(in_place(list, b, l, 0, inside));
            let rest = Layout { at: l.at.skip(1), next: l.next.skip(1), items: l.items.skip(1) };
            assert forall|i: int| 0 <= i < k - 1 implies #[trigger] in_place(
                list.skip(1),
                b,
                rest,
                i,
                inside,
            ) by {
                assert(in_place(list, b, l, i + 1, inside));
            }
            assert forall|i: int| 0 <= i < list.skip(1).len() implies (#[trigger] list.skip(1)[i])
                != Field::Skip(0) by {
                assert(list.skip(1)[i] == list[i + 1]);
            }
            assert(l.at[1] > l.at[0]) by {
                assert(list[0] != Field::Skip(0));
            }
            lemma_steps(
                list.skip(1),
                b,
                start,
                rest,
                k - 1,
                size + (l.at[1] - l.at[0]),
                inside,
            );
            assert(rest.at[k - 1] == l.at[k]);
        }
    }
}

proof fn lemma_made_of(
    part: Part,
    tag: int,
    list: Seq<Field>,
    b: Seq<u8>,
    start: int,
    l: Layout,
    k: int,
    inside: bool,
)
    requires
        tag >= 0,
        fields(
            part,
            if tag_bytes(part) == 0 {
                0
            } else {
                tag as nat
            },
        ) == Some(list),
        tag_bytes(part) == 0 ==> list.len() == 0 || !(list[0] is One),
        forall|i: int| 0 <= i < list.len() ==> (#[trigger] list[i]) != Field::Skip(0),
    ensures
        made_of(part, tag, list, b, start, l, k, inside),
{
    if tagged(part, tag, b, start, l.at[0]) && l.at[0] <= b.len() && laid_out(
        list,
        b,
        l,
        k,
        inside,
    ) {
        let n = tag_bytes(part);
        assert(l.at[0] == start + n);
        assert(n > 0 ==> tag_at(b, start, n) == tag);
        assert(walk_part(part, b, start, inside) == walk_fields(
            list,
            b,
            start,
            l.at[0],
            n as int,
            inside,
        ));
        lemma_steps(list, b, start, l, k, n as int, inside);
    }
}

/// A message is its version, then its body: a public or a private message, a welcome, the
/// state of a group, or a key package. A public message names its group, its epoch and its
/// sender, and holds what is applied, proposed or committed, with its signatures.
pub proof fn law_messages_of_the_group(b: Seq<u8>, start: int, l: Layout, k: int, inside: bool)
    ensures
        made_of(
            Part::Message,
            0,
            seq![Field::Skip(2), Field::One(Part::Body)],
            b,
            start,
            l,
            k,
            inside,
        ),
        made_of(Part::Body, 1, seq![Field::One(Part::PublicMessage)], b, start, l, k, inside),
        made_of(Part::Body, 2, seq![Field::One(Part::PrivateMessage)], b, start, l, k, inside),
        made_of(Part::Body, 3, seq![Field::One(Part::Welcome)], b, start, l, k, inside),
        made_of(Part::Body, 4, seq![Field::One(Part::GroupInfo)], b, start, l, k, inside),
        made_of(Part::Body, 5, seq![Field::One(Part::KeyPackage)], b, start, l, k, inside),
        made_of(
            Part::PublicMessage,
            0,
            seq![Field::Bytes, Field::Skip(8), Field::One(Part::Sender)],
            b,
            start,
            l,
            k,
            inside,
        ),
        made_of(
            Part::Sender,
            1,
            seq![Field::Skip(4), Field::Bytes, Field::One(Part::Content), Field::Bytes],
            b,
            start,
            l,
            k,
            inside,
        ),
        made_of(
            Part::Sender,
            2,
            seq![Field::Skip(4), Field::Bytes, Field::One(Part::Content)],
            b,
            start,
            l,
            k,
            inside,
        ),
        made_of(
            Part::Sender,
            3,
            seq![Field::Bytes, Field::One(Part::Content)],
            b,
            start,
            l,
            k,
            inside,
        ),
        made_of(
            Part::Sender,
            4,
            seq![Field::Bytes, Field::One(Part::Content)],
            b,
            start,
            l,
            k,
            inside,
        ),
        made_of(Part::Content, 1, seq![Field::Bytes, Field::Bytes], b, start, l, k, inside),
        made_of(
            Part::Content,
            2,
            seq![Field::One(Part::Proposal), Field::Bytes],
            b,
            start,
            l,
            k,
            inside,
        ),
        made_of(
            Part::Content,
            3,
            seq![
                Field::Many(Part::ProposalOrReference),
                Field::One(Part::OptionalPath),
                Field::Bytes,
                Field::Bytes,
            ],
            b,
            start,
            l,
            k,
            inside,
        ),
        made_of(
            Part::PrivateMessage,
            0,
            seq![Field::Bytes, Field::Skip(9), Field::Bytes, Field::Bytes, Field::Bytes],
            b,
            start,
            l,
            k,
            inside,
        ),
{
    lemma_made_of(
        Part::Message,
        0,
        seq![Field::Skip(2), Field::One(Part::Body)],
        b,
        start,
        l,
        k,
        inside,
    );
    lemma_made_of(Part::Body, 1, seq![Field::One(Part::PublicMessage)], b, start, l, k, inside);
    lemma_made_of(Part::Body, 2, seq![Field::One(Part::PrivateMessage)], b, start, l, k, inside);
    lemma_made_of(Part::Body, 3, seq![Field::One(Part::Welcome)], b, start, l, k, inside);
    lemma_made_of(Part::Body, 4, seq![Field::One(Part::GroupInfo)], b, start, l, k, inside);
    lemma_made_of(Part::Body, 5, seq![Field::One(Part::KeyPackage)], b, start, l, k, inside);
    lemma_made_of(
        Part::PublicMessage,
        0,
        seq![Field::Bytes, Field::Skip(8), Field::One(Part::Sender)],
        b,
        start,
        l,
        k,
        inside,
    );
    lemma_made_of(
        Part::Sender,
        1,
        seq![Field::Skip(4), Field::Bytes, Field::One(Part::Content), Field::Bytes],
        b,
        start,
        l,
        k,
        inside,
    );
    lemma_made_of(
        Part::Sender,
        2,
        seq![Field::Skip(4), Field::Bytes, Field::One(Part::Content)],
        b,
        start,
        l,
        k,
        inside,
    );
    lemma_made_of(
        Part::Sender,
        3,
        seq![Field::Bytes, Field::One(Part::Content)],
        b,
        start,
        l,
        k,
        inside,
    );
    lemma_made_of(
        Part::Sender,
        4,
        seq![Field::Bytes, Field::One(Part::Content)],
        b,
        start,
        l,
        k,
        inside,
    );
    lemma_made_of(Part::Content, 1, seq![Field::Bytes, Field::Bytes], b, start, l, k, inside);
    lemma_made_of(
        Part::Content,
        2,
        seq![Field::One(Part::Proposal), Field::Bytes],
        b,
        start,
        l,
        k,
        inside,
    );
    lemma_made_of(
        Part::Content,
        3,
        seq![
            Field::Many(Part::ProposalOrReference),
            Field::One(Part::OptionalPath),
            Field::Bytes,
            Field::Bytes,
        ],
        b,
        start,
        l,
        k,
        inside,
    );
    lemma_made_of(
        Part::PrivateMessage,
        0,
        seq![Field::Bytes, Field::Skip(9), Field::Bytes, Field::Bytes, Field::Bytes],
        b,
        start,
        l,
        k,
        inside,
    );
}

/// What is proposed, by itself or by reference, and the path that a commit may bring: a leaf
/// and, for each node, its key and what is encrypted for others.
pub proof fn law_proposals(b: Seq<u8>, start: int, l: Layout, k: int, inside: bool)
    ensures
        made_of(
            Part::ProposalOrReference,
            1,
            seq![Field::One(Part::Proposal)],
            b,
            start,
            l,
            k,
            inside,
        ),
        made_of(Part::ProposalOrReference, 2, seq![Field::Bytes], b, start, l, k, inside),
        made_of(Part::Proposal, 1, seq![Field::One(Part::KeyPackage)], b, start, l, k, inside),
        made_of(Part::Proposal, 2, seq![Field::One(Part::LeafNode)], b, start, l, k, inside),
        made_of(Part::Proposal, 3, seq![Field::Skip(4)], b, start, l, k, inside),
        made_of(Part::Proposal, 4, seq![Field::One(Part::PreSharedKey)], b, start, l, k, inside),
        made_of(
            Part::Proposal,
            5,
            seq![Field::Bytes, Field::Skip(4), Field::Many(Part::Extension)],
            b,
            start,
            l,
            k,
            inside,
        ),
        made_of(Part::Proposal, 6, seq![Field::Bytes], b, start, l, k, inside),
        made_of(Part::Proposal, 7, seq![Field::Many(Part::Extension)], b, start, l, k, inside),
        made_of(Part::Proposal, 8, seq![Field::Many(Part::MessageRange)], b, start, l, k, inside),
        made_of(Part::PreSharedKey, 1, seq![Field::Bytes, Field::Bytes], b, start, l, k, inside),
        made_of(
            Part::PreSharedKey,
            2,
            seq![Field::Skip(1), Field::Bytes, Field::Skip(8), Field::Bytes],
            b,
            start,
            l,
            k,
            inside,
        ),
        made_of(Part::MessageRange, 0, seq![Field::Bytes, Field::Skip(8)], b, start, l, k, inside),
        made_of(Part::OptionalPath, 0, Seq::<Field>::empty(), b, start, l, k, inside),
        made_of(
            Part::OptionalPath,
            1,
            seq![Field::One(Part::LeafNode), Field::Many(Part::PathNode)],
            b,
            start,
            l,
            k,
            inside,
        ),
        made_of(
            Part::PathNode,
            0,
            seq![Field::Bytes, Field::Many(Part::Ciphertext)],
            b,
            start,
            l,
            k,
            inside,
        ),
{
    lemma_made_of(
        Part::ProposalOrReference,
        1,
        seq![Field::One(Part::Proposal)],
        b,
        start,
        l,
        k,
        inside,
    );
    lemma_made_of(Part::ProposalOrReference, 2, seq![Field::Bytes], b, start, l, k, inside);
    lemma_made_of(Part::Proposal, 1, seq![Field::One(Part::KeyPackage)], b, start, l, k, inside);
    lemma_made_of(Part::Proposal, 2, seq![Field::One(Part::LeafNode)], b, start, l, k, inside);
    lemma_made_of(Part::Proposal, 3, seq![Field::Skip(4)], b, start, l, k, inside);
    lemma_made_of(Part::Proposal, 4, seq![Field::One(Part::PreSharedKey)], b, start, l, k, inside);
    lemma_made_of(
        Part::Proposal,
        5,
        seq![Field::Bytes, Field::Skip(4), Field::Many(Part::Extension)],
        b,
        start,
        l,
        k,
        inside,
    );
    lemma_made_of(Part::Proposal, 6, seq![Field::Bytes], b, start, l, k, inside);
    lemma_made_of(Part::Proposal, 7, seq![Field::Many(Part::Extension)], b, start, l, k, inside);
    lemma_made_of(
        Part::Proposal,
        8,
        seq![Field::Many(Part::MessageRange)],
        b,
        start,
        l,
        k,
        inside,
    );
    lemma_made_of(Part::PreSharedKey, 1, seq![Field::Bytes, Field::Bytes], b, start, l, k, inside);
    lemma_made_of(
        Part::PreSharedKey,
        2,
        seq![Field::Skip(1), Field::Bytes, Field::Skip(8), Field::Bytes],
        b,
        start,
        l,
        k,
        inside,
    );
    lemma_made_of(
        Part::MessageRange,
        0,
        seq![Field::Bytes, Field::Skip(8)],
        b,
        start,
        l,
        k,
        inside,
    );
    lemma_made_of(Part::OptionalPath, 0, Seq::<Field>::empty(), b, start, l, k, inside);
    lemma_made_of(
        Part::OptionalPath,
        1,
        seq![Field::One(Part::LeafNode), Field::Many(Part::PathNode)],
        b,
        start,
        l,
        k,
        inside,
    );
    lemma_made_of(
        Part::PathNode,
        0,
        seq![Field::Bytes, Field::Many(Part::Ciphertext)],
        b,
        start,
        l,
        k,
        inside,
    );
}

/// A welcome is its suite, the secrets for each newcomer, and the state of the group in
/// encrypted form; that state is what the members agree on, its extensions and signature.
pub proof fn law_welcomes(b: Seq<u8>, start: int, l: Layout, k: int, inside: bool)
    ensures
        made_of(
            Part::Welcome,
            0,
            seq![Field::Skip(2), Field::Many(Part::GroupSecrets), Field::Bytes],
            b,
            start,
            l,
            k,
            inside,
        ),
        made_of(
            Part::GroupSecrets,
            0,
            seq![Field::Bytes, Field::One(Part::Ciphertext)],
            b,
            start,
            l,
            k,
            inside,
        ),
        made_of(Part::Ciphertext, 0, seq![Field::Bytes, Field::Bytes], b, start, l, k, inside),
        made_of(
            Part::GroupInfo,
            0,
            seq![
                Field::Skip(4),
                Field::Bytes,
                Field::Skip(8),
                Field::Bytes,
                Field::Bytes,
                Field::Many(Part::Extension),
                Field::Many(Part::Extension),
                Field::Bytes,
                Field::Skip(4),
                Field::Bytes,
            ],
            b,
            start,
            l,
            k,
            inside,
        ),
{
    lemma_made_of(
        Part::Welcome,
        0,
        seq![Field::Skip(2), Field::Many(Part::GroupSecrets), Field::Bytes],
        b,
        start,
        l,
        k,
        inside,
    );
    lemma_made_of(
        Part::GroupSecrets,
        0,
        seq![Field::Bytes, Field::One(Part::Ciphertext)],
        b,
        start,
        l,
        k,
        inside,
    );
    lemma_made_of(Part::Ciphertext, 0, seq![Field::Bytes, Field::Bytes], b, start, l, k, inside);
    lemma_made_of(
        Part::GroupInfo,
        0,
        seq![
            Field::Skip(4),
            Field::Bytes,
            Field::Skip(8),
            Field::Bytes,
            Field::Bytes,
            Field::Many(Part::Extension),
            Field::Many(Part::Extension),
            Field::Bytes,
            Field::Skip(4),
            Field::Bytes,
        ],
        b,
        start,
        l,
        k,
        inside,
    );
}

/// A key package holds the leaf of a member: its keys, its credential, what its client can do
/// and where the leaf comes from. The tree of a group is made of such leaves and of the nodes
/// above them.
pub proof fn law_members(b: Seq<u8>, start: int, l: Layout, k: int, inside: bool)
    ensures
        made_of(
            Part::KeyPackage,
            0,
            seq![
                Field::Skip(4),
                Field::Bytes,
                Field::One(Part::LeafNode),
                Field::Many(Part::Extension),
                Field::Bytes,
            ],
            b,
            start,
            l,
            k,
            inside,
        ),
        made_of(
            Part::LeafNode,
            0,
            seq![
                Field::Bytes,
                Field::Bytes,
                Field::Skip(2),
                Field::Bytes,
                Field::Many(Part::Number16),
                Field::Many(Part::Number16),
                Field::Many(Part::Number16),
                Field::Many(Part::Number16),
                Field::Many(Part::Number16),
                Field::One(Part::LeafSource),
                Field::Many(Part::Extension),
                Field::Bytes,
            ],
            b,
            start,
            l,
            k,
            inside,
        ),
        made_of(Part::LeafSource, 1, seq![Field::Skip(16)], b, start, l, k, inside),
        made_of(Part::LeafSource, 2, Seq::<Field>::empty(), b, start, l, k, inside),
        made_of(Part::LeafSource, 3, seq![Field::Bytes], b, start, l, k, inside),
        made_of(
            Part::RatchetTree,
            0,
            seq![Field::Many(Part::OptionalNode)],
            b,
            start,
            l,
            k,
            inside,
        ),
        made_of(Part::OptionalNode, 0, Seq::<Field>::empty(), b, start, l, k, inside),
        made_of(Part::OptionalNode, 1, seq![Field::One(Part::Node)], b, start, l, k, inside),
        made_of(Part::Node, 1, seq![Field::One(Part::LeafNode)], b, start, l, k, inside),
        made_of(
            Part::Node,
            2,
            seq![Field::Bytes, Field::Bytes, Field::Many(Part::Number32)],
            b,
            start,
            l,
            k,
            inside,
        ),
        made_of(Part::Number16, 0, seq![Field::Skip(2)], b, start, l, k, inside),
        made_of(Part::Number32, 0, seq![Field::Skip(4)], b, start, l, k, inside),
{
    lemma_made_of(
        Part::KeyPackage,
        0,
        seq![
            Field::Skip(4),
            Field::Bytes,
            Field::One(Part::LeafNode),
            Field::Many(Part::Extension),
            Field::Bytes,
        ],
        b,
        start,
        l,
        k,
        inside,
    );
    lemma_made_of(
        Part::LeafNode,
        0,
        seq![
            Field::Bytes,
            Field::Bytes,
            Field::Skip(2),
            Field::Bytes,
            Field::Many(Part::Number16),
            Field::Many(Part::Number16),
            Field::Many(Part::Number16),
            Field::Many(Part::Number16),
            Field::Many(Part::Number16),
            Field::One(Part::LeafSource),
            Field::Many(Part::Extension),
            Field::Bytes,
        ],
        b,
        start,
        l,
        k,
        inside,
    );
    lemma_made_of(Part::LeafSource, 1, seq![Field::Skip(16)], b, start, l, k, inside);
    lemma_made_of(Part::LeafSource, 2, Seq::<Field>::empty(), b, start, l, k, inside);
    lemma_made_of(Part::LeafSource, 3, seq![Field::Bytes], b, start, l, k, inside);
    lemma_made_of(
        Part::RatchetTree,
        0,
        seq![Field::Many(Part::OptionalNode)],
        b,
        start,
        l,
        k,
        inside,
    );
    lemma_made_of(Part::OptionalNode, 0, Seq::<Field>::empty(), b, start, l, k, inside);
    lemma_made_of(Part::OptionalNode, 1, seq![Field::One(Part::Node)], b, start, l, k, inside);
    lemma_made_of(Part::Node, 1, seq![Field::One(Part::LeafNode)], b, start, l, k, inside);
    lemma_made_of(
        Part::Node,
        2,
        seq![Field::Bytes, Field::Bytes, Field::Many(Part::Number32)],
        b,
        start,
        l,
        k,
        inside,
    );
    lemma_made_of(Part::Number16, 0, seq![Field::Skip(2)], b, start, l, k, inside);
    lemma_made_of(Part::Number32, 0, seq![Field::Skip(4)], b, start, l, k, inside);
}

/// An extension is its kind and a content, which is read where the kind is known: an
/// application's id, a tree, what is required, an outside key, or the senders outside the group.
pub proof fn law_extensions(b: Seq<u8>, start: int, l: Layout, k: int, inside: bool)
    ensures
        made_of(Part::Extension, 1, seq![Field::Inside(Part::Vector)], b, start, l, k, inside),
        made_of(
            Part::Extension,
            2,
            seq![Field::Inside(Part::RatchetTree)],
            b,
            start,
            l,
            k,
            inside,
        ),
        made_of(
            Part::Extension,
            3,
            seq![Field::Inside(Part::RequiredCapabilities)],
            b,
            start,
            l,
            k,
            inside,
        ),
        made_of(Part::Extension, 4, seq![Field::Inside(Part::Vector)], b, start, l, k, inside),
        made_of(
            Part::Extension,
            5,
            seq![Field::Inside(Part::ExternalSenders)],
            b,
            start,
            l,
            k,
            inside,
        ),
        made_of(Part::Extension, 6, seq![Field::Data], b, start, l, k, inside),
        made_of(Part::Extension, 10, seq![Field::Inside(Part::Nothing)], b, start, l, k, inside),
        made_of(
            Part::RequiredCapabilities,
            0,
            seq![
                Field::Many(Part::Number16),
                Field::Many(Part::Number16),
                Field::Many(Part::Number16),
            ],
            b,
            start,
            l,
            k,
            inside,
        ),
        made_of(
            Part::ExternalSenders,
            0,
            seq![Field::Many(Part::ExternalSender)],
            b,
            start,
            l,
            k,
            inside,
        ),
        made_of(
            Part::ExternalSender,
            0,
            seq![Field::Bytes, Field::Skip(2), Field::Bytes],
            b,
            start,
            l,
            k,
            inside,
        ),
        made_of(Part::Vector, 0, seq![Field::Bytes], b, start, l, k, inside),
{
    lemma_made_of(Part::Extension, 1, seq![Field::Inside(Part::Vector)], b, start, l, k, inside);
    lemma_made_of(
        Part::Extension,
        2,
        seq![Field::Inside(Part::RatchetTree)],
        b,
        start,
        l,
        k,
        inside,
    );
    lemma_made_of(
        Part::Extension,
        3,
        seq![Field::Inside(Part::RequiredCapabilities)],
        b,
        start,
        l,
        k,
        inside,
    );
    lemma_made_of(Part::Extension, 4, seq![Field::Inside(Part::Vector)], b, start, l, k, inside);
    lemma_made_of(
        Part::Extension,
        5,
        seq![Field::Inside(Part::ExternalSenders)],
        b,
        start,
        l,
        k,
        inside,
    );
    lemma_made_of(Part::Extension, 6, seq![Field::Data], b, start, l, k, inside);
    lemma_made_of(Part::Extension, 10, seq![Field::Inside(Part::Nothing)], b, start, l, k, inside);
    lemma_made_of(
        Part::RequiredCapabilities,
        0,
        seq![
            Field::Many(Part::Number16),
            Field::Many(Part::Number16),
            Field::Many(Part::Number16),
        ],
        b,
        start,
        l,
        k,
        inside,
    );
    lemma_made_of(
        Part::ExternalSenders,
        0,
        seq![Field::Many(Part::ExternalSender)],
        b,
        start,
        l,
        k,
        inside,
    );
    lemma_made_of(
        Part::ExternalSender,
        0,
        seq![Field::Bytes, Field::Skip(2), Field::Bytes],
        b,
        start,
        l,
        k,
        inside,
    );
    lemma_made_of(Part::Vector, 0, seq![Field::Bytes], b, start, l, k, inside);
}

/// A kind that is not known ends the reading, and spoils nothing; a kind of an extension, or of a
/// proposal, that is not known is a content that is left as it is.
pub proof fn law_unknown_kinds(
    part: Part,
    tag: int,
    b: Seq<u8>,
    start: int,
    l: Layout,
    k: int,
    inside: bool,
)
    requires
        tagged(part, tag, b, start, l.at[0]),
    ensures
        match part {
            Part::Body => !(1 <= tag <= 5),
            Part::Sender => !(1 <= tag <= 4),
            Part::Content | Part::LeafSource => !(1 <= tag <= 3),
            Part::ProposalOrReference | Part::PreSharedKey | Part::Node => tag != 1 && tag != 2,
            Part::OptionalPath | Part::OptionalNode => tag != 0 && tag != 1,
            _ => false,
        } ==> walk_part(part, b, start, inside) is Stop,
        part == Part::Extension && tag != 1 && tag != 2 && tag != 3 && tag != 4 && tag != 5 && tag
            != 10 ==> made_of(part, tag, seq![Field::Data], b, start, l, k, inside),
        part == Part::Proposal && !(1 <= tag <= 5) && tag != 7 && tag != 8 ==> made_of(
            part,
            tag,
            seq![Field::Bytes],
            b,
            start,
            l,
            k,
            inside,
        ),
{
    let n = tag_bytes(part);
    assert(n > 0 ==> tag_at(b, start, n) == tag);
    if part == Part::Extension && tag != 1 && tag != 2 && tag != 3 && tag != 4 && tag != 5 && tag
        != 10 {
        lemma_made_of(part, tag, seq![Field::Data], b, start, l, k, inside);
    }
    if part == Part::Proposal && !(1 <= tag <= 5) && tag != 7 && tag != 8 {
        lemma_made_of(part, tag, seq![Field::Bytes], b, start, l, k, inside);
    }
}

/// Bytes can be read as a part unless something in them spoils it: what stands from the first
/// byte on is fine, whatever is behind it.
pub proof fn law_what_can_be_read(part: Part, b: &[u8], q: int, r: bool)
    requires
        call_ensures(is_readable, (part, b), r),
    ensures
        is_part(part, b@, 0, q, false) ==> r,
        walk_part(part, b@, 0, false) is Bad <==> !r,
        walk_part(part, b@, 0, false) is Stop ==> r,
{
}

} // verus!
