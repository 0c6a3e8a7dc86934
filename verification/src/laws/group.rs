//! The group handshake: what is handed to the group, and what comes of it.

use openmls::prelude::MlsGroup;
use vstd::prelude::*;

use crate::bytes::be64;
use crate::dave::error::DaveError;
use crate::dave::mls::{
    commit_result, followed, group_epoch, group_exports, is_external_sender,
    is_protocol_message, is_welcome, Followed, MlsSession, Processed,
};
use crate::dave::wire::{
    is_readable, length_at, walk_field, walk_fields, walk_part, Field, LengthView, Part,
    WalkView,
};
use crate::laws::frames::number64;
use crate::voice::keys::MediaKeys;
use crate::voice::session::{Step, VoiceSession};

verus! {

/// A key package is of the first version and the suite with P-256, carries the user's id, most
/// significant byte first, and a lifetime from zero to the end of time, and says that the
/// client knows that version, that suite and plain credentials only.
pub proof fn law_key_packages(session: &MlsSession, r: Result<Vec<u8>, DaveError>)
    requires
        session.wf(),
        call_ensures(MlsSession::key_package_bytes, (session,), r),
    ensures
        r is Ok ==> {
            let b = r->Ok_0@;
            &&& b.len() >= 4
            &&& b[0] == 0 && b[1] == 1 && b[2] == 0 && b[3] == 2
            &&& exists|i: int|
                0 <= i && i + 8 <= b.len() && number64(#[trigger] b.subrange(i, i + 8), 0)
                    == session.user()
            &&& exists|i: int|
                0 <= i && i + 16 <= b.len() && spans_all_time(#[trigger] b.subrange(i, i + 16))
            &&& exists|i: int|
                0 <= i && i + 11 <= b.len() && #[trigger] b.subrange(i, i + 11) == seq![
                    2u8,
                    0u8,
                    1u8,
                    2u8,
                    0u8,
                    2u8,
                    0u8,
                    0u8,
                    2u8,
                    0u8,
                    1u8,
                ]
        },
        r is Err ==> r->Err_0 == DaveError::KeyPackage,
{
    if r is Ok {
        let b = r->Ok_0@;
        let front = b.take(4);
        assert(front[0] == b[0] && front[1] == b[1] && front[2] == b[2] && front[3] == b[3]);
        assert(front == crate::bytes::be16(1) + crate::bytes::be16(2));
        let id = be64(session.user());
        crate::laws::frames::law_numbers_as_bytes(0, session.user());
        let i = choose|i: int|
            0 <= i && i + id.len() <= b.len() && id == #[trigger] b.subrange(i, i + id.len());
        assert(number64(b.subrange(i, i + 8), 0) == session.user());
        let life = be64(0) + be64(u64::MAX);
        lemma_all_time();
        let j = choose|j: int|
            0 <= j && j + life.len() <= b.len() && life == #[trigger] b.subrange(
                j,
                j + life.len(),
            );
        assert(spans_all_time(b.subrange(j, j + 16)));
        let can = crate::dave::mls::capability_bytes(1, 2, 1);
        assert(can =~= seq![2u8, 0u8, 1u8, 2u8, 0u8, 2u8, 0u8, 0u8, 2u8, 0u8, 1u8]);
        let k = choose|k: int|
            0 <= k && k + can.len() <= b.len() && can == #[trigger] b.subrange(k, k + can.len());
        assert(b.subrange(k, k + 11) == can);
    }
}

/// The sixteen bytes of a lifetime from zero to the largest time.
pub open spec fn spans_all_time(s: Seq<u8>) -> bool {
    &&& s.len() == 16
    &&& forall|i: int| 0 <= i < 8 ==> #[trigger] s[i] == 0
    &&& forall|i: int| 8 <= i < 16 ==> #[trigger] s[i] == 255
}

proof fn lemma_all_time()
    ensures
        spans_all_time(be64(0) + be64(u64::MAX)),
{
    reveal(crate::bytes::be32);
    let s = be64(0) + be64(u64::MAX);
    assert(be64(0).len() == 8 && be64(u64::MAX).len() == 8);
    assert forall|i: int| 0 <= i < 8 implies #[trigger] s[i] == 0 by {
        assert(s[i] == be64(0)[i]);
    }
    assert forall|i: int| 8 <= i < 16 implies #[trigger] s[i] == 255 by {
        assert(s[i] == be64(u64::MAX)[i - 8]);
    }
}

/// A session that has just been made is its user's, is in no group and knows no secrets.
pub proof fn law_new_sessions(user: u64, r: Result<MlsSession, DaveError>, inside: bool, epoch: u64)
    requires
        call_ensures(MlsSession::new, (user,), r),
        r is Ok ==> call_ensures(MlsSession::has_group, (&r->Ok_0,), inside) && call_ensures(
            MlsSession::epoch,
            (&r->Ok_0,),
            epoch,
        ),
    ensures
        r is Ok,
        r->Ok_0.user() == user,
        !inside,
        forall|id: u64| (#[trigger] r->Ok_0.media_secret(id)) is None,
{
}

/// Joining a group makes its epoch and its secrets the session's; where there is none to join,
/// the session stays as it was.
pub proof fn law_joining(
    s: &mut MlsSession,
    group: MlsGroup,
    r: Result<(), DaveError>,
    t: &mut MlsSession,
    q: Result<(), DaveError>,
)
    requires
        old(s).wf(),
        old(t).wf(),
        call_ensures(MlsSession::adopt, (s, Some(group)), r),
        call_ensures(MlsSession::adopt, (t, None), q),
    ensures
        r is Ok,
        final(s).in_group(),
        final(s).epoch_number() == group_epoch(group),
        final(s).exports() == group_exports(group),
        final(s).user() == old(s).user(),
        q == Err::<(), DaveError>(DaveError::WelcomeRefused),
        final(t).in_group() == old(t).in_group(),
        final(t).exports() == old(t).exports(),
        final(t).epoch_number() == old(t).epoch_number(),
{
}

/// The welcome in a payload is what stands behind the two bytes of its number: where that is no
/// welcome it is refused as malformed, and only there.
pub proof fn law_welcome_payloads(
    s: &mut MlsSession,
    payload: &[u8],
    r: Result<(), DaveError>,
    number: Seq<u8>,
    welcome: Seq<u8>,
)
    requires
        old(s).wf(),
        call_ensures(MlsSession::process_welcome, (s, payload), r),
    ensures
        payload@.len() < 2 <==> r == Err::<(), DaveError>(DaveError::WelcomeTooShort),
        number.len() == 2 && payload@ == number + welcome ==> (!is_welcome(welcome) <==> r == Err::<
            (),
            DaveError,
        >(DaveError::WelcomeMalformed)),
        r is Ok ==> final(s).in_group(),
        r is Err ==> final(s).in_group() == old(s).in_group() && final(s).exports()
            == old(s).exports() && final(s).epoch_number() == old(s).epoch_number(),
{
    if number.len() == 2 && payload@ == number + welcome {
        assert(payload@.skip(2) =~= welcome);
    }
}

/// A commit that was followed brings the next epoch; one that was not leaves the secrets, unless
/// the merging itself failed. Without a group none is followed.
pub proof fn law_commits(s: &mut MlsSession, message: &[u8], r: Result<(), DaveError>)
    requires
        old(s).wf(),
        call_ensures(MlsSession::process_commit, (s, message), r),
    ensures
        !old(s).in_group() <==> r == Err::<(), DaveError>(DaveError::NoGroup),
        old(s).in_group() && !is_protocol_message(message@) <==> r == Err::<(), DaveError>(
            DaveError::CommitMalformed,
        ),
        r is Ok ==> final(s).epoch_number() == old(s).epoch_number() + 1,
        r == Err::<(), DaveError>(DaveError::CommitRefused) || r == Err::<(), DaveError>(
            DaveError::NotACommit,
        ) ==> final(s).exports() == old(s).exports() && final(s).epoch_number()
            == old(s).epoch_number(),
        final(s).in_group() == old(s).in_group(),
        final(s).user() == old(s).user(),
{
}

/// What became of a message decides the answer: only a commit that was merged is a success,
/// and each failure has its own name.
pub proof fn law_outcomes(processed: Processed, merged: bool, f: Followed, r: Result<(), DaveError>)
    requires
        call_ensures(followed, (processed, merged), f),
        call_ensures(commit_result, (f,), r),
    ensures
        r is Ok <==> processed == Processed::Commit && merged,
        r == Err::<(), DaveError>(DaveError::CommitRefused) <==> processed == Processed::Refused,
        r == Err::<(), DaveError>(DaveError::NotACommit) <==> processed == Processed::NotACommit,
        r == Err::<(), DaveError>(DaveError::CommitMerge) <==> processed == Processed::Commit
            && !merged,
{
}

/// The external sender of a binary message is what stands behind its three bytes, and is kept
/// by the group where it is one.
pub proof fn law_external_senders(
    s: &mut VoiceSession,
    keys: &mut MediaKeys,
    message: &[u8],
    r: Step,
    front: Seq<u8>,
    sender: Seq<u8>,
)
    requires
        old(s).wf(),
        old(s).group() is Some,
        call_ensures(VoiceSession::on_binary, (s, keys, message), r),
        front.len() == 3,
        front[2] == 25,
        message@ == front + sender,
    ensures
        final(s).group() is Some,
        final(s).group()->Some_0.knows_sender() <==> old(s).group()->Some_0.knows_sender()
            || is_external_sender(sender),
        final(s).group()->Some_0.exports() == old(s).group()->Some_0.exports(),
        final(keys)@ == old(keys)@,
{
    assert(message@.skip(3) =~= sender);
    assert(message@[2] == front[2]);
}

/// What a binary message hands to the group is what stands behind its three bytes and the two
/// of the number: keys are installed, or a commit awaited, only where that is a welcome, or a
/// message of the group protocol.
pub proof fn law_what_the_group_is_handed(
    s: &mut VoiceSession,
    keys: &mut MediaKeys,
    message: &[u8],
    r: Step,
    front: Seq<u8>,
    rest: Seq<u8>,
)
    requires
        old(s).wf(),
        call_ensures(VoiceSession::on_binary, (s, keys, message), r),
        front.len() == 5,
        message@ == front + rest,
    ensures
        front[2] == 30 && r.actions@.len() > 0 ==> is_welcome(rest) && old(s).group() is Some
            && final(s).group() is Some && final(s).group()->Some_0.in_group() && final(keys)@
            == old(keys)@.installed(final(s).group()->Some_0, old(s)@.speakers),
        front[2] == 29 && r.actions@.len() > 0 ==> is_protocol_message(rest) && old(
            s).group() is Some && final(s).group() is Some && final(
            s).group()->Some_0.epoch_number() == old(s).group()->Some_0.epoch_number() + 1,
        front[2] == 30 && !is_welcome(rest) ==> r.actions@.len() == 0 && final(keys)@
            == old(keys)@,
        front[2] == 29 && !is_protocol_message(rest) ==> r.actions@.len() == 0 && final(keys)@
            == old(keys)@,
        front[2] != 25 && front[2] != 29 && front[2] != 30 ==> final(s).group() == old(s).group()
            && final(keys)@ == old(keys)@ && r.actions@.len() == 0,
{
    let payload = message@.skip(3);
    assert(message@[2] == front[2]);
    assert(payload.skip(2) =~= rest);
    assert(r@.actions.len() == r.actions@.len());
}

/// A length of the class that is not in use, wherever it would be read in an external sender,
/// makes it unreadable; where both lengths are short it can be read.
pub proof fn law_lengths_of_external_senders(b: &[u8], r: bool)
    requires
        call_ensures(is_readable, (Part::ExternalSender, b), r),
    ensures
        b@.len() > 0 && b@[0] >= 192 ==> !r,
        b@.len() > 0 && b@[0] < 64 && b@.len() > b@[0] + 3 && b@[b@[0] + 3] >= 192 ==> !r,
        b@.len() > 0 && b@[0] < 64 && b@.len() > b@[0] + 3 && b@[b@[0] + 3] < 64 ==> r,
        b@.len() == 0 ==> r,
{
    let s = b@;
    let list = seq![Field::Bytes, Field::Skip(2), Field::Bytes];
    assert(walk_part(Part::ExternalSender, s, 0, false) == walk_fields(list, s, 0, 0, 0, false));
    let one = list.skip(1);
    let two = one.skip(1);
    let three = two.skip(1);
    assert(one =~= seq![Field::Skip(2), Field::Bytes]);
    assert(two =~= seq![Field::Bytes]);
    assert(three =~= Seq::<Field>::empty());
    reveal_with_fuel(walk_fields, 4);
    if s.len() > 0 && s[0] < 64 {
        let n = s[0] as int;
        assert(length_at(s, 0) == (LengthView::Found { value: n, next: 1 }));
        if s.len() > n + 3 {
            assert(walk_field(Field::Bytes, s, 0, 0, false) == (WalkView::Next {
                pos: n + 1,
                size: crate::dave::wire::vector_size(n),
            }));
            assert(walk_field(Field::Skip(2), s, 0, n + 1, false) == (WalkView::Next {
                pos: n + 3,
                size: 2,
            }));
        }
    }
}

/// An external sender is kept where the bytes are one, and is otherwise refused; either way the
/// session stays in the group it is in, with its secrets.
pub proof fn law_keeping_external_senders(
    s: &mut MlsSession,
    bytes: &[u8],
    r: Result<(), DaveError>,
)
    requires
        old(s).wf(),
        call_ensures(MlsSession::set_external_sender, (s, bytes), r),
    ensures
        is_external_sender(bytes@) ==> r is Ok && final(s).knows_sender(),
        !is_external_sender(bytes@) ==> r == Err::<(), DaveError>(DaveError::ExternalSender)
            && final(s).knows_sender() == old(s).knows_sender(),
        final(s).user() == old(s).user(),
        final(s).in_group() == old(s).in_group(),
        final(s).exports() == old(s).exports(),
        final(s).epoch_number() == old(s).epoch_number(),
{
}

} // verus!
