//! The buffer that puts the packets of one sender back in order. It holds a cushion of a
//! few frames, tells silence from loss, and says how each lost frame is to be made up.

use std::collections::HashMap;

use vstd::prelude::*;

verus! {

broadcast use vstd::std_specs::hash::group_hash_axioms;

/// The frames that are held before any is played: about 60 ms.
pub const DEPTH: usize = 3;

/// How far ahead of the next frame a packet may be. A larger gap starts over.
pub const MAX_GAP: u16 = 24;

/// How far the sequence number `a` is ahead of `b`, from 0 to 65535.
pub open spec fn ahead(a: u16, b: u16) -> int {
    (a - b) % 0x1_0000
}

/// How far the sequence number `a` is ahead of `b`, negative where it is behind.
pub open spec fn signed_ahead(a: u16, b: u16) -> int {
    if ahead(a, b) < 0x8000 {
        ahead(a, b)
    } else {
        ahead(a, b) - 0x1_0000
    }
}

/// The sequence number after `n`.
pub open spec fn after(n: u16) -> u16 {
    ((n + 1) % 0x1_0000) as u16
}

/// How far the sequence number `a` is ahead of `b`, negative where it is behind. Numbers
/// that wrapped in between compare as they should.
pub fn seq_diff(a: u16, b: u16) -> (r: i16)
    ensures
        r == signed_ahead(a, b),
{
    let d: u16 = a.wrapping_sub(b);
    if d < 0x8000 {
        d as i16
    } else {
        -1 - (0xffff - d) as i16
    }
}

/// The next thing to play.
pub enum Play {
    /// Decode this packet.
    Audio(Vec<u8>),
    /// The sender was silent: play nothing and make nothing up.
    Silence,
    /// The packet was lost: reconstruct it from this one, the packet after it.
    Recover(Vec<u8>),
    /// The packet was lost and so was the one after it: conceal the loss.
    Conceal,
}

/// The next thing to play, in contracts.
pub enum PlayView {
    Audio(Seq<u8>),
    Silence,
    Recover(Seq<u8>),
    Conceal,
}

impl View for Play {
    type V = PlayView;

    open spec fn view(&self) -> PlayView {
        match *self {
            Play::Audio(opus) => PlayView::Audio(opus@),
            Play::Silence => PlayView::Silence,
            Play::Recover(opus) => PlayView::Recover(opus@),
            Play::Conceal => PlayView::Conceal,
        }
    }
}

/// What is buffered, by sequence number: an Opus packet, or none where the sender was
/// silent; and the number that is to be played next.
pub struct JitterView {
    pub frames: Map<u16, Option<Seq<u8>>>,
    pub next: Option<u16>,
}

impl JitterView {
    /// Whatever is buffered is due next or within the largest gap after that.
    pub open spec fn wf(self) -> bool {
        &&& self.frames.dom().finite()
        &&& match self.next {
            None => self.frames == Map::<u16, Option<Seq<u8>>>::empty(),
            Some(n) => forall|k: u16| #[trigger]
                self.frames.contains_key(k) ==> ahead(k, n) <= MAX_GAP,
        }
    }

    /// The buffer after a packet, or silence, with a sequence number came in. The first
    /// one says where to start; one that is late is dropped; one beyond the largest gap
    /// starts over.
    pub open spec fn with(self, seq: u16, frame: Option<Seq<u8>>) -> JitterView {
        match self.next {
            Some(n) if signed_ahead(seq, n) < 0 => self,
            Some(n) if signed_ahead(seq, n) <= MAX_GAP => JitterView {
                frames: self.frames.insert(seq, frame),
                next: self.next,
            },
            _ => JitterView {
                frames: Map::<u16, Option<Seq<u8>>>::empty().insert(seq, frame),
                next: Some(seq),
            },
        }
    }

    /// What is to be played now; nothing until the cushion is full.
    pub open spec fn due(self) -> Option<PlayView> {
        match self.next {
            None => None,
            Some(n) => if self.frames.len() < DEPTH {
                None
            } else if self.frames.contains_key(n) {
                Some(
                    match self.frames[n] {
                        Some(opus) => PlayView::Audio(opus),
                        None => PlayView::Silence,
                    },
                )
            } else if self.frames.contains_key(after(n)) && self.frames[after(n)] is Some {
                Some(PlayView::Recover(self.frames[after(n)]->Some_0))
            } else {
                Some(PlayView::Conceal)
            },
        }
    }

    /// The buffer once the frame that is due was played.
    pub open spec fn advanced(self) -> JitterView {
        match self.next {
            None => self,
            Some(n) => JitterView { frames: self.frames.remove(n), next: Some(after(n)) },
        }
    }

    /// The buffer once `n` frames were played.
    pub open spec fn advanced_by(self, n: nat) -> JitterView
        decreases n,
    {
        if n == 0 {
            self
        } else {
            self.advanced().advanced_by((n - 1) as nat)
        }
    }

    /// All that is to be played now, up to `n` frames.
    pub open spec fn all_due(self, n: nat) -> Seq<PlayView>
        decreases n,
    {
        match self.due() {
            Some(play) if n > 0 => seq![play] + self.advanced().all_due((n - 1) as nat),
            _ => Seq::empty(),
        }
    }

    /// The buffer once up to `n` frames that are due were played.
    pub open spec fn settled(self, n: nat) -> JitterView
        decreases n,
    {
        if n > 0 && self.due() is Some {
            self.advanced().settled((n - 1) as nat)
        } else {
            self
        }
    }
}

/// The frames come out in the order of their sequence numbers: what is played is the frame
/// with the number that is next, and the number after it is then next.
pub proof fn lemma_plays_in_order(v: JitterView)
    requires
        v.wf(),
        v.due() is Some,
    ensures
        v.next is Some,
        v.advanced().next == Some(after(v.next->Some_0)),
        v.frames.contains_key(v.next->Some_0) ==> v.due() == Some(
            match v.frames[v.next->Some_0] {
                Some(opus) => PlayView::Audio(opus),
                None => PlayView::Silence,
            },
        ),
        !v.advanced().frames.contains_key(v.next->Some_0),
        v.advanced().wf(),
{
    let n = v.next->Some_0;
    assert forall|k: u16| #[trigger] v.advanced().frames.contains_key(k) implies ahead(k, after(n))
        <= MAX_GAP by {
        assert(v.frames.contains_key(k));
    }
}

/// What came in is played in its turn, as it came in: once as many frames were played as it
/// was ahead, it is next and still there.
pub proof fn lemma_played_in_turn(v: JitterView, k: u16)
    requires
        v.wf(),
        v.frames.contains_key(k),
    ensures
        ({
            let w = v.advanced_by(ahead(k, v.next->Some_0) as nat);
            &&& w.next == Some(k)
            &&& w.frames.contains_key(k)
            &&& w.frames[k] == v.frames[k]
        }),
    decreases ahead(k, v.next->Some_0),
{
    let n = v.next->Some_0;
    if ahead(k, n) > 0 {
        assert(k != n);
        assert(ahead(k, after(n)) == ahead(k, n) - 1);
        let w = v.advanced();
        assert forall|j: u16| #[trigger] w.frames.contains_key(j) implies ahead(j, after(n))
            <= MAX_GAP by {
            assert(v.frames.contains_key(j) && j != n);
        }
        lemma_played_in_turn(w, k);
    }
}

/// Silence that the sender announced is never made up for: a frame is recovered or
/// concealed only where neither a packet nor silence came in for it.
pub proof fn lemma_silence_is_not_concealed(v: JitterView)
    requires
        v.wf(),
        v.due() == Some(PlayView::Conceal) || v.due() is Some && v.due()->Some_0 is Recover,
    ensures
        !v.frames.contains_key(v.next->Some_0),
{
}

spec fn within(n: u16, m: nat) -> Set<u16> {
    Set::new(|k: u16| ahead(k, n) < m)
}

proof fn lemma_within(n: u16, m: nat)
    requires
        m <= 0x1_0000,
    ensures
        within(n, m).finite(),
        within(n, m).len() == m,
    decreases m,
{
    if m == 0 {
        assert(within(n, 0) =~= Set::<u16>::empty());
    } else {
        let p = (m - 1) as nat;
        lemma_within(n, p);
        let k = ((n + p) % 0x1_0000) as u16;
        assert(ahead(k, n) == p);
        assert forall|j: u16| ahead(j, n) == p implies j == k by {}
        assert(within(n, m) =~= within(n, p).insert(k));
    }
}

/// However the packets arrive, no more are held than the largest gap has room for.
pub proof fn lemma_buffer_is_bounded(v: JitterView)
    requires
        v.wf(),
    ensures
        v.frames.len() <= MAX_GAP + 1,
{
    match v.next {
        Some(n) => {
            lemma_within(n, (MAX_GAP + 1) as nat);
            assert(v.frames.dom().subset_of(within(n, (MAX_GAP + 1) as nat)));
            vstd::set_lib::lemma_len_subset(v.frames.dom(), within(n, (MAX_GAP + 1) as nat));
        },
        None => {
            assert(v.frames.dom() =~= Set::<u16>::empty());
        },
    }
}

/// Packets that arrive out of order, within the largest gap, leave the same buffer as in
/// order.
pub proof fn lemma_order_of_arrival(
    v: JitterView,
    a: u16,
    fa: Option<Seq<u8>>,
    b: u16,
    fb: Option<Seq<u8>>,
)
    requires
        v.wf(),
        v.next is Some,
        0 <= signed_ahead(a, v.next->Some_0) <= MAX_GAP,
        0 <= signed_ahead(b, v.next->Some_0) <= MAX_GAP,
        a != b,
    ensures
        v.with(a, fa).with(b, fb) == v.with(b, fb).with(a, fa),
{
    assert(v.frames.insert(a, fa).insert(b, fb) =~= v.frames.insert(b, fb).insert(a, fa));
}

/// The packets of one sender on their way to the decoder.
pub struct JitterBuffer {
    frames: HashMap<u16, Option<Vec<u8>>>,
    next: Option<u16>,
}

spec fn frame_view(frame: Option<Vec<u8>>) -> Option<Seq<u8>> {
    match frame {
        Some(opus) => Some(opus@),
        None => None,
    }
}

impl View for JitterBuffer {
    type V = JitterView;

    closed spec fn view(&self) -> JitterView {
        JitterView {
            frames: self.frames@.map_values(|f: Option<Vec<u8>>| frame_view(f)),
            next: self.next,
        }
    }
}

impl JitterBuffer {
    /// An empty buffer.
    pub fn new() -> (r: JitterBuffer)
        ensures
            r@.wf(),
            r@ == (JitterView { frames: Map::empty(), next: None }),
    {
        let r = JitterBuffer { frames: HashMap::new(), next: None };
        assert(r@.frames =~= Map::<u16, Option<Seq<u8>>>::empty());
        r
    }

    fn insert(&mut self, seq: u16, frame: Option<Vec<u8>>)
        requires
            old(self)@.wf(),
        ensures
            final(self)@.wf(),
            final(self)@ == old(self)@.with(seq, frame_view(frame)),
    {
        let ghost f = frame_view(frame);
        match self.next {
            Some(n) => {
                let d: i16 = seq_diff(seq, n);
                if d < 0 {
                    return;
                }
                if d > MAX_GAP as i16 {
                    self.frames.clear();
                    self.next = Some(seq);
                    assert(self@.frames =~= Map::<u16, Option<Seq<u8>>>::empty());
                }
            },
            None => {
                self.next = Some(seq);
            },
        }
        let ghost before = self@.frames;
        self.frames.insert(seq, frame);
        assert(self@.frames =~= before.insert(seq, f));
    }

    /// Takes in a packet.
    pub fn push(&mut self, seq: u16, opus: Vec<u8>)
        requires
            old(self)@.wf(),
        ensures
            final(self)@.wf(),
            final(self)@ == old(self)@.with(seq, Some(opus@)),
    {
        self.insert(seq, Some(opus));
    }

    /// Takes in that the sender was silent: the sequence goes on without audio.
    pub fn note_silence(&mut self, seq: u16)
        requires
            old(self)@.wf(),
        ensures
            final(self)@.wf(),
            final(self)@ == old(self)@.with(seq, None),
    {
        self.insert(seq, None);
    }

    /// Gives what is to be played now, if the cushion is full.
    pub fn pull(&mut self) -> (r: Option<Play>)
        requires
            old(self)@.wf(),
        ensures
            final(self)@.wf(),
            match r {
                Some(play) => {
                    &&& old(self)@.due() == Some(play@)
                    &&& final(self)@ == old(self)@.advanced()
                },
                None => old(self)@.due() is None && final(self)@ == old(self)@,
            },
    {
        let n: u16 = match self.next {
            None => {
                return None;
            },
            Some(n) => n,
        };
        assert(self@.frames.dom() =~= self.frames@.dom());
        if self.frames.len() < DEPTH {
            return None;
        }
        let following: u16 = n.wrapping_add(1);
        proof {
            lemma_plays_in_order(old(self)@);
        }
        self.next = Some(following);
        match self.frames.remove(&n) {
            Some(frame) => {
                assert(old(self)@.frames.contains_key(n));
                assert(self@.frames =~= old(self)@.frames.remove(n));
                match frame {
                    Some(opus) => Some(Play::Audio(opus)),
                    None => Some(Play::Silence),
                }
            },
            None => {
                assert(!old(self)@.frames.contains_key(n));
                assert(self@.frames =~= old(self)@.frames.remove(n));
                match self.frames.get(&following) {
                    Some(Some(opus)) => {
                        assert(old(self)@.frames.contains_key(following));
                        Some(Play::Recover(vstd::slice::slice_to_vec(opus.as_slice())))
                    },
                    _ => Some(Play::Conceal),
                }
            },
        }
    }

    /// Gives all that is to be played now, in order.
    pub fn drain(&mut self) -> (r: Vec<Play>)
        requires
            old(self)@.wf(),
        ensures
            final(self)@.wf(),
            final(self)@.due() is None,
            final(self)@ == old(self)@.settled(25),
            r@.map_values(|p: Play| p@) == old(self)@.all_due(25),
    {
        let mut out: Vec<Play> = Vec::new();
        let ghost mut left: nat = 25;
        assert(out@.map_values(|p: Play| p@) =~= Seq::<PlayView>::empty());
        loop
            invariant
                self@.wf(),
                old(self)@.settled(25) == self@.settled(left),
                old(self)@.all_due(25) == out@.map_values(|p: Play| p@) + self@.all_due(left),
                self@.next is Some ==> forall|k: u16| #[trigger]
                    self@.frames.contains_key(k) ==> ahead(k, self@.next->Some_0) < left,
            ensures
                self@.wf(),
                self@.due() is None,
                old(self)@.settled(25) == self@.settled(left),
                old(self)@.all_due(25) == out@.map_values(|p: Play| p@) + self@.all_due(left),
            decreases left,
        {
            let ghost before = self@;
            let ghost seen = out@;
            match self.pull() {
                None => {
                    break;
                },
                Some(play) => {
                    proof {
                        lemma_left(before, left);
                        left = (left - 1) as nat;
                        lemma_plays_in_order(before);
                        let n = before.next->Some_0;
                        assert forall|k: u16| #[trigger] self@.frames.contains_key(k) implies ahead(
                            k,
                            after(n),
                        ) < left by {
                            assert(before.frames.contains_key(k));
                        }
                    }
                    out.push(play);
                    assert(out@.map_values(|p: Play| p@) =~= seen.map_values(|p: Play| p@).push(
                        play@,
                    ));
                    assert(seen.map_values(|p: Play| p@) + (seq![play@] + self@.all_due(left))
                        =~= out@.map_values(|p: Play| p@) + self@.all_due(left));
                },
            }
        }
        assert(out@.map_values(|p: Play| p@) + Seq::<PlayView>::empty() =~= out@.map_values(
            |p: Play| p@,
        ));
        out
    }
}

proof fn lemma_left(v: JitterView, left: nat)
    requires
        v.wf(),
        v.due() is Some,
        forall|k: u16| #[trigger] v.frames.contains_key(k) ==> ahead(k, v.next->Some_0) < left,
    ensures
        left > 0,
{
    if left == 0 {
        assert(v.frames.dom() =~= Set::<u16>::empty());
    }
}

} // verus!
