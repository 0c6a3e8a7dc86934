//! Samples on their way between devices and buffers. A device may have any number of
//! channels; the buffers have two.

use std::collections::VecDeque;

use vstd::arithmetic::div_mod::lemma_fundamental_div_mod_converse;
use vstd::prelude::*;

use crate::audio::CHANNELS;

verus! {

/// The frames that are resampled at a time: 10 ms.
pub const CHUNK_FRAMES: usize = 480;

/// How many frames of `channels` samples it takes for `len` samples; the last may be
/// short.
pub open spec fn frames_in(len: int, channels: int) -> int {
    (len + channels - 1) / channels
}

proof fn lemma_position(k: int, channels: int, q: int, c: int)
    requires
        channels > 0,
        k == q * channels + c,
        0 <= c < channels,
    ensures
        k / channels == q,
        k % channels == c,
{
    lemma_fundamental_div_mod_converse(k, channels, q, c);
}

proof fn lemma_frames_in(len: int, channels: int, q: int)
    requires
        channels > 0,
        q * channels < len <= (q + 1) * channels,
    ensures
        frames_in(len, channels) == q + 1,
{
    let k = len + channels - 1;
    let c = len - 1 - q * channels;
    assert((q + 1) * channels == q * channels + channels) by (nonlinear_arith);
    lemma_fundamental_div_mod_converse(k, channels, q + 1, c);
}

/// The frame `f` of the input came out as the two samples at its place: the first two
/// channels, or the only one twice.
pub open spec fn input_frame<T, F: Fn(T) -> i16>(
    conv: F,
    data: Seq<T>,
    channels: int,
    out: Seq<i16>,
    f: int,
) -> bool {
    &&& call_ensures(conv, (data[f * channels],), out[2 * f])
    &&& if channels >= 2 {
        call_ensures(conv, (data[f * channels + 1],), out[2 * f + 1])
    } else {
        out[2 * f + 1] == out[2 * f]
    }
}

/// Every frame of the input came out.
pub open spec fn input_taken<T, F: Fn(T) -> i16>(
    conv: F,
    data: Seq<T>,
    channels: int,
    out: Seq<i16>,
) -> bool {
    forall|f: int|
        0 <= f < frames_in(data.len() as int, channels) ==> #[trigger] input_frame(
            conv,
            data,
            channels,
            out,
            f,
        )
}

/// Takes samples from the microphone in, as two channels. The last frame of a device with
/// several channels has at least two samples.
pub fn push_input_i16<T: Copy, F: Fn(T) -> i16>(
    out: &mut VecDeque<i16>,
    data: &[T],
    in_ch: usize,
    conv: F,
)
    requires
        forall|s: T| call_requires(conv, (s,)),
        in_ch >= 2 ==> data@.len() % (in_ch as nat) != 1,
    ensures
        in_ch == 0 ==> final(out)@ == old(out)@,
        in_ch > 0 ==> {
            let added = final(out)@.skip(old(out)@.len() as int);
            &&& final(out)@.len() >= old(out)@.len()
            &&& final(out)@.take(old(out)@.len() as int) == old(out)@
            &&& added.len() == 2 * frames_in(data@.len() as int, in_ch as int)
            &&& input_taken(conv, data@, in_ch as int, added)
        },
{
    if in_ch == 0 {
        return;
    }
    let ghost before = out@;
    let ghost ch = in_ch as int;
    let ghost mut q: int = 0;
    let mut i: usize = 0;
    if data.len() == 0 {
        proof {
            lemma_fundamental_div_mod_converse(ch - 1, ch, 0, ch - 1);
        }
        assert(out@.take(before.len() as int) =~= before);
        return;
    }
    loop
        invariant_except_break
            i == q * ch,
            i < data@.len(),
        invariant
            forall|s: T| call_requires(conv, (s,)),
            in_ch >= 2 ==> data@.len() % (in_ch as nat) != 1,
            in_ch > 0,
            ch == in_ch,
            q >= 0,
            out@.len() == before.len() + 2 * q,
            out@.take(before.len() as int) =~= before,
            forall|f: int|
                0 <= f < q ==> #[trigger] input_frame(
                    conv,
                    data@,
                    ch,
                    out@.skip(before.len() as int),
                    f,
                ),
        ensures
            q == frames_in(data@.len() as int, ch),
        decreases data@.len() - i,
    {
        let l: i16 = conv(data[i]);
        proof {
            if ch >= 2 && i + 1 == data@.len() {
                lemma_fundamental_div_mod_converse(data@.len() as int, ch, q, 1);
            }
        }
        let r: i16 = if in_ch >= 2 {
            conv(data[i + 1])
        } else {
            l
        };
        let ghost was = out@.skip(before.len() as int);
        out.push_back(l);
        out.push_back(r);
        proof {
            let now = out@.skip(before.len() as int);
            assert(now =~= was.push(l).push(r));
            assert forall|f: int| 0 <= f < q implies #[trigger] input_frame(
                conv,
                data@,
                ch,
                now,
                f,
            ) by {
                assert(input_frame(conv, data@, ch, was, f));
                assert(now[2 * f] == was[2 * f] && now[2 * f + 1] == was[2 * f + 1]);
            }
            assert(input_frame(conv, data@, ch, now, q));
            assert((q + 1) * ch == q * ch + ch) by (nonlinear_arith);
            q = q + 1;
        }
        if data.len() - i <= in_ch {
            proof {
                lemma_frames_in(data@.len() as int, ch, q - 1);
            }
            break;
        }
        i = i + in_ch;
    }
}

/// The sample at `k` of what is to be played: silence while nothing is to be heard, and
/// where there is nothing. With `whole`, a sample without the other one of its frame
/// counts as nothing.
pub open spec fn source_sample(src: Seq<i16>, silent: bool, whole: bool, k: int) -> i16 {
    if silent || k >= src.len() || (whole && k - k % 2 + 1 >= src.len()) {
        0
    } else {
        src[k]
    }
}

/// What is left of what is to be played after `frames` frames.
pub open spec fn source_rest(src: Seq<i16>, silent: bool, whole: bool, frames: int) -> Seq<i16> {
    let wanted = 2 * frames;
    let there = if whole {
        src.len() - src.len() % 2
    } else {
        src.len() as int
    };
    if silent {
        src
    } else if wanted < there {
        src.skip(wanted)
    } else {
        src.skip(there)
    }
}

/// The frame `f` was played: the scaled samples of both channels.
pub open spec fn scaled_frame<S: Fn(i16) -> i16>(
    scale: S,
    src: Seq<i16>,
    silent: bool,
    whole: bool,
    frames: Seq<(i16, i16)>,
    f: int,
) -> bool {
    &&& call_ensures(scale, (source_sample(src, silent, whole, 2 * f),), frames[f].0)
    &&& call_ensures(scale, (source_sample(src, silent, whole, 2 * f + 1),), frames[f].1)
}

/// The slot `k` of the device got its sample: left, right, and nothing in further channels.
pub open spec fn filled_slot<T, C: Fn(i16) -> T>(
    conv: C,
    frames: Seq<(i16, i16)>,
    channels: int,
    zero: T,
    data: Seq<T>,
    k: int,
) -> bool {
    if k % channels == 0 {
        call_ensures(conv, (frames[k / channels].0,), data[k])
    } else if k % channels == 1 {
        call_ensures(conv, (frames[k / channels].1,), data[k])
    } else {
        data[k] == zero
    }
}

/// Every frame was played.
pub open spec fn frames_scaled<S: Fn(i16) -> i16>(
    scale: S,
    src: Seq<i16>,
    silent: bool,
    whole: bool,
    frames: Seq<(i16, i16)>,
) -> bool {
    forall|f: int|
        0 <= f < frames.len() ==> #[trigger] scaled_frame(scale, src, silent, whole, frames, f)
}

/// Every slot of the device got its sample.
pub open spec fn slots_filled<T, C: Fn(i16) -> T>(
    conv: C,
    frames: Seq<(i16, i16)>,
    channels: int,
    zero: T,
    data: Seq<T>,
) -> bool {
    forall|k: int|
        0 <= k < data.len() ==> #[trigger] filled_slot(conv, frames, channels, zero, data, k)
}

fn pull(
    src: &mut VecDeque<i16>,
    silent: bool,
    whole: bool,
    Ghost(all): Ghost<Seq<i16>>,
    Ghost(f): Ghost<int>,
) -> (r: (i16, i16))
    requires
        f >= 0,
        old(src)@ == source_rest(all, silent, whole, f),
    ensures
        final(src)@ == source_rest(all, silent, whole, f + 1),
        r.0 == source_sample(all, silent, whole, 2 * f),
        r.1 == source_sample(all, silent, whole, 2 * f + 1),
{
    if silent || (whole && src.len() < CHANNELS) {
        assert(src@ =~= source_rest(all, silent, whole, f + 1));
        return (0, 0);
    }
    let l: i16 = match src.pop_front() {
        Some(s) => s,
        None => 0,
    };
    let r: i16 = match src.pop_front() {
        Some(s) => s,
        None => 0,
    };
    assert(src@ =~= source_rest(all, silent, whole, f + 1));
    (l, r)
}

/// Plays what is in `src` on a device: each sample is scaled for the volume and converted
/// for the device. Gives the scaled frames back.
fn pour<T: Copy, S: Fn(i16) -> i16, C: Fn(i16) -> T>(
    data: &mut [T],
    src: &mut VecDeque<i16>,
    out_ch: usize,
    silent: bool,
    whole: bool,
    scale: S,
    conv: C,
    zero: T,
) -> (r: Vec<(i16, i16)>)
    requires
        forall|s: i16| call_requires(scale, (s,)),
        forall|s: i16| call_requires(conv, (s,)),
        out_ch > 0,
    ensures
        r@.len() == frames_in(old(data)@.len() as int, out_ch as int),
        final(src)@ == source_rest(old(src)@, silent, whole, r@.len() as int),
        final(data)@.len() == old(data)@.len(),
        forall|f: int|
            0 <= f < r@.len() ==> #[trigger] scaled_frame(
                scale,
                old(src)@,
                silent,
                whole,
                r@,
                f,
            ),
        forall|k: int|
            0 <= k < final(data)@.len() ==> #[trigger] filled_slot(
                conv,
                r@,
                out_ch as int,
                zero,
                final(data)@,
                k,
            ),
{
    let ghost all = src@;
    let ghost ch = out_ch as int;
    let ghost mut q: int = 0;
    let n: usize = data.len();
    let mut frames: Vec<(i16, i16)> = Vec::new();
    let mut c: usize = 0;
    let mut k: usize = 0;
    assert(src@ =~= source_rest(all, silent, whole, 0));
    while k < n
        invariant
            forall|s: i16| call_requires(scale, (s,)),
            forall|s: i16| call_requires(conv, (s,)),
            ch == out_ch,
            out_ch > 0,
            n == data@.len(),
            n == old(data)@.len(),
            k <= n,
            q >= 0,
            k == q * ch + c,
            c < out_ch,
            all == old(src)@,
            frames@.len() == if c == 0 {
                q
            } else {
                q + 1
            },
            src@ == source_rest(all, silent, whole, frames@.len() as int),
            forall|f: int|
                0 <= f < frames@.len() ==> #[trigger] scaled_frame(
                    scale,
                    all,
                    silent,
                    whole,
                    frames@,
                    f,
                ),
            forall|j: int|
                0 <= j < k ==> #[trigger] filled_slot(conv, frames@, ch, zero, data@, j),
        decreases n - k,
    {
        let ghost was = frames@;
        let ghost slots = data@;
        proof {
            lemma_position(k as int, ch, q, c as int);
        }
        if c == 0 {
            let (l, r) = pull(src, silent, whole, Ghost(all), Ghost(q));
            let frame: (i16, i16) = (scale(l), scale(r));
            frames.push(frame);
            proof {
                assert forall|f: int| 0 <= f < frames@.len() implies #[trigger] scaled_frame(
                    scale,
                    all,
                    silent,
                    whole,
                    frames@,
                    f,
                ) by {
                    if f < was.len() {
                        assert(scaled_frame(scale, all, silent, whole, was, f));
                        assert(frames@[f] == was[f]);
                    }
                }
            }
        }
        let last: (i16, i16) = frames[frames.len() - 1];
        if c == 0 {
            data[k] = conv(last.0);
        } else if c == 1 {
            data[k] = conv(last.1);
        } else {
            data[k] = zero;
        }
        proof {
            assert forall|j: int| 0 <= j < k + 1 implies #[trigger] filled_slot(
                conv,
                frames@,
                ch,
                zero,
                data@,
                j,
            ) by {
                if j < k {
                    assert(filled_slot(conv, was, ch, zero, slots, j));
                    assert(data@[j] == slots[j]);
                    lemma_earlier_frame(j, k as int, ch, q, c as int);
                    assert(frames@[j / ch] == was[j / ch]);
                }
            }
            assert((q + 1) * ch == q * ch + ch) by (nonlinear_arith);
        }
        k = k + 1;
        c = c + 1;
        if c == out_ch {
            c = 0;
            proof {
                q = q + 1;
            }
        }
    }
    proof {
        if c == 0 {
            if q == 0 {
                assert(n == 0);
                lemma_fundamental_div_mod_converse(ch - 1, ch, 0, ch - 1);
            } else {
                assert((q - 1 + 1) * ch == (q - 1) * ch + ch) by (nonlinear_arith);
                lemma_frames_in(n as int, ch, q - 1);
            }
        } else {
            assert((q + 1) * ch == q * ch + ch) by (nonlinear_arith);
            lemma_frames_in(n as int, ch, q);
        }
    }
    frames
}

proof fn lemma_earlier_frame(j: int, k: int, channels: int, q: int, c: int)
    requires
        channels > 0,
        0 <= j < k,
        k == q * channels + c,
        0 <= c < channels,
    ensures
        0 <= j / channels <= q,
        c == 0 ==> j / channels < q,
{
    let a = j / channels;
    assert(j == a * channels + j % channels && 0 <= j % channels < channels) by {
        vstd::arithmetic::div_mod::lemma_fundamental_div_mod(j, channels);
        assert(channels * a == a * channels) by (nonlinear_arith);
    }
    assert(a >= 0) by (nonlinear_arith)
        requires
            j == a * channels + j % channels,
            0 <= j,
            0 <= j % channels < channels,
            channels > 0,
    ;
    if a > q {
        assert(a * channels >= (q + 1) * channels) by (nonlinear_arith)
            requires
                a >= q + 1,
                channels > 0,
        ;
        assert((q + 1) * channels == q * channels + channels) by (nonlinear_arith);
    }
    if c == 0 && a == q {
        assert(a * channels == q * channels);
    }
}

/// Plays what is in `src` on a device that takes it as it is. While `silent`, nothing is
/// taken and nothing is heard. Gives back the frames that are heard.
pub fn fill_output<T: Copy, S: Fn(i16) -> i16, C: Fn(i16) -> T>(
    data: &mut [T],
    src: &mut VecDeque<i16>,
    out_ch: usize,
    silent: bool,
    scale: S,
    conv: C,
    zero: T,
) -> (r: Vec<(i16, i16)>)
    requires
        forall|s: i16| call_requires(scale, (s,)),
        forall|s: i16| call_requires(conv, (s,)),
    ensures
        final(data)@.len() == old(data)@.len(),
        out_ch == 0 ==> final(data)@ == old(data)@ && final(src)@ == old(src)@ && r@.len() == 0,
        out_ch > 0 ==> {
            &&& r@.len() == frames_in(old(data)@.len() as int, out_ch as int)
            &&& final(src)@ == source_rest(old(src)@, silent, false, r@.len() as int)
            &&& frames_scaled(scale, old(src)@, silent, false, r@)
            &&& slots_filled(conv, r@, out_ch as int, zero, final(data)@)
        },
{
    if out_ch == 0 {
        return Vec::new();
    }
    pour(data, src, out_ch, silent, false, scale, conv, zero)
}

/// Plays what was resampled for a device on it, whole frames only. While `silent`, nothing
/// is taken and nothing is heard.
pub fn drain_output<T: Copy, S: Fn(i16) -> i16, C: Fn(i16) -> T>(
    data: &mut [T],
    native: &mut VecDeque<i16>,
    out_ch: usize,
    silent: bool,
    scale: S,
    conv: C,
    zero: T,
)
    requires
        forall|s: i16| call_requires(scale, (s,)),
        forall|s: i16| call_requires(conv, (s,)),
    ensures
        final(data)@.len() == old(data)@.len(),
        out_ch == 0 ==> final(data)@ == old(data)@ && final(native)@ == old(native)@,
        out_ch > 0 ==> {
            let n = frames_in(old(data)@.len() as int, out_ch as int);
            &&& final(native)@ == source_rest(old(native)@, silent, true, n)
            &&& exists|frames: Seq<(i16, i16)>|
                {
                    &&& frames.len() == n
                    &&& #[trigger] frames_scaled(scale, old(native)@, silent, true, frames)
                    &&& slots_filled(conv, frames, out_ch as int, zero, final(data)@)
                }
        },
{
    if out_ch == 0 {
        return;
    }
    let frames = pour(data, native, out_ch, silent, true, scale, conv, zero);
    assert(frames_scaled(scale, old(native)@, silent, true, frames@));
}

/// Takes the next samples to be resampled for a device that has `native_len` samples
/// waiting and wants `frames_needed` frames: none where there is enough, or nothing left.
pub fn next_chunk(native_len: usize, frames_needed: usize, src: &mut VecDeque<i16>) -> (r: Option<
    Vec<i16>,
>)
    requires
        2 * frames_needed <= usize::MAX,
    ensures
        ({
            let whole = old(src)@.len() - old(src)@.len() % 2;
            let n = if whole < 960 {
                whole
            } else {
                960
            };
            if native_len < 2 * frames_needed && whole > 0 {
                &&& r is Some
                &&& r->Some_0@ == old(src)@.take(n)
                &&& final(src)@ == old(src)@.skip(n)
            } else {
                r is None && final(src)@ == old(src)@
            }
        }),
{
    if native_len >= frames_needed * CHANNELS || src.len() < CHANNELS {
        return None;
    }
    let ghost all = src@;
    let mut chunk: Vec<i16> = Vec::new();
    let mut f: usize = 0;
    assert(all.skip(0) =~= all);
    while f < CHUNK_FRAMES && src.len() >= CHANNELS
        invariant
            f <= CHUNK_FRAMES,
            2 * f <= all.len(),
            src@ == all.skip(2 * f),
            chunk@ == all.take(2 * f),
        decreases CHUNK_FRAMES - f,
    {
        for _c in 0..CHANNELS
            invariant
                f < CHUNK_FRAMES,
                2 * f + 2 <= all.len(),
                _c <= CHANNELS,
                src@ == all.skip(2 * f + _c),
                chunk@ == all.take(2 * f + _c),
        {
            if let Some(s) = src.pop_front() {
                chunk.push(s);
            }
            assert(src@ =~= all.skip(2 * f + _c + 1));
            assert(chunk@ =~= all.take(2 * f + _c + 1));
        }
        f = f + 1;
    }
    Some(chunk)
}

/// The energy of the frames: the sum of the squares of all samples.
pub open spec fn energy_of(frames: Seq<(i16, i16)>) -> int
    decreases frames.len(),
{
    if frames.len() == 0 {
        0
    } else {
        energy_of(frames.drop_last()) + frames.last().0 * frames.last().0 + frames.last().1
            * frames.last().1
    }
}

fn square(s: i16) -> (r: u128)
    ensures
        r == s * s,
        r <= 0x4000_0000,
{
    let x: i64 = s as i64;
    proof {
        assert(0 <= x * x <= 0x4000_0000) by (nonlinear_arith)
            requires
                -0x8000 <= x <= 0x7fff,
        ;
    }
    (x * x) as u128
}

/// The energy of the frames.
pub fn energy(frames: &Vec<(i16, i16)>) -> (r: u128)
    ensures
        r == energy_of(frames@),
{
    let n: usize = frames.len();
    let mut sum: u128 = 0;
    let mut i: usize = 0;
    assert(frames@.take(0) =~= Seq::<(i16, i16)>::empty());
    while i < n
        invariant
            n == frames@.len(),
            i <= n,
            sum == energy_of(frames@.take(i as int)),
            sum <= i * 0x8000_0000,
        decreases n - i,
    {
        assert(frames@.take(i + 1).drop_last() =~= frames@.take(i as int));
        assert(i * 0x8000_0000 <= 0xffff_ffff_ffff_ffff * 0x8000_0000);
        sum = sum + square(frames[i].0) + square(frames[i].1);
        i = i + 1;
    }
    assert(frames@.take(i as int) =~= frames@);
    sum
}

/// The sums of both channels, for the echo canceller.
pub fn channel_sums(frames: &Vec<(i16, i16)>) -> (r: Vec<i32>)
    ensures
        r@.len() == frames@.len(),
        forall|i: int| 0 <= i < r@.len() ==> #[trigger] r@[i] == frames@[i].0 + frames@[i].1,
{
    let mut out: Vec<i32> = Vec::new();
    let mut i: usize = 0;
    while i < frames.len()
        invariant
            i <= frames@.len(),
            out@.len() == i,
            forall|k: int| 0 <= k < i ==> #[trigger] out@[k] == frames@[k].0 + frames@[k].1,
        decreases frames@.len() - i,
    {
        out.push(frames[i].0 as i32 + frames[i].1 as i32);
        i = i + 1;
    }
    out
}

/// The samples as frames of two.
pub fn pairs(samples: &Vec<i16>) -> (r: Vec<(i16, i16)>)
    ensures
        r@.len() == samples@.len() / 2,
        forall|f: int|
            0 <= f < r@.len() ==> #[trigger] r@[f] == (samples@[2 * f], samples@[2 * f + 1]),
{
    let mut out: Vec<(i16, i16)> = Vec::new();
    let len: usize = samples.len();
    let n: usize = len / 2;
    let mut f: usize = 0;
    while f < n
        invariant
            len == samples@.len(),
            n == len / 2,
            f <= n,
            out@.len() == f,
            forall|k: int|
                0 <= k < f ==> #[trigger] out@[k] == (samples@[2 * k], samples@[2 * k + 1]),
        decreases n - f,
    {
        out.push((samples[2 * f], samples[2 * f + 1]));
        f = f + 1;
    }
    out
}

/// Takes a frame of `n` samples out of a buffer, if there is one.
pub fn take_frame(buffer: &mut VecDeque<i16>, n: usize) -> (r: Option<Vec<i16>>)
    ensures
        if old(buffer)@.len() >= n {
            &&& r is Some
            &&& r->Some_0@ == old(buffer)@.take(n as int)
            &&& final(buffer)@ == old(buffer)@.skip(n as int)
        } else {
            r is None && final(buffer)@ == old(buffer)@
        },
{
    if buffer.len() < n {
        return None;
    }
    let ghost all = buffer@;
    let mut out: Vec<i16> = Vec::new();
    assert(all.skip(0) =~= all);
    while out.len() < n
        invariant
            out@.len() <= n <= all.len(),
            out@ == all.take(out@.len() as int),
            buffer@ == all.skip(out@.len() as int),
        decreases n - out@.len(),
    {
        let ghost was = out@;
        if let Some(s) = buffer.pop_front() {
            out.push(s);
        }
        assert(out@ =~= all.take(was.len() as int + 1));
        assert(buffer@ =~= all.skip(was.len() as int + 1));
    }
    Some(out)
}

} // verus!
