//! Sound: the settings in force, the devices, and samples on their way.

use std::collections::VecDeque;

use vstd::prelude::*;

use crate::audio::devices::{config_48k, find_device, loop_step, LoopStep, MicTest, StreamRange};
use crate::audio::stream::{
    channel_sums, drain_output, energy, energy_of, fill_output, filled_slot, frames_in,
    frames_scaled, input_frame, input_taken, next_chunk, pairs, push_input_i16, scaled_frame,
    slots_filled, source_rest, source_sample, take_frame,
};
use crate::audio::{apply_settings, cap, AudioOptions, Chain, EchoStage, OptionsView};
use crate::config::{NoiseMode, VoiceSettings};
use crate::ui::settings::{change_setting, device_at, device_index, menu_escape, menu_text, Setting};

verus! {

/// A number, but no larger than a limit.
pub open spec fn capped(n: u32, limit: u32) -> int {
    if n <= limit {
        n as int
    } else {
        limit as int
    }
}

/// A level between -100 and 0.
pub open spec fn level(db: i32) -> int {
    if db < -100 {
        -100
    } else if db > 0 {
        0
    } else {
        db as int
    }
}

/// The same text, or none in both.
pub open spec fn same_choice(a: Option<String>, b: Option<String>) -> bool {
    match (a, b) {
        (Some(x), Some(y)) => x@ == y@,
        (None, None) => true,
        _ => false,
    }
}

/// What can be read of the settings in force: both volumes, what is done against noise, the
/// echo canceller, the level of silence and whether it is found by itself, both devices and
/// the steps.
pub open spec fn reads(
    o: &AudioOptions,
    input: u32,
    output: u32,
    noise: NoiseMode,
    aec: bool,
    db: i32,
    auto: bool,
    microphone: Option<String>,
    speaker: Option<String>,
    chain: Chain,
) -> bool {
    &&& call_ensures(AudioOptions::input_volume, (o,), input)
    &&& call_ensures(AudioOptions::output_volume, (o,), output)
    &&& call_ensures(AudioOptions::noise_mode, (o,), noise)
    &&& call_ensures(AudioOptions::aec_enabled, (o,), aec)
    &&& call_ensures(AudioOptions::sensitivity_db, (o,), db)
    &&& call_ensures(AudioOptions::auto_sensitivity, (o,), auto)
    &&& call_ensures(AudioOptions::input_device, (o,), microphone)
    &&& call_ensures(AudioOptions::output_device, (o,), speaker)
    &&& call_ensures(AudioOptions::chain, (o,), chain)
}

/// The preferences of the user, once put in force, are what is read of the settings, within
/// their ranges, and what the microphone goes through.
pub proof fn law_preferences_are_in_force(
    options: &mut AudioOptions,
    v: &VoiceSettings,
    done: (),
    after: &AudioOptions,
    input: u32,
    output: u32,
    noise: NoiseMode,
    aec: bool,
    db: i32,
    auto: bool,
    microphone: Option<String>,
    speaker: Option<String>,
    chain: Chain,
)
    requires
        call_ensures(apply_settings, (options, v), done),
        *after == *final(options),
        reads(after, input, output, noise, aec, db, auto, microphone, speaker, chain),
    ensures
        input == capped(v.input_volume, 200),
        output == capped(v.output_volume, 200),
        noise == v.noise_mode,
        aec == v.aec,
        db == level(v.sensitivity_db),
        auto == v.auto_sensitivity,
        same_choice(microphone, v.input_device),
        same_choice(speaker, v.output_device),
        chain.noise == v.noise_mode,
        chain.agc == v.auto_gain,
        chain.scale <==> v.input_volume != 100,
        v.aec ==> chain.echo == EchoStage::Cancel,
        !v.aec && v.echo_suppression ==> chain.echo == EchoStage::Duck,
        !v.aec && !v.echo_suppression ==> chain.echo == EchoStage::Keep,
{
}

/// A setting that is changed is kept and in force at once, within its range.
pub proof fn law_changes_are_kept_and_in_force(
    voice: &mut VoiceSettings,
    options: &mut AudioOptions,
    change: Setting,
    done: (),
    after: &AudioOptions,
    input: u32,
    output: u32,
    noise: NoiseMode,
    aec: bool,
    db: i32,
    auto: bool,
    microphone: Option<String>,
    speaker: Option<String>,
    chain: Chain,
)
    requires
        call_ensures(change_setting, (voice, options, change), done),
        *after == *final(options),
        reads(after, input, output, noise, aec, db, auto, microphone, speaker, chain),
    ensures
        match change {
            Setting::InputDevice(name) => same_choice(final(voice).input_device, name)
                && same_choice(microphone, name),
            Setting::OutputDevice(name) => same_choice(final(voice).output_device, name)
                && same_choice(speaker, name),
            Setting::InputVolume(n) => final(voice).input_volume == n && input == capped(n, 200),
            Setting::OutputVolume(n) => final(voice).output_volume == n && output == capped(n, 200),
            Setting::AutoSensitivity(on) => final(voice).auto_sensitivity == on && auto == on,
            Setting::Sensitivity(n) => final(voice).sensitivity_db == n && db == level(n),
            Setting::Echo(on) => final(voice).echo_suppression == on && (!aec ==> chain.echo == (
            if on {
                EchoStage::Duck
            } else {
                EchoStage::Keep
            })),
            Setting::Noise(mode) => final(voice).noise_mode == mode && noise == mode && chain.noise
                == mode,
            Setting::AutoGain(on) => final(voice).auto_gain == on && chain.agc == on,
            Setting::Aec(on) => final(voice).aec == on && aec == on && (chain.echo
                == EchoStage::Cancel <==> on),
        },
{
}

/// A change of one setting leaves the others: of what is kept, and of what is in force.
pub proof fn law_changes_leave_the_rest(
    voice: &mut VoiceSettings,
    options: &mut AudioOptions,
    change: Setting,
    done: (),
)
    requires
        call_ensures(change_setting, (voice, options, change), done),
    ensures
        !(change is InputDevice) ==> same_choice(final(voice).input_device, old(voice).input_device)
            && final(options)@.input_device == old(options)@.input_device,
        !(change is OutputDevice) ==> same_choice(
            final(voice).output_device,
            old(voice).output_device,
        ) && final(options)@.output_device == old(options)@.output_device,
        !(change is InputVolume) ==> final(voice).input_volume == old(voice).input_volume
            && final(options)@.input_volume == old(options)@.input_volume,
        !(change is OutputVolume) ==> final(voice).output_volume == old(voice).output_volume
            && final(options)@.output_volume == old(options)@.output_volume,
        !(change is AutoSensitivity) ==> final(voice).auto_sensitivity
            == old(voice).auto_sensitivity && final(options)@.auto_sensitivity
            == old(options)@.auto_sensitivity,
        !(change is Sensitivity) ==> final(voice).sensitivity_db == old(voice).sensitivity_db
            && final(options)@.sensitivity_db == old(options)@.sensitivity_db,
        !(change is Echo) ==> final(voice).echo_suppression == old(voice).echo_suppression
            && final(options)@.echo_suppress == old(options)@.echo_suppress,
        !(change is Noise) ==> final(voice).noise_mode == old(voice).noise_mode
            && final(options)@.noise_mode == old(options)@.noise_mode,
        !(change is AutoGain) ==> final(voice).auto_gain == old(voice).auto_gain
            && final(options)@.agc == old(options)@.agc,
        !(change is Aec) ==> final(voice).aec == old(voice).aec && final(options)@.aec_enabled
            == old(options)@.aec_enabled,
        !(change is InputDevice) && !(change is OutputDevice) ==> final(options)@.device_generation == old(options)@.device_generation,
{
    let a = old(voice)@;
    let b = final(voice)@;
    assert(a.input_device == crate::model::option_view(old(voice).input_device));
    assert(b.input_device == crate::model::option_view(final(voice).input_device));
    assert(a.output_device == crate::model::option_view(old(voice).output_device));
    assert(b.output_device == crate::model::option_view(final(voice).output_device));
}

/// Choosing a device, either one, makes the streams open again: the loop that ran with the
/// number from before opens them.
pub proof fn law_new_devices_are_opened(
    a: &mut AudioOptions,
    name: Option<String>,
    done: (),
    b: &mut AudioOptions,
    other: Option<String>,
    done2: (),
    before: &AudioOptions,
    was: u64,
    after: &AudioOptions,
    is: u64,
    buffered: usize,
    step: LoopStep,
    input: bool,
)
    requires
        if input {
            &&& call_ensures(AudioOptions::set_input_device, (a, name), done)
            &&& *before == *old(a)
            &&& *after == *final(a)
        } else {
            &&& call_ensures(AudioOptions::set_output_device, (b, other), done2)
            &&& *before == *old(b)
            &&& *after == *final(b)
        },
        call_ensures(AudioOptions::generation, (before,), was),
        call_ensures(AudioOptions::generation, (after,), is),
        call_ensures(loop_step, (false, was, is, buffered), step),
    ensures
        is != was,
        step == LoopStep::Reopen,
{
}

/// What a loop over the microphone does: it ends as soon as it is stopped; while it runs with
/// the devices that are chosen it takes a frame of 1920 samples where there is one and waits
/// where there is none.
pub proof fn law_loop(stopped: bool, opened: u64, generation: u64, buffered: usize, r: LoopStep)
    requires
        call_ensures(loop_step, (stopped, opened, generation, buffered), r),
    ensures
        stopped <==> r == LoopStep::End,
        !stopped && opened == generation && buffered >= 1920 ==> r == LoopStep::Process,
        !stopped && opened == generation && buffered < 1920 ==> r == LoopStep::Wait,
{
}

/// A test of the microphone runs until it is stopped.
pub proof fn law_microphone_test(
    fresh: MicTest,
    running: bool,
    test: &mut MicTest,
    done: (),
    after: &MicTest,
    stopped: bool,
)
    requires
        call_ensures(MicTest::new, (), fresh),
        call_ensures(MicTest::stopped, (&fresh,), running),
        call_ensures(MicTest::stop, (test,), done),
        *after == *final(test),
        call_ensures(MicTest::stopped, (after,), stopped),
    ensures
        !running,
        stopped,
{
}

/// The level of the microphone is shown in percent, and no higher than a hundred.
pub proof fn law_microphone_level(
    o: &mut AudioOptions,
    pct: u32,
    done: (),
    after: &AudioOptions,
    r: u32,
)
    requires
        call_ensures(AudioOptions::set_mic_level, (o, pct), done),
        *after == *final(o),
        call_ensures(AudioOptions::mic_level, (after,), r),
    ensures
        r == capped(pct, 100),
{
}

/// What is played reaches the echo canceller in order: what was put in last comes out last,
/// after all that was there, while there is room; and nothing is kept while it is off.
pub proof fn law_echo_reference(
    a: &mut AudioOptions,
    sums: &[i32],
    done: (),
    b: &mut AudioOptions,
    n: usize,
    taken: Vec<i32>,
)
    requires
        call_ensures(AudioOptions::push_far_ref, (a, sums), done),
        *old(b) == *final(a),
        call_ensures(AudioOptions::take_far_ref, (b, n), taken),
    ensures
        taken@.len() == n,
        old(a)@.aec_enabled && old(a)@.far_ref.len() == 0 && n == sums@.len() && n <= 24000
            ==> taken@ == sums@ && final(b)@.far_ref.len() == 0,
        old(a)@.aec_enabled && old(a)@.far_ref.len() + sums@.len() <= 24000 ==> final(a)@.far_ref
            == old(a)@.far_ref + sums@,
        old(a)@.aec_enabled && old(a)@.far_ref.len() + sums@.len() > 24000 ==> final(a)@.far_ref.len() == 24000,
        !old(a)@.aec_enabled ==> final(a)@ == old(a)@,
        forall|i: int|
            final(a)@.far_ref.len() <= i < n ==> #[trigger] taken@[i] == 0,
{
    if old(a)@.aec_enabled && old(a)@.far_ref.len() == 0 && n == sums@.len() && n <= 24000 {
        assert(old(a)@.far_ref + sums@ =~= sums@);
        assert(taken@ =~= sums@);
    }
}

/// A frame that is taken, and what is left, are what was there; none is taken where there is
/// not enough.
pub proof fn law_frames_are_taken(buffer: &mut VecDeque<i16>, n: usize, r: Option<Vec<i16>>)
    requires
        call_ensures(take_frame, (buffer, n), r),
    ensures
        r is Some <==> old(buffer)@.len() >= n,
        r is Some ==> r->Some_0@.len() == n && r->Some_0@ + final(buffer)@ == old(buffer)@,
        r is None ==> final(buffer)@ == old(buffer)@,
{
    if r is Some {
        assert(r->Some_0@ + final(buffer)@ =~= old(buffer)@);
    }
}

/// A chunk that is taken, and what is left, are what was there: whole frames, at most 480 of
/// them, and only where the device has too little.
pub proof fn law_chunks_are_taken(
    waiting: usize,
    needed: usize,
    src: &mut VecDeque<i16>,
    r: Option<Vec<i16>>,
)
    requires
        2 * needed <= usize::MAX,
        call_ensures(next_chunk, (waiting, needed, src), r),
    ensures
        r is Some <==> waiting < 2 * needed && old(src)@.len() >= 2,
        r is Some ==> {
            &&& r->Some_0@ + final(src)@ == old(src)@
            &&& r->Some_0@.len() % 2 == 0
            &&& 2 <= r->Some_0@.len() <= 960
            &&& r->Some_0@.len() == 960 || final(src)@.len() < 2
        },
        r is None ==> final(src)@ == old(src)@,
{
    if r is Some {
        assert(r->Some_0@ + final(src)@ =~= old(src)@);
    }
}

/// A buffer that is capped keeps its end: the newest samples, as many as there may be.
pub proof fn law_capped_buffers(b: &mut VecDeque<i16>, max: usize, done: ())
    requires
        call_ensures(cap, (b, max), done),
    ensures
        final(b)@.len() <= max,
        old(b)@.len() <= max ==> final(b)@ == old(b)@,
        old(b)@.len() > max ==> final(b)@.len() == max,
        forall|i: int|
            0 <= i < final(b)@.len() ==> #[trigger] final(b)@[i] == old(b)@[old(b)@.len()
                - final(b)@.len() + i],
{
}

/// Samples of a microphone come in frame by frame: of one channel the sample twice, of two or
/// more the first two, as they are converted.
pub proof fn law_input<T, F: Fn(T) -> i16>(
    conv: F,
    data: Seq<T>,
    channels: int,
    out: Seq<i16>,
    f: int,
)
    requires
        channels > 0,
        input_frame(conv, data, channels, out, f),
    ensures
        call_ensures(conv, (data[f * channels],), out[2 * f]),
        channels >= 2 ==> call_ensures(conv, (data[f * channels + 1],), out[2 * f + 1]),
        channels == 1 ==> call_ensures(conv, (data[f],), out[2 * f]) && out[2 * f + 1] == out[2
            * f],
{
    assert(channels == 1 ==> f * channels == f) by (nonlinear_arith);
}

/// As many frames as there are samples for, the last one perhaps short.
pub proof fn law_frame_counts(len: int, channels: int)
    requires
        len >= 0,
        channels > 0,
    ensures
        frames_in(len, channels) * channels >= len,
        frames_in(len, channels) * channels < len + channels,
        channels == 1 ==> frames_in(len, channels) == len,
{
    let k = len + channels - 1;
    vstd::arithmetic::div_mod::lemma_fundamental_div_mod(k, channels);
    let q = k / channels;
    assert(channels * q == q * channels) by (nonlinear_arith);
}

/// What is heard: each sample of the buffer in its turn, silence where there is none and while
/// nothing is to be heard; where only whole frames are played, half a frame is silence too.
pub proof fn law_what_is_heard(src: Seq<i16>, k: int, frames: int)
    requires
        k >= 0,
        frames >= 0,
    ensures
        k < src.len() ==> source_sample(src, false, false, k) == src[k],
        k >= src.len() ==> source_sample(src, false, false, k) == 0,
        source_sample(src, true, false, k) == 0,
        source_sample(src, true, true, k) == 0,
        k < src.len() && src.len() % 2 == 0 ==> source_sample(src, false, true, k) == src[k],
        src.len() % 2 == 1 && k == src.len() - 1 ==> source_sample(src, false, true, k) == 0,
        k >= src.len() ==> source_sample(src, false, true, k) == 0,
        source_rest(src, true, false, frames) == src,
        source_rest(src, true, true, frames) == src,
        2 * frames <= src.len() ==> source_rest(src, false, false, frames) == src.skip(2 * frames),
        2 * frames <= src.len() ==> source_rest(src, false, true, frames) == src.skip(2 * frames),
        2 * frames >= src.len() ==> source_rest(src, false, false, frames).len() == 0,
        2 * frames >= src.len() ==> source_rest(src, false, true, frames).len() == src.len() % 2,
{
    if 2 * frames <= src.len() {
        assert(source_rest(src, false, false, frames) =~= src.skip(2 * frames));
        assert(source_rest(src, false, true, frames) =~= src.skip(2 * frames));
    }
}

/// What is heard is scaled, sample by sample: the left one of a frame and the right one.
pub proof fn law_scaled<S: Fn(i16) -> i16>(
    scale: S,
    src: Seq<i16>,
    frames: Seq<(i16, i16)>,
    f: int,
    whole: bool,
)
    requires
        f >= 0,
        2 * f + 1 < src.len(),
    ensures
        scaled_frame(scale, src, false, whole, frames, f) ==> {
            &&& call_ensures(scale, (src[2 * f],), frames[f].0)
            &&& call_ensures(scale, (src[2 * f + 1],), frames[f].1)
        },
        scaled_frame(scale, src, true, whole, frames, f) ==> {
            &&& call_ensures(scale, (0i16,), frames[f].0)
            &&& call_ensures(scale, (0i16,), frames[f].1)
        },
{
}

/// The slots of a device: the left sample of each frame first, the right one next, and nothing
/// in further channels.
pub proof fn law_slots<T, C: Fn(i16) -> T>(
    conv: C,
    frames: Seq<(i16, i16)>,
    channels: int,
    zero: T,
    data: Seq<T>,
    f: int,
    c: int,
)
    requires
        f >= 0,
        0 <= c < channels,
        filled_slot(conv, frames, channels, zero, data, f * channels + c),
    ensures
        c == 0 ==> call_ensures(conv, (frames[f].0,), data[f * channels]),
        c == 1 ==> call_ensures(conv, (frames[f].1,), data[f * channels + 1]),
        c >= 2 ==> data[f * channels + c] == zero,
{
    vstd::arithmetic::div_mod::lemma_fundamental_div_mod_converse(f * channels + c, channels, f, c);
}

/// The energy of frames is the sum of the squares of their samples: none without frames, and
/// with one more frame that much more.
pub proof fn law_energy(frames: Seq<(i16, i16)>, l: i16, r: i16)
    ensures
        energy_of(Seq::empty()) == 0,
        energy_of(frames.push((l, r))) == energy_of(frames) + l * l + r * r,
{
    assert(frames.push((l, r)).drop_last() =~= frames);
}

/// Samples two by two are frames, and the sum of a frame is that of its samples.
pub proof fn law_pairs_and_sums(
    samples: &Vec<i16>,
    frames: Vec<(i16, i16)>,
    sums: Vec<i32>,
    total: u128,
    f: int,
)
    requires
        call_ensures(pairs, (samples,), frames),
        call_ensures(channel_sums, (&frames,), sums),
        call_ensures(energy, (&frames,), total),
        0 <= f,
        2 * f + 1 < samples@.len(),
    ensures
        f < frames@.len(),
        frames@[f].0 == samples@[2 * f],
        frames@[f].1 == samples@[2 * f + 1],
        sums@.len() == frames@.len(),
        sums@[f] == samples@[2 * f] + samples@[2 * f + 1],
        total == energy_of(frames@),
        2 * frames@.len() <= samples@.len() < 2 * frames@.len() + 2,
{
    assert(f < frames@.len());
    assert(frames@[f] == (samples@[2 * f], samples@[2 * f + 1]));
}

/// The device that is found has the name, and no earlier one has it; none is found only where
/// none has it.
pub proof fn law_devices(names: &Vec<Option<String>>, wanted: &str, r: Option<usize>, k: int)
    requires
        call_ensures(find_device, (names, wanted), r),
    ensures
        r is Some ==> r->Some_0 < names@.len() && names@[r->Some_0 as int] is Some
            && names@[r->Some_0 as int]->Some_0@ == wanted@,
        0 <= k < names@.len() && names@[k] is Some && names@[k]->Some_0@ == wanted@ ==> r is Some
            && r->Some_0 <= k,
{
    if 0 <= k < names@.len() && names@[k] is Some && names@[k]->Some_0@ == wanted@ {
        assert(crate::model::option_view(names@[k]) == Some(wanted@));
    }
}

/// The range can carry the call: 48000 samples a second in a form that is understood.
pub open spec fn carries(range: StreamRange) -> bool {
    range.min_rate <= 48000 && 48000 <= range.max_rate && range.usable
}

/// The format to use in place of the device's own: none where that has 48000 samples a second;
/// otherwise one that carries the call, with the device's own number of channels where one of
/// those does, and the first such; none only where none carries it.
pub proof fn law_formats(
    rate: u32,
    channels: u16,
    ranges: &Vec<StreamRange>,
    r: Option<usize>,
    k: int,
)
    requires
        call_ensures(config_48k, (rate, channels, ranges), r),
    ensures
        rate == 48000 ==> r is None,
        r is Some ==> r->Some_0 < ranges@.len() && carries(ranges@[r->Some_0 as int]),
        rate != 48000 && 0 <= k < ranges@.len() && carries(ranges@[k]) ==> r is Some,
        rate != 48000 && 0 <= k < ranges@.len() && carries(ranges@[k]) && ranges@[k].channels
            == channels ==> r is Some && ranges@[r->Some_0 as int].channels == channels
            && r->Some_0 <= k,
        rate != 48000 && 0 <= k < ranges@.len() && carries(ranges@[k]) && (forall|j: int|
            0 <= j < ranges@.len() && carries(#[trigger] ranges@[j]) ==> ranges@[j].channels
                != channels) ==> r is Some && r->Some_0 <= k,
{
    if rate != 48000 && 0 <= k < ranges@.len() && carries(ranges@[k]) {
        assert(ranges@[k].fits(None));
        if ranges@[k].channels == channels {
            assert(ranges@[k].fits(Some(channels)));
        }
    }
}

/// The entry that is shown as chosen is the one that stands for the device: choosing it again
/// gives the same device, and the system's own choice is shown where the device is gone.
pub proof fn law_menu_of_devices(
    names: &Vec<String>,
    name: &str,
    index: usize,
    chosen: Option<String>,
    k: int,
)
    requires
        call_ensures(device_index, (names, Some(name)), index),
        index <= i32::MAX,
        call_ensures(device_at, (names, index as i32), chosen),
    ensures
        0 <= k < names@.len() && names@[k]@ == name@ ==> {
            &&& 1 <= index <= k + 1
            &&& chosen is Some
            &&& chosen->Some_0@ == name@
        },
        index == 0 ==> chosen is None && forall|j: int|
            0 <= j < names@.len() ==> (#[trigger] names@[j])@ != name@,
{
    if 0 <= k < names@.len() && names@[k]@ == name@ {
        assert(crate::ui::settings::named_before(names@, name@, names@.len() as int));
    }
    if index == 0 {
        assert forall|j: int| 0 <= j < names@.len() implies (#[trigger] names@[j])@ != name@ by {
            if names@[j]@ == name@ {
                assert(crate::ui::settings::named_before(names@, name@, names@.len() as int));
            }
        }
    }
}

/// The device behind an entry is the one before it in the list, counted from one; the first
/// entry, zero, stands for none.
pub proof fn law_entries_of_devices(names: &Vec<String>, index: i32, r: Option<String>)
    requires
        call_ensures(device_at, (names, index), r),
    ensures
        index <= 0 || index > names@.len() ==> r is None,
        1 <= index <= names@.len() ==> r is Some && r->Some_0@ == names@[index - 1]@,
{
}

/// What a loop over the microphone does when another device was chosen, and what a menu shows
/// when none was.
pub proof fn law_other_devices(
    opened: u64,
    generation: u64,
    buffered: usize,
    step: LoopStep,
    names: &Vec<String>,
    index: usize,
)
    requires
        opened != generation,
        call_ensures(loop_step, (false, opened, generation, buffered), step),
        call_ensures(device_index, (names, None), index),
    ensures
        step == LoopStep::Reopen,
        index == 0,
{
}

/// A text for a menu is written character by character.
pub proof fn law_menu_text(s: Seq<char>, c: char)
    ensures
        menu_text(Seq::empty()) == Seq::<char>::empty(),
        c == '\\' || c == '/' || c == '_' || c == '&' ==> menu_text(s.push(c)) == menu_text(s)
            + seq!['\\', c],
        c == '|' ==> menu_text(s.push(c)) == menu_text(s) + seq!['¦'],
        c != '\\' && c != '/' && c != '_' && c != '&' && c != '|' ==> menu_text(s.push(c))
            == menu_text(s).push(c),
{
    assert(s.push(c).drop_last() =~= s);
    assert(menu_text(s) + seq![c] =~= menu_text(s).push(c));
}

/// Each setting that is set is what is read, within its range.
pub proof fn law_set_and_read(
    a: &mut AudioOptions,
    pct: u32,
    d1: (),
    in_after: &AudioOptions,
    input: u32,
    b: &mut AudioOptions,
    d2: (),
    out_after: &AudioOptions,
    output: u32,
    c: &mut AudioOptions,
    mode: NoiseMode,
    d3: (),
    noise_after: &AudioOptions,
    noise: NoiseMode,
    d: &mut AudioOptions,
    on: bool,
    d4: (),
    aec_after: &AudioOptions,
    aec: bool,
    e: &mut AudioOptions,
    db: i32,
    d5: (),
    db_after: &AudioOptions,
    silence: i32,
    f: &mut AudioOptions,
    d6: (),
    auto_after: &AudioOptions,
    auto: bool,
)
    requires
        call_ensures(AudioOptions::set_input_volume, (a, pct), d1),
        *in_after == *final(a),
        call_ensures(AudioOptions::input_volume, (in_after,), input),
        call_ensures(AudioOptions::set_output_volume, (b, pct), d2),
        *out_after == *final(b),
        call_ensures(AudioOptions::output_volume, (out_after,), output),
        call_ensures(AudioOptions::set_noise_mode, (c, mode), d3),
        *noise_after == *final(c),
        call_ensures(AudioOptions::noise_mode, (noise_after,), noise),
        call_ensures(AudioOptions::set_aec, (d, on), d4),
        *aec_after == *final(d),
        call_ensures(AudioOptions::aec_enabled, (aec_after,), aec),
        call_ensures(AudioOptions::set_sensitivity_db, (e, db), d5),
        *db_after == *final(e),
        call_ensures(AudioOptions::sensitivity_db, (db_after,), silence),
        call_ensures(AudioOptions::set_auto_sensitivity, (f, on), d6),
        *auto_after == *final(f),
        call_ensures(AudioOptions::auto_sensitivity, (auto_after,), auto),
    ensures
        input == capped(pct, 200),
        output == capped(pct, 200),
        noise == mode,
        aec == on,
        silence == level(db),
        auto == on,
        !on ==> final(d)@.far_ref.len() == 0,
        on ==> final(d)@.far_ref == old(d)@.far_ref,
        final(a)@.output_volume == old(a)@.output_volume,
        final(b)@.input_volume == old(b)@.input_volume,
        final(c)@.agc == old(c)@.agc,
        final(e)@.auto_sensitivity == old(e)@.auto_sensitivity,
        final(f)@.sensitivity_db == old(f)@.sensitivity_db,
{
}

/// The settings before any are put in force: full volume, the strongest way against noise, the
/// ducker against echo, quiet voices turned up, and no canceller.
pub proof fn law_settings_at_the_start(
    o: AudioOptions,
    chain: Chain,
    input: u32,
    output: u32,
    db: i32,
)
    requires
        call_ensures(AudioOptions::new, (), o),
        call_ensures(AudioOptions::chain, (&o,), chain),
        call_ensures(AudioOptions::input_volume, (&o,), input),
        call_ensures(AudioOptions::output_volume, (&o,), output),
        call_ensures(AudioOptions::sensitivity_db, (&o,), db),
    ensures
        input == 100 && output == 100 && db == -60,
        !chain.scale,
        chain.echo == EchoStage::Duck,
        chain.noise == NoiseMode::VoiceIsolation,
        chain.agc,
{
}

/// The samples of a microphone with one channel are all there, in order, each twice; of one
/// with several the first two of every frame are.
pub proof fn law_input_is_taken<T: Copy, F: Fn(T) -> i16>(
    out: &mut VecDeque<i16>,
    data: &[T],
    in_ch: usize,
    conv: F,
    done: (),
    f: int,
)
    requires
        call_ensures(push_input_i16::<T, F>, (out, data, in_ch, conv), done),
        in_ch > 0,
        f >= 0,
        f * in_ch < data@.len(),
    ensures
        ({
            let at = old(out)@.len() + 2 * f;
            &&& at + 1 < final(out)@.len()
            &&& call_ensures(conv, (data@[f * in_ch],), final(out)@[at])
            &&& in_ch == 1 ==> final(out)@[at + 1] == final(out)@[at]
            &&& in_ch >= 2 ==> call_ensures(conv, (data@[f * in_ch + 1],), final(out)@[at + 1])
        }),
        final(out)@.take(old(out)@.len() as int) == old(out)@,
{
    law_frame_counts(data@.len() as int, in_ch as int);
    let n = frames_in(data@.len() as int, in_ch as int);
    assert(f < n) by (nonlinear_arith)
        requires
            f * in_ch < data@.len(),
            n * in_ch >= data@.len(),
            in_ch > 0,
    ;
    let added = final(out)@.skip(old(out)@.len() as int);
    assert(final(out)@.len() >= old(out)@.len());
    assert(added.len() == 2 * n);
    assert(input_taken(conv, data@, in_ch as int, added));
    assert(input_frame(conv, data@, in_ch as int, added, f));
}

/// A slot of a device holds a sample, scaled for the volume and converted for the device.
pub open spec fn plays<T, S: Fn(i16) -> i16, C: Fn(i16) -> T>(
    scale: S,
    conv: C,
    sample: i16,
    slot: T,
) -> bool {
    exists|v: i16| call_ensures(scale, (sample,), v) && #[trigger] call_ensures(conv, (v,), slot)
}

/// The sample that is to be heard: none while nothing is, and none past the end.
pub open spec fn heard(src: Seq<i16>, silent: bool, k: int) -> i16 {
    if silent || k >= src.len() {
        0
    } else {
        src[k]
    }
}

/// What a device plays: in the first channel of each frame the left sample in its turn, in the
/// second the right one, nothing in further ones. What was played is gone, and while nothing is
/// to be heard all of it stays.
pub proof fn law_output_is_played<T: Copy, S: Fn(i16) -> i16, C: Fn(i16) -> T>(
    data: &mut [T],
    src: &mut VecDeque<i16>,
    out_ch: usize,
    silent: bool,
    scale: S,
    conv: C,
    zero: T,
    r: Vec<(i16, i16)>,
    f: int,
    c: int,
)
    requires
        call_ensures(
            fill_output::<T, S, C>,
            (data, src, out_ch, silent, scale, conv, zero),
            r,
        ),
        f >= 0,
        0 <= c < out_ch,
        f * out_ch + c < old(data)@.len(),
    ensures
        final(data)@.len() == old(data)@.len(),
        c == 0 ==> plays(scale, conv, heard(old(src)@, silent, 2 * f), final(data)@[f * out_ch]),
        c == 1 ==> plays(
            scale,
            conv,
            heard(old(src)@, silent, 2 * f + 1),
            final(data)@[f * out_ch + 1],
        ),
        c >= 2 ==> final(data)@[f * out_ch + c] == zero,
        f < r@.len(),
        call_ensures(scale, (heard(old(src)@, silent, 2 * f),), r@[f].0),
        call_ensures(scale, (heard(old(src)@, silent, 2 * f + 1),), r@[f].1),
        silent ==> final(src)@ == old(src)@,
        !silent && 2 * r@.len() <= old(src)@.len() ==> final(src)@ == old(src)@.skip(
            2 * r@.len() as int,
        ),
        !silent && 2 * r@.len() > old(src)@.len() ==> final(src)@.len() == 0,
{
    let ch = out_ch as int;
    let len = old(data)@.len() as int;
    lemma_frame_of_slot(len, ch, f, c);
    assert(final(data)@.len() == old(data)@.len());
    assert(frames_scaled(scale, old(src)@, silent, false, r@));
    assert(slots_filled(conv, r@, ch, zero, final(data)@));
    assert(scaled_frame(scale, old(src)@, silent, false, r@, f));
    assert(f * out_ch + c >= 0) by (nonlinear_arith)
        requires
            f >= 0,
            c >= 0,
            out_ch >= 0,
    ;
    assert(filled_slot(conv, r@, ch, zero, final(data)@, f * ch + c));
    law_slots(conv, r@, ch, zero, final(data)@, f, c);
    law_what_is_heard(old(src)@, 0, r@.len() as int);
}

/// What was resampled for a device is played in the same way, whole frames only.
pub proof fn law_resampled_is_played<T: Copy, S: Fn(i16) -> i16, C: Fn(i16) -> T>(
    data: &mut [T],
    native: &mut VecDeque<i16>,
    out_ch: usize,
    silent: bool,
    scale: S,
    conv: C,
    zero: T,
    done: (),
    f: int,
    c: int,
)
    requires
        call_ensures(
            drain_output::<T, S, C>,
            (data, native, out_ch, silent, scale, conv, zero),
            done,
        ),
        f >= 0,
        0 <= c < out_ch,
        f * out_ch + c < old(data)@.len(),
    ensures
        final(data)@.len() == old(data)@.len(),
        2 * f + 1 < old(native)@.len() || silent ==> {
            &&& c == 0 ==> plays(
                scale,
                conv,
                heard(old(native)@, silent, 2 * f),
                final(data)@[f * out_ch],
            )
            &&& c == 1 ==> plays(
                scale,
                conv,
                heard(old(native)@, silent, 2 * f + 1),
                final(data)@[f * out_ch + 1],
            )
        },
        2 * f + 1 >= old(native)@.len() ==> {
            &&& c == 0 ==> plays(scale, conv, 0, final(data)@[f * out_ch])
            &&& c == 1 ==> plays(scale, conv, 0, final(data)@[f * out_ch + 1])
        },
        c >= 2 ==> final(data)@[f * out_ch + c] == zero,
        silent ==> final(native)@ == old(native)@,
        !silent && 2 * old(data)@.len() <= old(native)@.len() * out_ch && old(data)@.len() % (
        out_ch as nat) == 0 ==> final(native)@ == old(native)@.skip(
            2 * (old(data)@.len() as int / out_ch as int),
        ),
{
    let ch = out_ch as int;
    let len = old(data)@.len() as int;
    let n = frames_in(len, ch);
    lemma_frame_of_slot(len, ch, f, c);
    assert(final(data)@.len() == old(data)@.len());
    let frames = choose|frames: Seq<(i16, i16)>|
        {
            &&& frames.len() == n
            &&& #[trigger] frames_scaled(scale, old(native)@, silent, true, frames)
            &&& slots_filled(conv, frames, ch, zero, final(data)@)
        };
    assert(scaled_frame(scale, old(native)@, silent, true, frames, f));
    assert(f * out_ch + c >= 0) by (nonlinear_arith)
        requires
            f >= 0,
            c >= 0,
            out_ch >= 0,
    ;
    assert(filled_slot(conv, frames, ch, zero, final(data)@, f * ch + c));
    law_slots(conv, frames, ch, zero, final(data)@, f, c);
    law_what_is_heard(old(native)@, 0, n);
    if len % ch == 0 && 2 * len <= old(native)@.len() * ch {
        let q = len / ch;
        vstd::arithmetic::div_mod::lemma_fundamental_div_mod(len, ch);
        assert(len + ch - 1 == q * ch + (ch - 1)) by (nonlinear_arith)
            requires
                len == ch * q,
        ;
        vstd::arithmetic::div_mod::lemma_fundamental_div_mod_converse(len + ch - 1, ch, q, ch - 1);
        let m = old(native)@.len() as int;
        assert(2 * q <= m) by (nonlinear_arith)
            requires
                len == ch * q,
                2 * len <= m * ch,
                ch > 0,
        ;
    }
}

proof fn lemma_frame_of_slot(len: int, ch: int, f: int, c: int)
    requires
        f >= 0,
        0 <= c < ch,
        f * ch + c < len,
    ensures
        0 <= f < frames_in(len, ch),
{
    law_frame_counts(len, ch);
    let n = frames_in(len, ch);
    assert(f < n) by (nonlinear_arith)
        requires
            f * ch < len,
            n * ch >= len,
            ch > 0,
    ;
}

/// What is said of echo and of quiet voices is what is done: without the ducker and the
/// canceller nothing is done against echo.
pub proof fn law_echo_and_quiet_voices(
    a: &mut AudioOptions,
    duck: bool,
    d1: (),
    b: &mut AudioOptions,
    up: bool,
    d2: (),
    after: &AudioOptions,
    aec: bool,
    chain: Chain,
)
    requires
        call_ensures(AudioOptions::set_echo_suppress, (a, duck), d1),
        *old(b) == *final(a),
        call_ensures(AudioOptions::set_agc, (b, up), d2),
        *after == *final(b),
        call_ensures(AudioOptions::aec_enabled, (after,), aec),
        call_ensures(AudioOptions::chain, (after,), chain),
    ensures
        chain.agc == up,
        !aec && duck ==> chain.echo == EchoStage::Duck,
        !aec && !duck ==> chain.echo == EchoStage::Keep,
        aec ==> chain.echo == EchoStage::Cancel,
{
}

/// What is shown of a name in a menu has each special character escaped.
pub proof fn law_menu_names(s: &str, r: String, i: int)
    requires
        call_ensures(menu_escape, (s,), r),
    ensures
        r@ == menu_text(s@),
        (forall|k: int| 0 <= k < s@.len() ==> !special(#[trigger] s@[k])) ==> r@ == s@,
{
    if forall|k: int| 0 <= k < s@.len() ==> !special(#[trigger] s@[k]) {
        lemma_plain_names(s@);
    }
}

/// The characters that mean something in a menu.
pub open spec fn special(c: char) -> bool {
    c == '\\' || c == '/' || c == '_' || c == '&' || c == '|'
}

proof fn lemma_plain_names(s: Seq<char>)
    requires
        forall|k: int| 0 <= k < s.len() ==> !special(#[trigger] s[k]),
    ensures
        menu_text(s) == s,
    decreases s.len(),
{
    if s.len() == 0 {
        law_menu_text(s, 'a');
        assert(s =~= Seq::empty());
    } else {
        let rest = s.drop_last();
        assert forall|k: int| 0 <= k < rest.len() implies !special(#[trigger] rest[k]) by {
            assert(rest[k] == s[k]);
        }
        lemma_plain_names(rest);
        assert(!special(s.last()));
        law_menu_text(rest, s.last());
        assert(s =~= rest.push(s.last()));
    }
}

/// Each setting that is set leaves all others.
pub proof fn law_setting_one_leaves_the_rest(
    a: &mut AudioOptions,
    pct: u32,
    d1: (),
    b: &mut AudioOptions,
    d2: (),
    c: &mut AudioOptions,
    mode: NoiseMode,
    d3: (),
    d: &mut AudioOptions,
    on: bool,
    d4: (),
    e: &mut AudioOptions,
    db: i32,
    d5: (),
    f: &mut AudioOptions,
    d6: (),
    g: &mut AudioOptions,
    d7: (),
    h: &mut AudioOptions,
    d8: (),
    i: &mut AudioOptions,
    d9: (),
)
    requires
        call_ensures(AudioOptions::set_input_volume, (a, pct), d1),
        call_ensures(AudioOptions::set_output_volume, (b, pct), d2),
        call_ensures(AudioOptions::set_noise_mode, (c, mode), d3),
        call_ensures(AudioOptions::set_aec, (d, on), d4),
        call_ensures(AudioOptions::set_sensitivity_db, (e, db), d5),
        call_ensures(AudioOptions::set_auto_sensitivity, (f, on), d6),
        call_ensures(AudioOptions::set_echo_suppress, (g, on), d7),
        call_ensures(AudioOptions::set_agc, (h, on), d8),
        call_ensures(AudioOptions::set_mic_level, (i, pct), d9),
    ensures
        final(a)@ == (OptionsView { input_volume: final(a)@.input_volume, ..old(a)@ }),
        final(b)@ == (OptionsView { output_volume: final(b)@.output_volume, ..old(b)@ }),
        final(c)@ == (OptionsView { noise_mode: mode, ..old(c)@ }),
        final(d)@ == (OptionsView { aec_enabled: on, far_ref: final(d)@.far_ref, ..old(d)@ }),
        final(e)@ == (OptionsView { sensitivity_db: final(e)@.sensitivity_db, ..old(e)@ }),
        final(f)@ == (OptionsView { auto_sensitivity: on, ..old(f)@ }),
        final(g)@ == (OptionsView { echo_suppress: on, ..old(g)@ }),
        final(h)@ == (OptionsView { agc: on, ..old(h)@ }),
        final(i)@ == (OptionsView { mic_level: final(i)@.mic_level, ..old(i)@ }),
{
}

/// A device that is chosen is the one that is read, and the other one stays.
pub proof fn law_chosen_devices(
    a: &mut AudioOptions,
    name: Option<String>,
    da: (),
    after_a: &AudioOptions,
    microphone: Option<String>,
    b: &mut AudioOptions,
    db: (),
    after_b: &AudioOptions,
    speaker: Option<String>,
)
    requires
        call_ensures(AudioOptions::set_input_device, (a, name), da),
        *after_a == *final(a),
        call_ensures(AudioOptions::input_device, (after_a,), microphone),
        call_ensures(AudioOptions::set_output_device, (b, name), db),
        *after_b == *final(b),
        call_ensures(AudioOptions::output_device, (after_b,), speaker),
    ensures
        same_choice(microphone, name),
        same_choice(speaker, name),
        final(a)@ == (OptionsView {
            input_device: final(a)@.input_device,
            device_generation: final(a)@.device_generation,
            ..old(a)@
        }),
        final(b)@ == (OptionsView {
            output_device: final(b)@.output_device,
            device_generation: final(b)@.device_generation,
            ..old(b)@
        }),
{
}

/// The newest of what is played stays for the echo canceller where there is too much, and what
/// is taken is the oldest, in order.
pub proof fn law_echo_reference_keeps_the_newest(
    a: &mut AudioOptions,
    sums: &[i32],
    done: (),
    b: &mut AudioOptions,
    n: usize,
    taken: Vec<i32>,
    i: int,
)
    requires
        call_ensures(AudioOptions::push_far_ref, (a, sums), done),
        call_ensures(AudioOptions::take_far_ref, (b, n), taken),
    ensures
        ({
            let all = old(a)@.far_ref + sums@;
            old(a)@.aec_enabled && all.len() > 24000 ==> final(a)@.far_ref == all.skip(
                all.len() - 24000,
            )
        }),
        final(a)@ == (OptionsView { far_ref: final(a)@.far_ref, ..old(a)@ }),
        0 <= i < n && i < old(b)@.far_ref.len() ==> taken@[i] == old(b)@.far_ref[i],
        n <= old(b)@.far_ref.len() ==> final(b)@.far_ref == old(b)@.far_ref.skip(n as int),
        n > old(b)@.far_ref.len() ==> final(b)@.far_ref.len() == 0,
        final(b)@ == (OptionsView { far_ref: final(b)@.far_ref, ..old(b)@ }),
{
    let all = old(a)@.far_ref + sums@;
    if old(a)@.aec_enabled && all.len() > 24000 {
        assert(final(a)@.far_ref =~= all.skip(all.len() - 24000));
    }
    if 0 <= i < n {
        assert(taken@[i] == (if i < old(b)@.far_ref.len() {
            old(b)@.far_ref[i]
        } else {
            0
        }));
    }
}

} // verus!
