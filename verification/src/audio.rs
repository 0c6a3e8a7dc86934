//! Audio between the window, the sound devices and the call: the settings in force, which
//! steps the microphone goes through, and how samples move between buffers and devices.

use std::collections::VecDeque;

use vstd::prelude::*;

use crate::config::{NoiseMode, SettingsView, VoiceSettings};
use crate::model::{copy_option, option_view};
use crate::ring::{keep_last, last_of};

pub mod devices;
pub mod stream;

verus! {

/// Samples a second.
pub const SAMPLE_RATE: u32 = 48_000;

/// Channels.
pub const CHANNELS: usize = 2;

/// Samples of each channel in a frame of 20 ms.
pub const FRAME_SAMPLES: usize = 960;

/// Samples in a frame of 20 ms.
pub const FRAME_LEN: usize = 1920;

/// The most samples that a buffer holds: one second.
pub const MAX_BUFFERED: usize = 96_000;

/// The most samples of what is played that are kept for the echo canceller: half a second.
pub const MAX_FAR: usize = 24_000;

/// The settings in force.
pub struct AudioOptions {
    input_volume: u32,
    output_volume: u32,
    echo_suppress: bool,
    noise_mode: NoiseMode,
    agc: bool,
    auto_sensitivity: bool,
    sensitivity_db: i32,
    mic_level: u32,
    input_device: Option<String>,
    output_device: Option<String>,
    device_generation: u64,
    aec_enabled: bool,
    far_ref: VecDeque<i32>,
}

/// The settings in force, in contracts.
pub struct OptionsView {
    pub input_volume: u32,
    pub output_volume: u32,
    pub echo_suppress: bool,
    pub noise_mode: NoiseMode,
    pub agc: bool,
    pub auto_sensitivity: bool,
    pub sensitivity_db: i32,
    pub mic_level: u32,
    pub input_device: Option<Seq<char>>,
    pub output_device: Option<Seq<char>>,
    pub device_generation: u64,
    pub aec_enabled: bool,
    pub far_ref: Seq<i32>,
}

impl View for AudioOptions {
    type V = OptionsView;

    closed spec fn view(&self) -> OptionsView {
        OptionsView {
            input_volume: self.input_volume,
            output_volume: self.output_volume,
            echo_suppress: self.echo_suppress,
            noise_mode: self.noise_mode,
            agc: self.agc,
            auto_sensitivity: self.auto_sensitivity,
            sensitivity_db: self.sensitivity_db,
            mic_level: self.mic_level,
            input_device: option_view(self.input_device),
            output_device: option_view(self.output_device),
            device_generation: self.device_generation,
            aec_enabled: self.aec_enabled,
            far_ref: self.far_ref@,
        }
    }
}

/// A number that is no larger than `max`.
pub open spec fn at_most(n: u32, max: u32) -> u32 {
    if n > max {
        max
    } else {
        n
    }
}

/// A level within the range of the slider.
pub open spec fn level_in_range(db: i32) -> i32 {
    if db < -100 {
        -100i32
    } else if db > 0 {
        0
    } else {
        db
    }
}

/// The generation after `n`; it wraps.
pub open spec fn next_generation(n: u64) -> u64 {
    if n == u64::MAX {
        0
    } else {
        (n + 1) as u64
    }
}

impl OptionsView {
    /// The settings are in their ranges, and what is kept for the echo canceller is bounded
    /// and empty while it is off.
    pub open spec fn wf(self) -> bool {
        &&& self.input_volume <= 200
        &&& self.output_volume <= 200
        &&& -100 <= self.sensitivity_db <= 0
        &&& self.mic_level <= 100
        &&& self.far_ref.len() <= MAX_FAR
        &&& !self.aec_enabled ==> self.far_ref.len() == 0
    }

    /// The settings with the echo canceller on or off.
    pub open spec fn with_aec(self, on: bool) -> OptionsView {
        OptionsView {
            aec_enabled: on,
            far_ref: if on {
                self.far_ref
            } else {
                Seq::empty()
            },
            ..self
        }
    }

    /// The settings after the user's preferences were put in force.
    pub open spec fn with_settings(self, v: SettingsView) -> OptionsView {
        OptionsView {
            input_volume: at_most(v.input_volume, 200),
            output_volume: at_most(v.output_volume, 200),
            echo_suppress: v.echo_suppression,
            noise_mode: v.noise_mode,
            agc: v.auto_gain,
            auto_sensitivity: v.auto_sensitivity,
            sensitivity_db: level_in_range(v.sensitivity_db),
            input_device: v.input_device,
            output_device: v.output_device,
            device_generation: next_generation(next_generation(self.device_generation)),
            ..self.with_aec(v.aec)
        }
    }
}

/// The settings of the user are the ones in force.
pub open spec fn in_force(options: OptionsView, v: SettingsView) -> bool {
    &&& options.input_volume == at_most(v.input_volume, 200)
    &&& options.output_volume == at_most(v.output_volume, 200)
    &&& options.echo_suppress == v.echo_suppression
    &&& options.noise_mode == v.noise_mode
    &&& options.agc == v.auto_gain
    &&& options.aec_enabled == v.aec
    &&& options.auto_sensitivity == v.auto_sensitivity
    &&& options.sensitivity_db == level_in_range(v.sensitivity_db)
    &&& options.input_device == v.input_device
    &&& options.output_device == v.output_device
}

/// What is done against the echo of what is played.
#[derive(Clone, Copy, Debug, PartialEq, Eq, Structural)]
pub enum EchoStage {
    /// Nothing.
    Keep,
    /// The microphone is turned down.
    Duck,
    /// The echo is computed and taken out.
    Cancel,
}

/// The steps that the microphone goes through, in this order: volume, echo, noise, gain.
#[derive(Clone, Copy, Debug, PartialEq, Eq, Structural)]
pub struct Chain {
    /// Whether the volume changes anything.
    pub scale: bool,
    /// What is done against echo.
    pub echo: EchoStage,
    /// What is done against noise.
    pub noise: NoiseMode,
    /// Whether quiet voices are turned up.
    pub agc: bool,
}

impl AudioOptions {
    /// The settings before any are put in force.
    pub fn new() -> (r: AudioOptions)
        ensures
            r@.wf(),
            r@ == (OptionsView {
                input_volume: 100,
                output_volume: 100,
                echo_suppress: true,
                noise_mode: NoiseMode::VoiceIsolation,
                agc: true,
                auto_sensitivity: true,
                sensitivity_db: -60i32,
                mic_level: 0,
                input_device: None,
                output_device: None,
                device_generation: 0,
                aec_enabled: false,
                far_ref: Seq::empty(),
            }),
    {
        AudioOptions {
            input_volume: 100,
            output_volume: 100,
            echo_suppress: true,
            noise_mode: NoiseMode::VoiceIsolation,
            agc: true,
            auto_sensitivity: true,
            sensitivity_db: -60,
            mic_level: 0,
            input_device: None,
            output_device: None,
            device_generation: 0,
            aec_enabled: false,
            far_ref: VecDeque::new(),
        }
    }

    /// The volume of the microphone, in percent.
    pub fn input_volume(&self) -> (r: u32)
        ensures
            r == self@.input_volume,
    {
        self.input_volume
    }

    /// Sets the volume of the microphone, up to twice the normal one.
    pub fn set_input_volume(&mut self, pct: u32)
        ensures
            final(self)@ == (OptionsView { input_volume: at_most(pct, 200), ..old(self)@ }),
            old(self)@.wf() ==> final(self)@.wf(),
    {
        self.input_volume = if pct > 200 {
            200
        } else {
            pct
        };
    }

    /// The volume of the speaker, in percent.
    pub fn output_volume(&self) -> (r: u32)
        ensures
            r == self@.output_volume,
    {
        self.output_volume
    }

    /// Sets the volume of the speaker, up to twice the normal one.
    pub fn set_output_volume(&mut self, pct: u32)
        ensures
            final(self)@ == (OptionsView { output_volume: at_most(pct, 200), ..old(self)@ }),
            old(self)@.wf() ==> final(self)@.wf(),
    {
        self.output_volume = if pct > 200 {
            200
        } else {
            pct
        };
    }

    /// What is done against noise.
    pub fn noise_mode(&self) -> (r: NoiseMode)
        ensures
            r == self@.noise_mode,
    {
        self.noise_mode
    }

    /// Sets what is done against noise.
    pub fn set_noise_mode(&mut self, mode: NoiseMode)
        ensures
            final(self)@ == (OptionsView { noise_mode: mode, ..old(self)@ }),
            old(self)@.wf() ==> final(self)@.wf(),
    {
        self.noise_mode = mode;
    }

    /// Whether the echo canceller is on.
    pub fn aec_enabled(&self) -> (r: bool)
        ensures
            r == self@.aec_enabled,
    {
        self.aec_enabled
    }

    /// Turns the echo canceller on or off; off, nothing is kept for it.
    pub fn set_aec(&mut self, on: bool)
        ensures
            final(self)@ == old(self)@.with_aec(on),
            old(self)@.wf() ==> final(self)@.wf(),
    {
        self.aec_enabled = on;
        if !on {
            self.far_ref.clear();
        }
    }

    /// Keeps what is played for the echo canceller, as sums of both channels, while it is
    /// on; the oldest goes where there is too much.
    pub fn push_far_ref(&mut self, sums: &[i32])
        ensures
            final(self)@ == (if old(self)@.aec_enabled {
                OptionsView {
                    far_ref: last_of(old(self)@.far_ref + sums@, MAX_FAR as nat),
                    ..old(self)@
                }
            } else {
                old(self)@
            }),
            old(self)@.wf() ==> final(self)@.wf(),
    {
        if !self.aec_enabled {
            return;
        }
        let mut i: usize = 0;
        assert(sums@.take(0) =~= Seq::<i32>::empty());
        assert(self@.far_ref + sums@.take(0) =~= old(self)@.far_ref);
        while i < sums.len()
            invariant
                i <= sums@.len(),
                self@ == (OptionsView {
                    far_ref: old(self)@.far_ref + sums@.take(i as int),
                    ..old(self)@
                }),
            decreases sums@.len() - i,
        {
            self.far_ref.push_back(sums[i]);
            i = i + 1;
            assert(self@.far_ref =~= old(self)@.far_ref + sums@.take(i as int));
        }
        assert(sums@.take(i as int) =~= sums@);
        keep_last(&mut self.far_ref, MAX_FAR);
    }

    /// Takes `n` of what is kept for the echo canceller, with silence for what is missing.
    pub fn take_far_ref(&mut self, n: usize) -> (r: Vec<i32>)
        ensures
            r@.len() == n,
            forall|i: int|
                0 <= i < n ==> #[trigger] r@[i] == (if i < old(self)@.far_ref.len() {
                    old(self)@.far_ref[i]
                } else {
                    0
                }),
            final(self)@ == (OptionsView {
                far_ref: if n <= old(self)@.far_ref.len() {
                    old(self)@.far_ref.skip(n as int)
                } else {
                    Seq::empty()
                },
                ..old(self)@
            }),
            old(self)@.wf() ==> final(self)@.wf(),
    {
        let mut out: Vec<i32> = Vec::new();
        let ghost all = old(self)@.far_ref;
        assert(all.skip(0) =~= all);
        while out.len() < n
            invariant
                out@.len() <= n,
                all == old(self)@.far_ref,
                forall|i: int|
                    0 <= i < out@.len() ==> #[trigger] out@[i] == (if i < all.len() {
                        all[i]
                    } else {
                        0
                    }),
                self@ == (OptionsView {
                    far_ref: if out@.len() <= all.len() {
                        all.skip(out@.len() as int)
                    } else {
                        Seq::empty()
                    },
                    ..old(self)@
                }),
            decreases n - out@.len(),
        {
            let sample: i32 = match self.far_ref.pop_front() {
                Some(s) => s,
                None => 0,
            };
            out.push(sample);
            assert(self@.far_ref =~= if out@.len() <= all.len() {
                all.skip(out@.len() as int)
            } else {
                Seq::empty()
            });
        }
        out
    }

    /// Sets whether the microphone is turned down while others are heard.
    pub fn set_echo_suppress(&mut self, on: bool)
        ensures
            final(self)@ == (OptionsView { echo_suppress: on, ..old(self)@ }),
            old(self)@.wf() ==> final(self)@.wf(),
    {
        self.echo_suppress = on;
    }

    /// Sets whether quiet microphones are turned up.
    pub fn set_agc(&mut self, on: bool)
        ensures
            final(self)@ == (OptionsView { agc: on, ..old(self)@ }),
            old(self)@.wf() ==> final(self)@.wf(),
    {
        self.agc = on;
    }

    /// Whether the level of silence is found by itself.
    pub fn auto_sensitivity(&self) -> (r: bool)
        ensures
            r == self@.auto_sensitivity,
    {
        self.auto_sensitivity
    }

    /// Sets whether the level of silence is found by itself.
    pub fn set_auto_sensitivity(&mut self, on: bool)
        ensures
            final(self)@ == (OptionsView { auto_sensitivity: on, ..old(self)@ }),
            old(self)@.wf() ==> final(self)@.wf(),
    {
        self.auto_sensitivity = on;
    }

    /// The level of silence, in dBFS.
    pub fn sensitivity_db(&self) -> (r: i32)
        ensures
            r == self@.sensitivity_db,
    {
        self.sensitivity_db
    }

    /// Sets the level of silence, within the range of the slider.
    pub fn set_sensitivity_db(&mut self, db: i32)
        ensures
            final(self)@ == (OptionsView { sensitivity_db: level_in_range(db), ..old(self)@ }),
            old(self)@.wf() ==> final(self)@.wf(),
    {
        self.sensitivity_db = if db < -100 {
            -100
        } else if db > 0 {
            0
        } else {
            db
        };
    }

    /// The level of the microphone, in percent.
    pub fn mic_level(&self) -> (r: u32)
        ensures
            r == self@.mic_level,
    {
        self.mic_level
    }

    /// Sets the level of the microphone, in percent.
    pub fn set_mic_level(&mut self, pct: u32)
        ensures
            final(self)@ == (OptionsView { mic_level: at_most(pct, 100), ..old(self)@ }),
            old(self)@.wf() ==> final(self)@.wf(),
    {
        self.mic_level = if pct > 100 {
            100
        } else {
            pct
        };
    }

    /// The microphone that was chosen.
    pub fn input_device(&self) -> (r: Option<String>)
        ensures
            option_view(r) == self@.input_device,
    {
        copy_option(&self.input_device)
    }

    /// Chooses a microphone; the streams are then opened again.
    pub fn set_input_device(&mut self, name: Option<String>)
        ensures
            final(self)@ == (OptionsView {
                input_device: option_view(name),
                device_generation: next_generation(old(self)@.device_generation),
                ..old(self)@
            }),
            old(self)@.wf() ==> final(self)@.wf(),
    {
        self.input_device = name;
        self.device_generation = self.device_generation.wrapping_add(1);
    }

    /// The speaker that was chosen.
    pub fn output_device(&self) -> (r: Option<String>)
        ensures
            option_view(r) == self@.output_device,
    {
        copy_option(&self.output_device)
    }

    /// Chooses a speaker; the streams are then opened again.
    pub fn set_output_device(&mut self, name: Option<String>)
        ensures
            final(self)@ == (OptionsView {
                output_device: option_view(name),
                device_generation: next_generation(old(self)@.device_generation),
                ..old(self)@
            }),
            old(self)@.wf() ==> final(self)@.wf(),
    {
        self.output_device = name;
        self.device_generation = self.device_generation.wrapping_add(1);
    }

    /// A number that changes whenever a device is chosen.
    pub fn generation(&self) -> (r: u64)
        ensures
            r == self@.device_generation,
    {
        self.device_generation
    }

    /// The steps that the microphone goes through.
    pub fn chain(&self) -> (r: Chain)
        ensures
            r == (Chain {
                scale: self@.input_volume != 100,
                echo: if self@.aec_enabled {
                    EchoStage::Cancel
                } else if self@.echo_suppress {
                    EchoStage::Duck
                } else {
                    EchoStage::Keep
                },
                noise: self@.noise_mode,
                agc: self@.agc,
            }),
    {
        Chain {
            scale: self.input_volume != 100,
            echo: if self.aec_enabled {
                EchoStage::Cancel
            } else if self.echo_suppress {
                EchoStage::Duck
            } else {
                EchoStage::Keep
            },
            noise: self.noise_mode,
            agc: self.agc,
        }
    }
}

/// Puts the user's preferences in force.
pub fn apply_settings(options: &mut AudioOptions, v: &VoiceSettings)
    ensures
        final(options)@ == old(options)@.with_settings(v@),
        old(options)@.wf() ==> final(options)@.wf(),
{
    options.set_input_volume(v.input_volume);
    options.set_output_volume(v.output_volume);
    options.set_echo_suppress(v.echo_suppression);
    options.set_noise_mode(v.noise_mode);
    options.set_agc(v.auto_gain);
    options.set_aec(v.aec);
    options.set_auto_sensitivity(v.auto_sensitivity);
    options.set_sensitivity_db(v.sensitivity_db);
    options.set_input_device(copy_option(&v.input_device));
    options.set_output_device(copy_option(&v.output_device));
}

/// Drops the oldest samples until no more than `max` are left.
pub fn cap(b: &mut VecDeque<i16>, max: usize)
    ensures
        final(b)@ == last_of(old(b)@, max as nat),
{
    keep_last(b, max);
}

} // verus!
