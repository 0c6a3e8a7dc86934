//! The panel with the voice settings: what the menus show, and what a change does.

use vstd::prelude::*;

use crate::audio::{
    at_most, in_force, level_in_range, next_generation, AudioOptions, OptionsView,
};
use crate::config::{NoiseMode, SettingsView, VoiceSettings};
use crate::model::{copy_option, option_view};
use crate::text::{chars_of, same_text};

verus! {

/// How a character is written in a menu: those that have a meaning there are escaped, and
/// the one that cannot be is replaced.
pub open spec fn menu_char(c: char) -> Seq<char> {
    if c == '\\' || c == '/' || c == '_' || c == '&' {
        seq!['\\', c]
    } else if c == '|' {
        seq!['¦']
    } else {
        seq![c]
    }
}

/// How a text is written in a menu.
pub open spec fn menu_text(s: Seq<char>) -> Seq<char>
    decreases s.len(),
{
    if s.len() == 0 {
        s
    } else {
        menu_text(s.drop_last()) + menu_char(s.last())
    }
}

/// How a text is written in a menu.
pub fn menu_escape(s: &str) -> (r: String)
    ensures
        r@ == menu_text(s@),
{
    let chars = chars_of(s);
    let mut out = String::new();
    let mut i: usize = 0;
    assert(chars@.take(0) =~= Seq::<char>::empty());
    while i < chars.len()
        invariant
            i <= chars@.len(),
            out@ == menu_text(chars@.take(i as int)),
        decreases chars@.len() - i,
    {
        let c: char = chars[i];
        assert(chars@.take(i + 1).drop_last() =~= chars@.take(i as int));
        if c == '|' {
            out.push('¦');
        } else {
            if c == '\\' || c == '/' || c == '_' || c == '&' {
                out.push('\\');
            }
            out.push(c);
        }
        i = i + 1;
        assert(out@ =~= menu_text(chars@.take(i as int)));
    }
    assert(chars@.take(i as int) =~= chars@);
    out
}

/// A device with the name is among the first `n`.
pub open spec fn named_before(names: Seq<String>, name: Seq<char>, n: int) -> bool {
    exists|k: int| 0 <= k < n && (#[trigger] names[k])@ == name
}

/// The entry of a menu of devices to be shown as chosen: the first with the name, counted
/// from one; the system's own choice, zero, where none was chosen or it is gone.
pub fn device_index(names: &Vec<String>, current: Option<&str>) -> (r: usize)
    ensures
        r <= names@.len(),
        match current {
            Some(name) => if named_before(names@, name@, names@.len() as int) {
                r > 0 && names@[r - 1]@ == name@ && !named_before(names@, name@, r - 1)
            } else {
                r == 0
            },
            None => r == 0,
        },
{
    match current {
        Some(name) => {
            let mut i: usize = 0;
            while i < names.len()
                invariant
                    i <= names@.len(),
                    current is Some,
                    current->Some_0@ == name@,
                    !named_before(names@, name@, i as int),
                decreases names@.len() - i,
            {
                if same_text(names[i].as_str(), name) {
                    assert(names@[i as int]@ == name@);
                    assert(named_before(names@, name@, names@.len() as int));
                    return i + 1;
                }
                i = i + 1;
            }
            0
        },
        None => 0,
    }
}

/// The device behind an entry of the menu; none for the system's own choice.
pub fn device_at(names: &Vec<String>, index: i32) -> (r: Option<String>)
    ensures
        option_view(r) == (if 0 < index <= names@.len() {
            Some(names@[index - 1]@)
        } else {
            None
        }),
{
    if index <= 0 {
        return None;
    }
    let i: usize = (index - 1) as usize;
    if i < names.len() {
        Some(names[i].clone())
    } else {
        None
    }
}

/// A change of the voice settings.
pub enum Setting {
    /// The microphone.
    InputDevice(Option<String>),
    /// The speaker.
    OutputDevice(Option<String>),
    /// The volume of the microphone, in percent.
    InputVolume(u32),
    /// The volume of the speaker, in percent.
    OutputVolume(u32),
    /// Whether the level of silence is found by itself.
    AutoSensitivity(bool),
    /// The level of silence, in dBFS.
    Sensitivity(i32),
    /// Whether the microphone is turned down while others are heard.
    Echo(bool),
    /// What is done against noise.
    Noise(NoiseMode),
    /// Whether quiet voices are turned up.
    AutoGain(bool),
    /// Whether the echo is computed and taken out.
    Aec(bool),
}

/// The settings after a change.
pub open spec fn changed(v: SettingsView, change: Setting) -> SettingsView {
    match change {
        Setting::InputDevice(name) => SettingsView { input_device: option_view(name), ..v },
        Setting::OutputDevice(name) => SettingsView { output_device: option_view(name), ..v },
        Setting::InputVolume(n) => SettingsView { input_volume: n, ..v },
        Setting::OutputVolume(n) => SettingsView { output_volume: n, ..v },
        Setting::AutoSensitivity(on) => SettingsView { auto_sensitivity: on, ..v },
        Setting::Sensitivity(db) => SettingsView { sensitivity_db: db, ..v },
        Setting::Echo(on) => SettingsView { echo_suppression: on, ..v },
        Setting::Noise(mode) => SettingsView { noise_mode: mode, ..v },
        Setting::AutoGain(on) => SettingsView { auto_gain: on, ..v },
        Setting::Aec(on) => SettingsView { aec: on, ..v },
    }
}

/// What is in force after a change.
pub open spec fn applied(o: OptionsView, change: Setting) -> OptionsView {
    match change {
        Setting::InputDevice(name) => OptionsView {
            input_device: option_view(name),
            device_generation: next_generation(o.device_generation),
            ..o
        },
        Setting::OutputDevice(name) => OptionsView {
            output_device: option_view(name),
            device_generation: next_generation(o.device_generation),
            ..o
        },
        Setting::InputVolume(n) => OptionsView { input_volume: at_most(n, 200), ..o },
        Setting::OutputVolume(n) => OptionsView { output_volume: at_most(n, 200), ..o },
        Setting::AutoSensitivity(on) => OptionsView { auto_sensitivity: on, ..o },
        Setting::Sensitivity(db) => OptionsView { sensitivity_db: level_in_range(db), ..o },
        Setting::Echo(on) => OptionsView { echo_suppress: on, ..o },
        Setting::Noise(mode) => OptionsView { noise_mode: mode, ..o },
        Setting::AutoGain(on) => OptionsView { agc: on, ..o },
        Setting::Aec(on) => o.with_aec(on),
    }
}

/// Changes a setting: it is kept, and in force at once.
pub fn change_setting(voice: &mut VoiceSettings, options: &mut AudioOptions, change: Setting)
    ensures
        final(voice)@ == changed(old(voice)@, change),
        final(options)@ == applied(old(options)@, change),
        old(options)@.wf() ==> final(options)@.wf(),
{
    match change {
        Setting::InputDevice(name) => {
            options.set_input_device(copy_option(&name));
            voice.input_device = name;
        },
        Setting::OutputDevice(name) => {
            options.set_output_device(copy_option(&name));
            voice.output_device = name;
        },
        Setting::InputVolume(n) => {
            options.set_input_volume(n);
            voice.input_volume = n;
        },
        Setting::OutputVolume(n) => {
            options.set_output_volume(n);
            voice.output_volume = n;
        },
        Setting::AutoSensitivity(on) => {
            options.set_auto_sensitivity(on);
            voice.auto_sensitivity = on;
        },
        Setting::Sensitivity(db) => {
            options.set_sensitivity_db(db);
            voice.sensitivity_db = db;
        },
        Setting::Echo(on) => {
            options.set_echo_suppress(on);
            voice.echo_suppression = on;
        },
        Setting::Noise(mode) => {
            options.set_noise_mode(mode);
            voice.noise_mode = mode;
        },
        Setting::AutoGain(on) => {
            options.set_agc(on);
            voice.auto_gain = on;
        },
        Setting::Aec(on) => {
            options.set_aec(on);
            voice.aec = on;
        },
    }
}

/// What is in force stays what the user set, whichever setting changes.
pub proof fn lemma_changes_take_effect(options: OptionsView, v: SettingsView, change: Setting)
    requires
        in_force(options, v),
    ensures
        in_force(applied(options, change), changed(v, change)),
{
}

/// Whatever was in force before, the settings of the user are in force once they were put
/// in force.
pub proof fn lemma_settings_take_effect(options: OptionsView, v: SettingsView)
    ensures
        in_force(options.with_settings(v), v),
{
}

} // verus!
