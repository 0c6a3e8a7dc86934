//! The preferences that outlive the program: what the user follows, the last channels and
//! the voice settings. The token is not among them.

use vstd::prelude::*;

use crate::model::option_view;
use crate::text::same_text;

verus! {

/// How many messages each channel keeps, unless the user says otherwise.
pub const DEFAULT_HISTORY_LIMIT: usize = 100;

/// The volume at which nothing changes, in percent.
pub const DEFAULT_VOLUME: u32 = 100;

/// The level below which the microphone is taken to be silent, in dBFS.
pub const DEFAULT_SENSITIVITY: i32 = -60;

/// A voice channel that the user was in.
pub struct VoiceTarget {
    /// The server.
    pub guild_id: String,
    /// The channel.
    pub channel_id: String,
}

/// A voice channel that the user was in, in contracts: the server and the channel.
pub open spec fn target_view(target: Option<VoiceTarget>) -> Option<(Seq<char>, Seq<char>)> {
    match target {
        Some(t) => Some((t.guild_id@, t.channel_id@)),
        None => None,
    }
}

/// What is done against noise in the microphone.
#[derive(Clone, Copy, Debug, PartialEq, Eq, Structural)]
pub enum NoiseMode {
    /// Nothing.
    Off,
    /// A gate that closes while nobody speaks.
    Light,
    /// A network that tells the voice from the noise.
    VoiceIsolation,
}

impl NoiseMode {
    /// The mode for a number; whatever is not known is the strongest one.
    pub open spec fn of_number(v: u8) -> NoiseMode {
        if v == 0 {
            NoiseMode::Off
        } else if v == 1 {
            NoiseMode::Light
        } else {
            NoiseMode::VoiceIsolation
        }
    }

    /// The number of a mode.
    pub open spec fn number(self) -> u8 {
        match self {
            NoiseMode::Off => 0,
            NoiseMode::Light => 1,
            NoiseMode::VoiceIsolation => 2,
        }
    }

    /// The mode for a number.
    pub fn from_u8(v: u8) -> (r: NoiseMode)
        ensures
            r == NoiseMode::of_number(v),
    {
        if v == 0 {
            NoiseMode::Off
        } else if v == 1 {
            NoiseMode::Light
        } else {
            NoiseMode::VoiceIsolation
        }
    }

    /// The number of a mode.
    pub fn as_u8(self) -> (r: u8)
        ensures
            r == self.number(),
    {
        match self {
            NoiseMode::Off => 0,
            NoiseMode::Light => 1,
            NoiseMode::VoiceIsolation => 2,
        }
    }
}

/// A mode can be kept as its number, and a number below three comes back unchanged.
pub proof fn lemma_noise_mode_numbers(mode: NoiseMode, v: u8)
    ensures
        NoiseMode::of_number(mode.number()) == mode,
        v <= 2 ==> NoiseMode::of_number(v).number() == v,
{
}

/// The voice settings.
pub struct VoiceSettings {
    /// The microphone; none is the system's own choice.
    pub input_device: Option<String>,
    /// The speaker; none is the system's own choice.
    pub output_device: Option<String>,
    /// The volume of the microphone, in percent.
    pub input_volume: u32,
    /// The volume of the speaker, in percent.
    pub output_volume: u32,
    /// Whether the microphone is turned down while others are heard.
    pub echo_suppression: bool,
    /// What is done against noise.
    pub noise_mode: NoiseMode,
    /// Whether quiet microphones are turned up.
    pub auto_gain: bool,
    /// Whether the echo is computed and taken out.
    pub aec: bool,
    /// Whether the level of silence is found by itself.
    pub auto_sensitivity: bool,
    /// The level of silence, in dBFS, where it is not.
    pub sensitivity_db: i32,
}

/// The voice settings, in contracts.
pub struct SettingsView {
    pub input_device: Option<Seq<char>>,
    pub output_device: Option<Seq<char>>,
    pub input_volume: u32,
    pub output_volume: u32,
    pub echo_suppression: bool,
    pub noise_mode: NoiseMode,
    pub auto_gain: bool,
    pub aec: bool,
    pub auto_sensitivity: bool,
    pub sensitivity_db: i32,
}

impl View for VoiceSettings {
    type V = SettingsView;

    open spec fn view(&self) -> SettingsView {
        SettingsView {
            input_device: option_view(self.input_device),
            output_device: option_view(self.output_device),
            input_volume: self.input_volume,
            output_volume: self.output_volume,
            echo_suppression: self.echo_suppression,
            noise_mode: self.noise_mode,
            auto_gain: self.auto_gain,
            aec: self.aec,
            auto_sensitivity: self.auto_sensitivity,
            sensitivity_db: self.sensitivity_db,
        }
    }
}

impl SettingsView {
    /// The settings as they are before the user changes any.
    pub open spec fn initial() -> SettingsView {
        SettingsView {
            input_device: None,
            output_device: None,
            input_volume: DEFAULT_VOLUME,
            output_volume: DEFAULT_VOLUME,
            echo_suppression: true,
            noise_mode: NoiseMode::VoiceIsolation,
            auto_gain: false,
            aec: false,
            auto_sensitivity: true,
            sensitivity_db: DEFAULT_SENSITIVITY,
        }
    }
}

impl Default for VoiceSettings {
    /// The settings as they are before the user changes any.
    fn default() -> (r: VoiceSettings)
        ensures
            r@ == SettingsView::initial(),
    {
        VoiceSettings {
            input_device: None,
            output_device: None,
            input_volume: DEFAULT_VOLUME,
            output_volume: DEFAULT_VOLUME,
            echo_suppression: true,
            noise_mode: NoiseMode::VoiceIsolation,
            auto_gain: false,
            aec: false,
            auto_sensitivity: true,
            sensitivity_db: DEFAULT_SENSITIVITY,
        }
    }
}

/// The preferences.
pub struct Config {
    /// The channels that the user follows, in the order in which they were added.
    pub followed_channels: Vec<String>,
    /// The channel that was open last.
    pub last_channel: Option<String>,
    /// The voice channel that was joined last.
    pub last_voice: Option<VoiceTarget>,
    /// How many messages each channel keeps.
    pub history_limit: usize,
    /// The voice settings.
    pub voice: VoiceSettings,
}

/// The texts in a list without every `id`.
pub open spec fn without_text(list: Seq<Seq<char>>, id: Seq<char>) -> Seq<Seq<char>>
    decreases list.len(),
{
    if list.len() == 0 {
        list
    } else if list.last() == id {
        without_text(list.drop_last(), id)
    } else {
        without_text(list.drop_last(), id).push(list.last())
    }
}

/// The list with `id` at its end, unless it is in there already.
pub open spec fn with_text(list: Seq<Seq<char>>, id: Seq<char>) -> Seq<Seq<char>> {
    if list.contains(id) {
        list
    } else {
        list.push(id)
    }
}

/// What is taken out is gone, and nothing else is.
pub proof fn lemma_without_text(list: Seq<Seq<char>>, id: Seq<char>)
    ensures
        !without_text(list, id).contains(id),
        forall|other: Seq<char>|
            other != id ==> (#[trigger] without_text(list, id).contains(other) == list.contains(
                other,
            )),
        !list.contains(id) ==> without_text(list, id) == list,
    decreases list.len(),
{
    if list.len() > 0 {
        let front = list.drop_last();
        lemma_without_text(front, id);
        let rest = without_text(front, id);
        let last = list.last();
        assert(list =~= front.push(last));
        assert forall|t: Seq<char>| t != id implies (#[trigger] without_text(list, id).contains(t))
            == list.contains(t) by {
            lemma_push_contains(front, last, t);
            lemma_push_contains(rest, last, t);
            assert(rest.contains(t) == front.contains(t));
        }
        lemma_push_contains(rest, last, id);
        lemma_push_contains(front, last, id);
    }
}

proof fn lemma_push_contains(list: Seq<Seq<char>>, last: Seq<char>, t: Seq<char>)
    ensures
        list.push(last).contains(t) == (list.contains(t) || last == t),
{
    let grown = list.push(last);
    if list.contains(t) {
        let i = choose|i: int| 0 <= i < list.len() && list[i] == t;
        assert(grown[i] == t);
    }
    if last == t {
        assert(grown[list.len() as int] == t);
    }
    if grown.contains(t) {
        let i = choose|i: int| 0 <= i < grown.len() && grown[i] == t;
        if i < list.len() {
            assert(list[i] == t);
        }
    }
}

/// Following a channel twice is following it once, a channel that is followed is in the
/// list, and giving up a channel that was just added leaves the list as it was.
pub proof fn lemma_follow(list: Seq<Seq<char>>, id: Seq<char>)
    ensures
        with_text(list, id).contains(id),
        with_text(with_text(list, id), id) == with_text(list, id),
        !list.contains(id) ==> without_text(with_text(list, id), id) == list,
{
    lemma_push_contains(list, id, id);
    lemma_without_text(list, id);
    if !list.contains(id) {
        assert(list.push(id).drop_last() =~= list);
    }
}

impl Config {
    /// The channels that the user follows, in contracts.
    pub open spec fn followed(&self) -> Seq<Seq<char>> {
        self.followed_channels@.map_values(|s: String| s@)
    }

    /// The preferences before the user has set any.
    pub fn initial() -> (r: Config)
        ensures
            r.followed() == Seq::<Seq<char>>::empty(),
            r.last_channel is None,
            r.last_voice is None,
            r.history_limit == DEFAULT_HISTORY_LIMIT,
            r.voice@ == SettingsView::initial(),
    {
        let r = Config {
            followed_channels: Vec::new(),
            last_channel: None,
            last_voice: None,
            history_limit: DEFAULT_HISTORY_LIMIT,
            voice: VoiceSettings::default(),
        };
        assert(r.followed() =~= Seq::<Seq<char>>::empty());
        r
    }

    /// Follows a channel; one that is followed already stays where it is.
    pub fn follow(&mut self, channel_id: String)
        ensures
            final(self).followed() == with_text(old(self).followed(), channel_id@),
            final(self).last_channel == old(self).last_channel,
            final(self).last_voice == old(self).last_voice,
            final(self).history_limit == old(self).history_limit,
            final(self).voice == old(self).voice,
    {
        let mut i: usize = 0;
        while i < self.followed_channels.len()
            invariant
                i <= self.followed_channels@.len(),
                *self == *old(self),
                forall|k: int| 0 <= k < i ==> self.followed()[k] != channel_id@,
            decreases self.followed_channels@.len() - i,
        {
            if same_text(self.followed_channels[i].as_str(), channel_id.as_str()) {
                assert(self.followed()[i as int] == channel_id@);
                return;
            }
            i = i + 1;
        }
        let ghost id = channel_id@;
        self.followed_channels.push(channel_id);
        assert(self.followed() =~= old(self).followed().push(id));
    }

    /// Gives a channel up; it is then not the last one that was open either.
    pub fn unfollow(&mut self, channel_id: &str)
        ensures
            final(self).followed() == without_text(old(self).followed(), channel_id@),
            option_view(final(self).last_channel) == (if option_view(old(self).last_channel)
                == Some(channel_id@) {
                None::<Seq<char>>
            } else {
                option_view(old(self).last_channel)
            }),
            final(self).last_voice == old(self).last_voice,
            final(self).history_limit == old(self).history_limit,
            final(self).voice == old(self).voice,
    {
        let ghost all = self.followed();
        let mut kept: Vec<String> = Vec::new();
        let mut i: usize = 0;
        assert(all.take(0) =~= Seq::<Seq<char>>::empty());
        assert(kept@.map_values(|s: String| s@) =~= Seq::<Seq<char>>::empty());
        while i < self.followed_channels.len()
            invariant
                i <= self.followed_channels@.len(),
                *self == *old(self),
                all == self.followed(),
                kept@.map_values(|s: String| s@) == without_text(all.take(i as int), channel_id@),
            decreases self.followed_channels@.len() - i,
        {
            assert(all.take(i + 1).drop_last() =~= all.take(i as int));
            assert(all.take(i + 1).last() == self.followed_channels@[i as int]@);
            if !same_text(self.followed_channels[i].as_str(), channel_id) {
                let ghost before = kept@;
                kept.push(self.followed_channels[i].clone());
                assert(kept@.map_values(|s: String| s@) =~= before.map_values(|s: String| s@).push(
                    self.followed_channels@[i as int]@,
                ));
            }
            i = i + 1;
        }
        assert(all.take(i as int) =~= all);
        self.followed_channels = kept;
        let was_open = match &self.last_channel {
            Some(last) => same_text(last.as_str(), channel_id),
            None => false,
        };
        if was_open {
            self.last_channel = None;
        }
    }
}

} // verus!
