//! Which device and which of its formats to use, and what the microphone test does next.

use vstd::prelude::*;

use crate::audio::{FRAME_LEN, SAMPLE_RATE};
use crate::model::option_view;
use crate::text::same_text;

verus! {

/// The first device that has the name; devices may have none.
pub fn find_device(names: &Vec<Option<String>>, wanted: &str) -> (r: Option<usize>)
    ensures
        match r {
            Some(i) => {
                &&& i < names@.len()
                &&& option_view(names@[i as int]) == Some(wanted@)
                &&& forall|k: int|
                    0 <= k < i ==> option_view(#[trigger] names@[k]) != Some(wanted@)
            },
            None => forall|k: int|
                0 <= k < names@.len() ==> option_view(#[trigger] names@[k]) != Some(wanted@),
        },
{
    let mut i: usize = 0;
    while i < names.len()
        invariant
            i <= names@.len(),
            forall|k: int| 0 <= k < i ==> option_view(#[trigger] names@[k]) != Some(wanted@),
        decreases names@.len() - i,
    {
        if let Some(name) = &names[i] {
            if same_text(name.as_str(), wanted) {
                return Some(i);
            }
        }
        i = i + 1;
    }
    None
}

/// A range of formats that a device offers.
#[derive(Clone, Copy, Debug, PartialEq, Eq, Structural)]
pub struct StreamRange {
    /// The smallest number of samples a second.
    pub min_rate: u32,
    /// The largest number of samples a second.
    pub max_rate: u32,
    /// The number of channels.
    pub channels: u16,
    /// Whether the samples are in a form that this client reads and writes.
    pub usable: bool,
}

impl StreamRange {
    /// The range holds the rate of the call, in a usable form, with the channels that are
    /// wanted, if any are.
    pub open spec fn fits(self, channels: Option<u16>) -> bool {
        &&& self.min_rate <= SAMPLE_RATE <= self.max_rate
        &&& self.usable
        &&& channels is Some ==> self.channels == channels->Some_0
    }
}

/// `r` is the first range that fits, or none where none does.
pub open spec fn is_first_fit(
    ranges: Seq<StreamRange>,
    channels: Option<u16>,
    r: Option<int>,
) -> bool {
    match r {
        Some(i) => {
            &&& 0 <= i < ranges.len()
            &&& ranges[i].fits(channels)
            &&& forall|k: int| 0 <= k < i ==> !(#[trigger] ranges[k]).fits(channels)
        },
        None => forall|k: int| 0 <= k < ranges.len() ==> !(#[trigger] ranges[k]).fits(channels),
    }
}

fn first_fit(ranges: &Vec<StreamRange>, channels: Option<u16>) -> (r: Option<usize>)
    ensures
        is_first_fit(
            ranges@,
            channels,
            match r {
                Some(i) => Some(i as int),
                None => None,
            },
        ),
{
    let mut i: usize = 0;
    while i < ranges.len()
        invariant
            i <= ranges@.len(),
            forall|k: int| 0 <= k < i ==> !(#[trigger] ranges@[k]).fits(channels),
        decreases ranges@.len() - i,
    {
        let range = ranges[i];
        let wanted = match channels {
            Some(n) => range.channels == n,
            None => true,
        };
        if range.min_rate <= SAMPLE_RATE && SAMPLE_RATE <= range.max_rate && range.usable
            && wanted {
            return Some(i);
        }
        i = i + 1;
    }
    None
}

/// The range to use in place of the device's own format; none where that one has the rate
/// of the call, or where no range fits. A range with as many channels as the device's own
/// format comes first.
pub fn config_48k(
    default_rate: u32,
    default_channels: u16,
    ranges: &Vec<StreamRange>,
) -> (r: Option<usize>)
    ensures
        default_rate == SAMPLE_RATE ==> r is None,
        default_rate != SAMPLE_RATE ==> {
            let found: Option<int> = match r {
                Some(i) => Some(i as int),
                None => None,
            };
            if exists|k: int|
                0 <= k < ranges@.len() && (#[trigger] ranges@[k]).fits(Some(default_channels)) {
                is_first_fit(ranges@, Some(default_channels), found)
            } else {
                is_first_fit(ranges@, None, found)
            }
        },
{
    if default_rate == SAMPLE_RATE {
        return None;
    }
    match first_fit(ranges, Some(default_channels)) {
        Some(i) => {
            assert(ranges@[i as int].fits(Some(default_channels)));
            Some(i)
        },
        None => first_fit(ranges, None),
    }
}

/// What a loop over the microphone does next.
#[derive(Clone, Copy, Debug, PartialEq, Eq, Structural)]
pub enum LoopStep {
    /// End.
    End,
    /// Another device was chosen: open the streams again.
    Reopen,
    /// Wait for more samples.
    Wait,
    /// Take a frame and process it.
    Process,
}

/// What a loop over the microphone does next: being stopped comes first, then another
/// device, then whether there is a frame.
pub open spec fn next_step(
    stopped: bool,
    opened: u64,
    generation: u64,
    buffered: nat,
) -> LoopStep {
    if stopped {
        LoopStep::End
    } else if opened != generation {
        LoopStep::Reopen
    } else if buffered >= FRAME_LEN {
        LoopStep::Process
    } else {
        LoopStep::Wait
    }
}

/// Tells what a loop over the microphone does next.
pub fn loop_step(stopped: bool, opened: u64, generation: u64, buffered: usize) -> (r: LoopStep)
    ensures
        r == next_step(stopped, opened, generation, buffered as nat),
{
    if stopped {
        LoopStep::End
    } else if opened != generation {
        LoopStep::Reopen
    } else if buffered >= FRAME_LEN {
        LoopStep::Process
    } else {
        LoopStep::Wait
    }
}

/// A test of the microphone that is running.
pub struct MicTest {
    stopped: bool,
}

impl MicTest {
    /// The test was stopped.
    pub closed spec fn is_stopped(&self) -> bool {
        self.stopped
    }

    /// A test that has just started.
    pub fn new() -> (r: MicTest)
        ensures
            !r.is_stopped(),
    {
        MicTest { stopped: false }
    }

    /// Stops the test.
    pub fn stop(&mut self)
        ensures
            final(self).is_stopped(),
    {
        self.stopped = true;
    }

    /// Tells whether the test was stopped.
    pub fn stopped(&self) -> (r: bool)
        ensures
            r == self.is_stopped(),
    {
        self.stopped
    }
}

} // verus!
