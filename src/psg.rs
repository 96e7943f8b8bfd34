use vstd::prelude::*;

verus! {

/// What a channel sends to the mixer.
#[derive(PartialEq, Eq, Structural, Clone, Copy, Debug)]
pub enum OutputMode {
    Off,
    Tone,
    Noise,
    ToneNoise,
}

/// Output routing selected by a routing byte.
pub open spec fn output_mode_of(b: u8) -> OutputMode {
    if b == 1 {
        OutputMode::Tone
    } else if b == 2 {
        OutputMode::Noise
    } else if b == 3 {
        OutputMode::ToneNoise
    } else {
        OutputMode::Off
    }
}

/// Maps a routing byte to the output mode it selects.
pub fn output_mode_from_byte(b: u8) -> (r: OutputMode)
    ensures
        r == output_mode_of(b),
{
    match b {
        1 => OutputMode::Tone,
        2 => OutputMode::Noise,
        3 => OutputMode::ToneNoise,
        _ => OutputMode::Off,
    }
}

/// One thing that passes between the sequencer and the chip: a register
/// write, or a sample pulled from the chip.
#[derive(PartialEq, Eq, Structural, Clone, Copy, Debug)]
pub enum ChipEvent {
    TonePeriod(usize, u16),
    Volume(usize, u8),
    Mode(usize, OutputMode),
    NoisePeriod(u8),
    Sample(i16),
}

/// The samples pulled in a run of events, in order.
pub open spec fn samples_of(events: Seq<ChipEvent>) -> Seq<i16>
    decreases events.len(),
{
    if events.len() == 0 {
        Seq::empty()
    } else {
        samples_of(events.drop_last()) + match events.last() {
            ChipEvent::Sample(v) => seq![v],
            _ => Seq::<i16>::empty(),
        }
    }
}

/// The samples pulled in two runs of events are those of the first run,
/// then those of the second.
pub proof fn lemma_samples_of_append(a: Seq<ChipEvent>, b: Seq<ChipEvent>)
    ensures
        samples_of(a + b) == samples_of(a) + samples_of(b),
    decreases b.len(),
{
    if b.len() == 0 {
        assert(a + b =~= a);
        assert(samples_of(a) + samples_of(b) =~= samples_of(a));
    } else {
        lemma_samples_of_append(a, b.drop_last());
        assert((a + b).drop_last() =~= a + b.drop_last());
        assert((a + b).last() == b.last());
        assert(samples_of(a + b) =~= samples_of(a) + samples_of(b));
    }
}

/// Register writes alone pull no samples.
pub proof fn lemma_writes_pull_nothing(events: Seq<ChipEvent>)
    requires
        forall|i: int| 0 <= i < events.len() ==> !(#[trigger] events[i] is Sample),
    ensures
        samples_of(events) == Seq::<i16>::empty(),
    decreases events.len(),
{
    if events.len() > 0 {
        assert(!(events[events.len() - 1] is Sample));
        lemma_writes_pull_nothing(events.drop_last());
        assert(samples_of(events) =~= Seq::<i16>::empty());
    }
}

/// The sound chip that the sequencer drives: register writes and sample pulls.
pub trait PsgTrait {
    /// Everything the chip has received so far, oldest first. An
    /// implementation that Verus checks gives its own record here.
    closed spec fn events(&self) -> Seq<ChipEvent> {
        Seq::empty()
    }

    /// The sample rate the chip reports.
    spec fn reported_sample_rate(&self) -> u32;

    fn sample_rate(&self) -> (r: u32)
        ensures
            r == self.reported_sample_rate(),
    ;

    fn clock_rate(&self) -> u32;

    fn set_tone_period(&mut self, channel: usize, period: u16)
        ensures
            final(self).events() == old(self).events().push(ChipEvent::TonePeriod(channel, period)),
            final(self).reported_sample_rate() == old(self).reported_sample_rate(),
    ;

    fn set_volume(&mut self, channel: usize, volume: u8)
        ensures
            final(self).events() == old(self).events().push(ChipEvent::Volume(channel, volume)),
            final(self).reported_sample_rate() == old(self).reported_sample_rate(),
    ;

    fn set_output_mode(&mut self, channel: usize, mode: OutputMode)
        ensures
            final(self).events() == old(self).events().push(ChipEvent::Mode(channel, mode)),
            final(self).reported_sample_rate() == old(self).reported_sample_rate(),
    ;

    fn set_noise_period(&mut self, period: u8)
        ensures
            final(self).events() == old(self).events().push(ChipEvent::NoisePeriod(period)),
            final(self).reported_sample_rate() == old(self).reported_sample_rate(),
    ;

    fn next_sample_i16(&mut self) -> (r: i16)
        ensures
            final(self).events() == old(self).events().push(ChipEvent::Sample(r)),
            final(self).reported_sample_rate() == old(self).reported_sample_rate(),
    ;
}

} // verus!
