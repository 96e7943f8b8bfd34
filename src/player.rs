use vstd::prelude::*;
use vstd::arithmetic::div_mod::lemma_fundamental_div_mod;
use crate::data::DataAccessor;
use crate::part::{lemma_tick_events_pull_nothing, tick_events, ticked, Part};
use crate::psg::{lemma_samples_of_append, lemma_writes_pull_nothing, samples_of, ChipEvent, OutputMode, PsgTrait};
use crate::timing::{samples_in_ticks, tick_samples, SamplesPerTick, INTERVAL_RATIO_X100};

verus! {

/// How many ticks in a row one call of the sample loop may advance without
/// producing a sample; only reached at sample rates below one sample a tick.
pub const IDLE_TICK_LIMIT: u32 = 0x10000;

/// Lowest sample rate that gives every tick at least one sample.
pub const MIN_FULL_SAMPLE_RATE: u32 = 60;

/// The loop count of channel `i`, 0 where it is absent.
pub open spec fn part_loop_count<'a, D: DataAccessor>(parts: [Option<Part<'a, D>>; 3], i: int) -> u16 {
    match parts[i] {
        Some(p) => p.infinite_loop_count,
        None => 0,
    }
}

/// The highest loop count of the present channels, 0 where none is.
pub open spec fn loop_count_of<'a, D: DataAccessor>(parts: [Option<Part<'a, D>>; 3]) -> u16 {
    let a = part_loop_count(parts, 0);
    let b = part_loop_count(parts, 1);
    let c = part_loop_count(parts, 2);
    let ab = if a >= b { a } else { b };
    if ab >= c { ab } else { c }
}

/// Whether any channel is present.
pub open spec fn any_part<'a, D: DataAccessor>(parts: [Option<Part<'a, D>>; 3]) -> bool {
    parts[0] is Some || parts[1] is Some || parts[2] is Some
}

/// Every present channel is well formed and knows its number.
pub open spec fn parts_wf<'a, D: DataAccessor>(parts: [Option<Part<'a, D>>; 3]) -> bool {
    forall|i: int| 0 <= i < 3 && parts[i] is Some ==> parts[i]->Some_0.wf() && parts[i]->Some_0.channel_number == i
}

/// Channel slot after `end`: a present channel is marked ended.
pub open spec fn slot_ended<'a, D: DataAccessor>(before: Option<Part<'a, D>>, after: Option<Part<'a, D>>) -> bool {
    match before {
        None => after is None,
        Some(p) => after == Some(Part { is_end: true, ..p }),
    }
}

/// The channels after `end`: each present one is marked ended.
pub open spec fn parts_ended<'a, D: DataAccessor>(before: [Option<Part<'a, D>>; 3], after: [Option<Part<'a, D>>; 3]) -> bool {
    &&& slot_ended(before[0], after[0])
    &&& slot_ended(before[1], after[1])
    &&& slot_ended(before[2], after[2])
}

/// Channel slot after a tick: a present channel advances by one tick and
/// leaves where it stops playing.
pub open spec fn slot_ticked<'a, D: DataAccessor>(before: Option<Part<'a, D>>, after: Option<Part<'a, D>>) -> bool {
    match before {
        None => after is None,
        Some(p) => {
            let (s, on) = ticked(p@, p.data_accessor, p.patch_index);
            if on {
                after is Some && after->Some_0@ == s && after->Some_0.same_source(&p)
            } else {
                after is None
            }
        },
    }
}

/// The channels after a tick.
pub open spec fn parts_ticked<'a, D: DataAccessor>(before: [Option<Part<'a, D>>; 3], after: [Option<Part<'a, D>>; 3]) -> bool {
    &&& slot_ticked(before[0], after[0])
    &&& slot_ticked(before[1], after[1])
    &&& slot_ticked(before[2], after[2])
}

/// What ticking one channel slot sends to the chip: nothing for an empty slot.
pub open spec fn slot_tick_events<'a, D: DataAccessor>(slot: Option<Part<'a, D>>) -> Seq<ChipEvent> {
    match slot {
        None => Seq::empty(),
        Some(p) => tick_events(p@, p.data_accessor, p.patch_index, p.channel_number),
    }
}

/// What a tick sends to the chip: channel 0's writes, then 1's, then 2's.
pub open spec fn parts_tick_events<'a, D: DataAccessor>(parts: [Option<Part<'a, D>>; 3]) -> Seq<ChipEvent> {
    slot_tick_events(parts[0]) + slot_tick_events(parts[1]) + slot_tick_events(parts[2])
}

/// What ending one slot sends to the chip: volume 0 for a present channel.
pub open spec fn slot_end_events<'a, D: DataAccessor>(slot: Option<Part<'a, D>>) -> Seq<ChipEvent> {
    match slot {
        None => Seq::empty(),
        Some(p) => seq![ChipEvent::Volume(p.channel_number, 0)],
    }
}

/// What `end` sends to the chip, channel by channel.
pub open spec fn parts_end_events<'a, D: DataAccessor>(parts: [Option<Part<'a, D>>; 3]) -> Seq<ChipEvent> {
    slot_end_events(parts[0]) + slot_end_events(parts[1]) + slot_end_events(parts[2])
}

/// The writes that set up the chip: tone output, volume 0 and period 0 on
/// each channel in turn, then noise period 0.
pub open spec fn setup_events() -> Seq<ChipEvent> {
    seq![
        ChipEvent::Mode(0, OutputMode::Tone), ChipEvent::Volume(0, 0), ChipEvent::TonePeriod(0, 0),
        ChipEvent::Mode(1, OutputMode::Tone), ChipEvent::Volume(1, 0), ChipEvent::TonePeriod(1, 0),
        ChipEvent::Mode(2, OutputMode::Tone), ChipEvent::Volume(2, 0), ChipEvent::TonePeriod(2, 0),
        ChipEvent::NoisePeriod(0),
    ]
}

/// Whether a loop limit `count` is reached by channels whose highest loop
/// count is `loops`.
pub open spec fn limit_reached(count: Option<usize>, loops: u16) -> bool {
    match count {
        Some(m) => loops >= m,
        None => false,
    }
}

/// A playback session: up to three channels, the chip, and the tick clock.
pub struct PlayContext<'a, D: DataAccessor, P: PsgTrait> {
    pub parts: [Option<Part<'a, D>>; 3],
    pub psg: &'a mut P,
    pub samples_per_tick: SamplesPerTick,
    pub max_loop_count: Option<usize>,
    /// How many times the channels have been ticked.
    pub ticks_run: Ghost<nat>,
}

proof fn lemma_tick_has_a_sample(rate: nat, k: nat)
    requires
        rate >= MIN_FULL_SAMPLE_RATE,
    ensures
        tick_samples(rate, k) >= 1,
{
    let d = INTERVAL_RATIO_X100 as int;
    let big = (rate * 100) as int;
    let kb = (k * (rate * 100)) as int;
    let nb = ((k + 1) * (rate * 100)) as int;
    assert(nb == kb + big) by (nonlinear_arith)
        requires kb == k * (rate * 100), nb == (k + 1) * (rate * 100), big == rate * 100;
    lemma_fundamental_div_mod(kb, d);
    lemma_fundamental_div_mod(big, d);
    lemma_fundamental_div_mod(nb, d);
    let x = kb / d;
    let y = big / d;
    let z = nb / d;
    assert(y >= 1) by {
        lemma_fundamental_div_mod(big, d);
    }
    assert(z >= x + y) by (nonlinear_arith)
        requires
            nb == d * z + nb % d,
            kb == d * x + kb % d,
            big == d * y + big % d,
            nb == kb + big,
            0 <= nb % d < d,
            0 <= kb % d < d,
            0 <= big % d < d,
            d > 0;
}

proof fn lemma_empty_ticks_are_few(rate: nat, a: nat, n: nat)
    requires
        rate >= 1,
        samples_in_ticks(rate, a + n) == samples_in_ticks(rate, a),
    ensures
        n < 60,
{
    let d = INTERVAL_RATIO_X100 as int;
    let big = (rate * 100) as int;
    let ab = (a * (rate * 100)) as int;
    let nb = (n * (rate * 100)) as int;
    let sb = ((a + n) * (rate * 100)) as int;
    assert(sb == ab + nb) by (nonlinear_arith)
        requires ab == a * (rate * 100), nb == n * (rate * 100), sb == (a + n) * (rate * 100);
    lemma_fundamental_div_mod(ab, d);
    lemma_fundamental_div_mod(nb, d);
    lemma_fundamental_div_mod(sb, d);
    let x = ab / d;
    let y = nb / d;
    let z = sb / d;
    assert(z >= x + y) by (nonlinear_arith)
        requires
            sb == d * z + sb % d,
            ab == d * x + ab % d,
            nb == d * y + nb % d,
            sb == ab + nb,
            0 <= sb % d < d,
            0 <= ab % d < d,
            0 <= nb % d < d,
            d > 0;
    assert(y == 0);
    assert(nb < d);
    assert(n * 100 <= nb) by (nonlinear_arith)
        requires nb == n * (rate * 100), rate >= 1;
}

proof fn lemma_slot_events_pull_nothing<'a, D: DataAccessor>(slot: Option<Part<'a, D>>)
    ensures
        samples_of(slot_tick_events(slot)) == Seq::<i16>::empty(),
        samples_of(slot_end_events(slot)) == Seq::<i16>::empty(),
{
    match slot {
        Some(p) => {
            lemma_tick_events_pull_nothing(p@, p.data_accessor, p.patch_index, p.channel_number);
        },
        None => {
            lemma_writes_pull_nothing(slot_tick_events(slot));
        },
    }
    lemma_writes_pull_nothing(slot_end_events(slot));
}

proof fn lemma_parts_events_pull_nothing<'a, D: DataAccessor>(parts: [Option<Part<'a, D>>; 3])
    ensures
        samples_of(parts_tick_events(parts)) == Seq::<i16>::empty(),
        samples_of(parts_end_events(parts)) == Seq::<i16>::empty(),
{
    lemma_slot_events_pull_nothing(parts[0]);
    lemma_slot_events_pull_nothing(parts[1]);
    lemma_slot_events_pull_nothing(parts[2]);
    let t = (slot_tick_events(parts[0]), slot_tick_events(parts[1]), slot_tick_events(parts[2]));
    assert(samples_of(slot_tick_events(parts[0])) == Seq::<i16>::empty());
    assert(samples_of(slot_tick_events(parts[1])) == Seq::<i16>::empty());
    assert(samples_of(slot_tick_events(parts[2])) == Seq::<i16>::empty());
    lemma_samples_of_append(t.0, t.1);
    lemma_samples_of_append(t.0 + t.1, t.2);
    let e = (slot_end_events(parts[0]), slot_end_events(parts[1]), slot_end_events(parts[2]));
    assert(samples_of(e.0) == Seq::<i16>::empty());
    assert(samples_of(e.1) == Seq::<i16>::empty());
    assert(samples_of(e.2) == Seq::<i16>::empty());
    lemma_samples_of_append(e.0, e.1);
    lemma_samples_of_append(e.0 + e.1, e.2);
    assert(Seq::<i16>::empty() + Seq::<i16>::empty() =~= Seq::<i16>::empty());
}

impl<'a, D: DataAccessor, P: PsgTrait> PlayContext<'a, D, P> {
    pub open spec fn wf(&self) -> bool {
        &&& parts_wf(self.parts)
        &&& self.samples_per_tick.wf()
        &&& self.samples_per_tick.ticks() >= 1
    }

    /// The loop limit, if one is set.
    pub open spec fn max_loop_count(&self) -> Option<usize> {
        self.max_loop_count
    }

    /// Samples left in the current tick.
    pub open spec fn samples_left(&self) -> nat {
        self.samples_per_tick.samples_left()
    }

    /// The sample rate the session was started at.
    pub open spec fn sample_rate(&self) -> nat {
        self.samples_per_tick.rate()
    }

    /// The loop limit is set and some channel has reached it.
    pub open spec fn over_loop_limit(&self) -> bool {
        limit_reached(self.max_loop_count(), loop_count_of(self.parts))
    }

    /// Every present channel has ended.
    pub open spec fn silent(&self) -> bool {
        forall|i: int| 0 <= i < 3 && self.parts[i] is Some ==> self.parts[i]->Some_0.is_end
    }

    /// Sets up the chip (tone output, volume 0, period 0 on every channel,
    /// noise period 0) and starts the first tick.
    pub fn new(parts: [Option<Part<'a, D>>; 3], psg: &'a mut P) -> (r: Self)
        requires
            parts_wf(parts),
        ensures
            r.wf(),
            r.parts == parts,
            r.max_loop_count() is None,
            r.sample_rate() == old(psg).reported_sample_rate(),
            r.samples_left() == tick_samples(r.sample_rate(), 0),
            r.samples_per_tick.ticks() == 1,
            r.ticks_run@ == 0,
            r.psg.events() == old(psg).events() + setup_events(),
            r.psg.reported_sample_rate() == old(psg).reported_sample_rate(),
    {
        let sample_rate = psg.sample_rate();
        let mut channel: usize = 0;
        while channel < 3
            invariant
                0 <= channel <= 3,
                psg.reported_sample_rate() == old(psg).reported_sample_rate(),
                psg.events() == old(psg).events() + setup_events().take(3 * channel as int),
            decreases 3 - channel,
        {
            psg.set_output_mode(channel, OutputMode::Tone);
            psg.set_volume(channel, 0);
            psg.set_tone_period(channel, 0);
            channel = channel + 1;
            proof {
                assert(setup_events().take(3 * channel as int) =~= setup_events().take(3 * (channel - 1) as int).push(
                    ChipEvent::Mode((channel - 1) as usize, OutputMode::Tone),
                ).push(ChipEvent::Volume((channel - 1) as usize, 0)).push(ChipEvent::TonePeriod((channel - 1) as usize, 0)));
            }
        }
        psg.set_noise_period(0);
        proof {
            assert(psg.events() =~= old(psg).events() + setup_events());
        }
        PlayContext {
            parts,
            psg,
            samples_per_tick: SamplesPerTick::new(sample_rate),
            max_loop_count: None,
            ticks_run: Ghost(0),
        }
    }

    /// Sets the loop limit (or lifts it) and applies it at once.
    pub fn set_max_loop_count(&mut self, count: Option<usize>)
        requires
            old(self).wf(),
        ensures
            final(self).wf(),
            final(self).max_loop_count() == count,
            final(self).samples_left() == old(self).samples_left(),
            final(self).sample_rate() == old(self).sample_rate(),
            final(self).samples_per_tick == old(self).samples_per_tick,
            final(self).ticks_run == old(self).ticks_run,
            limit_reached(count, loop_count_of(old(self).parts)) ==> parts_ended(old(self).parts, final(self).parts)
                && final(self).psg.events() == old(self).psg.events() + parts_end_events(old(self).parts),
            !limit_reached(count, loop_count_of(old(self).parts)) ==> final(self).parts == old(self).parts
                && final(self).psg.events() == old(self).psg.events(),
            final(self).psg.reported_sample_rate() == old(self).psg.reported_sample_rate(),
    {
        self.max_loop_count = count;
        self.apply_max_loop_count();
    }

    /// Whether any channel is still present.
    pub fn is_playing(&self) -> (r: bool)
        ensures
            r == any_part(self.parts),
    {
        self.parts[0].is_some() || self.parts[1].is_some() || self.parts[2].is_some()
    }

    /// Advances every channel by one tick; a channel that stops playing is
    /// removed. Returns whether any channel plays on.
    pub fn tick(&mut self) -> (playing: bool)
        requires
            old(self).wf(),
        ensures
            final(self).wf(),
            final(self).max_loop_count() == old(self).max_loop_count(),
            final(self).samples_left() == old(self).samples_left(),
            final(self).sample_rate() == old(self).sample_rate(),
            final(self).samples_per_tick == old(self).samples_per_tick,
            final(self).ticks_run@ == old(self).ticks_run@ + 1,
            parts_ticked(old(self).parts, final(self).parts),
            playing == any_part(final(self).parts),
            final(self).psg.events() == old(self).psg.events() + parts_tick_events(old(self).parts),
            final(self).psg.reported_sample_rate() == old(self).psg.reported_sample_rate(),
            !any_part(old(self).parts) ==> *final(self).psg == *old(self).psg,
    {
        let mut playing = false;
        let mut i: usize = 0;
        while i < 3
            invariant
                0 <= i <= 3,
                self.wf(),
                self.max_loop_count == old(self).max_loop_count,
                self.samples_per_tick == old(self).samples_per_tick,
                self.ticks_run == old(self).ticks_run,
                forall|j: int| i <= j < 3 ==> self.parts[j] == old(self).parts[j],
                forall|j: int| 0 <= j < i ==> slot_ticked(old(self).parts[j], self.parts[j]),
                !any_part(old(self).parts) ==> *self.psg == *old(self).psg,
                self.psg.reported_sample_rate() == old(self).psg.reported_sample_rate(),
                self.psg.events() == old(self).psg.events() + (if i == 0 {
                    Seq::<ChipEvent>::empty()
                } else if i == 1 {
                    slot_tick_events(old(self).parts[0])
                } else if i == 2 {
                    slot_tick_events(old(self).parts[0]) + slot_tick_events(old(self).parts[1])
                } else {
                    parts_tick_events(old(self).parts)
                }),
                playing == ((i > 0 && self.parts[0] is Some) || (i > 1 && self.parts[1] is Some) || (i > 2
                    && self.parts[2] is Some)),
            decreases 3 - i,
        {
            let ghost events_before = self.psg.events();
            let slot = self.parts[i].take();
            match slot {
                Some(mut part) => {
                    if part.tick(self.psg) {
                        self.parts[i] = Some(part);
                        playing = true;
                    }
                },
                None => {},
            }
            proof {
                assert(self.psg.events() =~= events_before + slot_tick_events(old(self).parts[i as int]));
                assert(slot_tick_events(old(self).parts[0]) + slot_tick_events(old(self).parts[1]) + slot_tick_events(old(self).parts[2]) == parts_tick_events(old(self).parts));
                assert(old(self).psg.events() + Seq::<ChipEvent>::empty() =~= old(self).psg.events());
                if i == 1 {
                    assert(self.psg.events() =~= old(self).psg.events() + slot_tick_events(old(self).parts[0]) + slot_tick_events(old(self).parts[1]));
                } else if i == 2 {
                    assert(self.psg.events() =~= old(self).psg.events() + parts_tick_events(old(self).parts));
                }
            }
            i = i + 1;
        }
        self.ticks_run = Ghost(self.ticks_run@ + 1);
        playing
    }

    /// Silences and ends every present channel.
    pub fn end(&mut self)
        requires
            old(self).wf(),
        ensures
            final(self).wf(),
            final(self).max_loop_count() == old(self).max_loop_count(),
            final(self).samples_left() == old(self).samples_left(),
            final(self).sample_rate() == old(self).sample_rate(),
            final(self).samples_per_tick == old(self).samples_per_tick,
            final(self).ticks_run == old(self).ticks_run,
            parts_ended(old(self).parts, final(self).parts),
            final(self).psg.events() == old(self).psg.events() + parts_end_events(old(self).parts),
            final(self).psg.reported_sample_rate() == old(self).psg.reported_sample_rate(),
    {
        let mut i: usize = 0;
        while i < 3
            invariant
                0 <= i <= 3,
                self.wf(),
                self.max_loop_count == old(self).max_loop_count,
                self.samples_per_tick == old(self).samples_per_tick,
                self.ticks_run == old(self).ticks_run,
                forall|j: int| i <= j < 3 ==> self.parts[j] == old(self).parts[j],
                forall|j: int| 0 <= j < i ==> slot_ended(old(self).parts[j], self.parts[j]),
                self.psg.reported_sample_rate() == old(self).psg.reported_sample_rate(),
                self.psg.events() == old(self).psg.events() + (if i == 0 {
                    Seq::<ChipEvent>::empty()
                } else if i == 1 {
                    slot_end_events(old(self).parts[0])
                } else if i == 2 {
                    slot_end_events(old(self).parts[0]) + slot_end_events(old(self).parts[1])
                } else {
                    parts_end_events(old(self).parts)
                }),
            decreases 3 - i,
        {
            let ghost events_before = self.psg.events();
            let slot = self.parts[i].take();
            match slot {
                Some(mut part) => {
                    part.end(self.psg);
                    self.parts[i] = Some(part);
                },
                None => {},
            }
            proof {
                assert(self.psg.events() =~= events_before + slot_end_events(old(self).parts[i as int]));
                assert(old(self).psg.events() + Seq::<ChipEvent>::empty() =~= old(self).psg.events());
                if i == 1 {
                    assert(self.psg.events() =~= old(self).psg.events() + slot_end_events(old(self).parts[0]) + slot_end_events(old(self).parts[1]));
                } else if i == 2 {
                    assert(self.psg.events() =~= old(self).psg.events() + parts_end_events(old(self).parts));
                }
            }
            i = i + 1;
        }
    }

    /// Ends every channel where the loop limit is reached; returns whether it was.
    fn apply_max_loop_count(&mut self) -> (stopped: bool)
        requires
            old(self).wf(),
        ensures
            final(self).wf(),
            final(self).max_loop_count() == old(self).max_loop_count(),
            final(self).samples_left() == old(self).samples_left(),
            final(self).sample_rate() == old(self).sample_rate(),
            final(self).samples_per_tick == old(self).samples_per_tick,
            final(self).ticks_run == old(self).ticks_run,
            stopped == old(self).over_loop_limit(),
            stopped ==> parts_ended(old(self).parts, final(self).parts)
                && final(self).psg.events() == old(self).psg.events() + parts_end_events(old(self).parts),
            !stopped ==> final(self).parts == old(self).parts && final(self).psg.events() == old(self).psg.events(),
            final(self).psg.reported_sample_rate() == old(self).psg.reported_sample_rate(),
    {
        match self.max_loop_count {
            Some(count) => {
                if self.infinite_loop_count() as usize >= count {
                    self.end();
                    return true;
                }
            },
            None => {},
        }
        false
    }

    /// The highest loop count among the present channels.
    fn infinite_loop_count(&self) -> (r: u16)
        ensures
            r == loop_count_of(self.parts),
    {
        let mut r: u16 = 0;
        let mut i: usize = 0;
        while i < 3
            invariant
                0 <= i <= 3,
                r == (if i == 0 { 0 } else if i == 1 { part_loop_count(self.parts, 0) } else if i == 2 {
                    let a = part_loop_count(self.parts, 0);
                    let b = part_loop_count(self.parts, 1);
                    if a >= b { a } else { b }
                } else {
                    loop_count_of(self.parts)
                }),
            decreases 3 - i,
        {
            match &self.parts[i] {
                Some(part) => {
                    if part.infinite_loop_count > r {
                        r = part.infinite_loop_count;
                    }
                },
                None => {},
            }
            i = i + 1;
        }
        r
    }

    /// Fills `buffer` with samples from the chip, advancing the song at every
    /// tick boundary; returns how many were written. Fewer than asked means
    /// the song is over: every channel has stopped, or the loop limit was
    /// reached at a tick boundary and every channel was silenced.
    pub fn next_samples_i16(&mut self, buffer: &mut [i16]) -> (written: usize)
        requires
            old(self).wf(),
        ensures
            final(self).wf(),
            final(self).max_loop_count() == old(self).max_loop_count(),
            final(self).sample_rate() == old(self).sample_rate(),
            final(self).psg.reported_sample_rate() == old(self).psg.reported_sample_rate(),
            final(buffer)@.len() == old(buffer)@.len(),
            written <= old(buffer)@.len(),
            final(buffer)@.subrange(written as int, old(buffer)@.len() as int)
                == old(buffer)@.subrange(written as int, old(buffer)@.len() as int),
            samples_of(final(self).psg.events()) == samples_of(old(self).psg.events()) + final(buffer)@.take(
                written as int,
            ),
            written < old(buffer)@.len() ==> final(self).samples_left() == 0 && (!any_part(final(self).parts)
                || (final(self).over_loop_limit() && final(self).silent()) || final(self).sample_rate() == 0),
            written == old(buffer)@.len() && written > 0 && final(self).sample_rate() >= MIN_FULL_SAMPLE_RATE
                && final(self).samples_left() == 0 ==> !any_part(final(self).parts) || (final(self).over_loop_limit()
                && final(self).silent()),
            old(self).samples_left() == 0 && old(buffer)@.len() > 0 && (old(self).over_loop_limit() || !any_part(
                old(self).parts,
            )) ==> written == 0 && final(self).psg.events() == old(self).psg.events() + parts_end_events(
                old(self).parts,
            ),
            old(self).over_loop_limit() && old(self).samples_left() == 0 && old(buffer)@.len() > 0 ==> parts_ended(
                old(self).parts,
                final(self).parts,
            ),
            written as int == old(self).samples_left() + samples_in_ticks(
                old(self).sample_rate(),
                final(self).samples_per_tick.ticks(),
            ) - samples_in_ticks(old(self).sample_rate(), old(self).samples_per_tick.ticks())
                - final(self).samples_left(),
            final(self).ticks_run@ - old(self).ticks_run@ == final(self).samples_per_tick.ticks()
                - old(self).samples_per_tick.ticks() || (final(self).ticks_run@ - old(self).ticks_run@
                == final(self).samples_per_tick.ticks() - old(self).samples_per_tick.ticks() + 1 && !any_part(
                final(self).parts,
            ) && final(self).samples_left() == 0),
            old(self).over_loop_limit() ==> final(self).parts == old(self).parts || parts_ended(
                old(self).parts,
                final(self).parts,
            ),
            final(self).over_loop_limit() && final(self).sample_rate() >= MIN_FULL_SAMPLE_RATE ==> final(self).silent()
                || final(self).samples_left() >= 1 || (written == 0 && *final(self) == *old(self)),
    {
        let len = buffer.len();
        let mut buffer_index: usize = 0;
        let mut idle: u32 = 0;
        while buffer_index < len
            invariant
                self.wf(),
                self.max_loop_count() == old(self).max_loop_count(),
                self.sample_rate() == old(self).sample_rate(),
                self.psg.reported_sample_rate() == old(self).psg.reported_sample_rate(),
                buffer@.len() == len,
                len == old(buffer)@.len(),
                buffer_index <= len,
                buffer@.subrange(buffer_index as int, len as int) == old(buffer)@.subrange(
                    buffer_index as int,
                    len as int,
                ),
                samples_of(self.psg.events()) == samples_of(old(self).psg.events()) + buffer@.take(
                    buffer_index as int,
                ),
                idle < IDLE_TICK_LIMIT,
                idle > 0 ==> self.samples_per_tick.ticks() >= idle && samples_in_ticks(
                    self.sample_rate(),
                    (self.samples_per_tick.ticks() - 1) as nat,
                ) == samples_in_ticks(self.sample_rate(), (self.samples_per_tick.ticks() - idle) as nat)
                    && self.samples_left() == tick_samples(
                    self.sample_rate(),
                    (self.samples_per_tick.ticks() - 1) as nat,
                ),
                self.sample_rate() >= MIN_FULL_SAMPLE_RATE ==> idle == 0 || self.samples_left() >= 1,
                buffer_index > 0 && self.sample_rate() >= MIN_FULL_SAMPLE_RATE ==> self.samples_left() >= 1,
                idle == 0 && buffer_index == 0 ==> *self == *old(self),
                old(self).over_loop_limit() ==> self.parts == old(self).parts,
                buffer_index as int == old(self).samples_left() + samples_in_ticks(
                    old(self).sample_rate(),
                    self.samples_per_tick.ticks(),
                ) - samples_in_ticks(old(self).sample_rate(), old(self).samples_per_tick.ticks())
                    - self.samples_left(),
                self.ticks_run@ - old(self).ticks_run@ == self.samples_per_tick.ticks()
                    - old(self).samples_per_tick.ticks(),
                self.samples_per_tick.ticks() >= old(self).samples_per_tick.ticks(),
                self.over_loop_limit() && self.sample_rate() >= MIN_FULL_SAMPLE_RATE ==> self.samples_left() >= 1 || (
                idle == 0 && buffer_index == 0),
                old(self).samples_left() == 0 && len > 0 && (old(self).over_loop_limit() || !any_part(old(self).parts))
                    ==> idle == 0 && buffer_index == 0,
            decreases len - buffer_index, IDLE_TICK_LIMIT - idle,
        {
            if self.samples_per_tick.samples() > 0 {
                let ghost before = buffer@;
                let ghost events_before = self.psg.events();
                let sample = self.psg.next_sample_i16();
                buffer[buffer_index] = sample;
                proof {
                    lemma_samples_of_append(events_before, seq![ChipEvent::Sample(sample)]);
                    assert(seq![ChipEvent::Sample(sample)].drop_last() =~= Seq::<ChipEvent>::empty());
                    assert(samples_of(Seq::<ChipEvent>::empty()) == Seq::<i16>::empty());
                    assert(seq![ChipEvent::Sample(sample)].last() == ChipEvent::Sample(sample));
                    assert(samples_of(seq![ChipEvent::Sample(sample)]) =~= seq![sample]);
                    assert(events_before + seq![ChipEvent::Sample(sample)] =~= self.psg.events());
                    assert(buffer@.take(buffer_index + 1) =~= before.take(buffer_index as int).push(sample));
                    assert(buffer@.subrange(buffer_index + 1, len as int) =~= before.subrange(
                        buffer_index + 1,
                        len as int,
                    ));
                    assert(old(buffer)@.subrange(buffer_index + 1, len as int) =~= old(buffer)@.subrange(
                        buffer_index as int,
                        len as int,
                    ).subrange(1, len - buffer_index));
                    assert(before.subrange(buffer_index + 1, len as int) =~= before.subrange(
                        buffer_index as int,
                        len as int,
                    ).subrange(1, len - buffer_index));
                }
                buffer_index = buffer_index + 1;
                idle = 0;
                if self.samples_per_tick.consume(1) {
                    continue;
                }
            }
            let ghost parts_before = self.parts;
            let ghost events_before = self.psg.events();
            proof {
                lemma_parts_events_pull_nothing(parts_before);
                lemma_samples_of_append(events_before, parts_end_events(parts_before));
                lemma_samples_of_append(events_before, parts_tick_events(parts_before));
                assert(samples_of(events_before) + Seq::<i16>::empty() =~= samples_of(events_before));
            }
            if self.apply_max_loop_count() {
                return buffer_index;
            }
            let ghost t0 = self.samples_per_tick.ticks();
            proof {
                if idle > 0 {
                    let rate = self.sample_rate();
                    assert(self.samples_left() == 0);
                    assert(tick_samples(rate, (t0 - 1) as nat) == 0);
                    assert(((t0 - 1) as nat + 1) as nat == t0);
                    assert(samples_in_ticks(rate, t0) == samples_in_ticks(rate, (t0 - idle) as nat));
                    assert(((t0 - idle) as nat + idle as nat) as nat == t0);
                    if rate >= 1 {
                        lemma_empty_ticks_are_few(rate, (t0 - idle) as nat, idle as nat);
                    }
                }
            }
            if idle + 1 == IDLE_TICK_LIMIT {
                return buffer_index;
            }
            if !self.tick() {
                proof {
                    if !any_part(parts_before) {
                        assert(parts_tick_events(parts_before) =~= parts_end_events(parts_before));
                    }
                }
                return buffer_index;
            }
            proof {
                if self.sample_rate() >= MIN_FULL_SAMPLE_RATE {
                    lemma_tick_has_a_sample(self.sample_rate(), self.samples_per_tick.ticks());
                }
            }
            self.samples_per_tick.next();
            idle = idle + 1;
            proof {
                assert(self.samples_per_tick.ticks() == t0 + 1);
                assert((self.samples_per_tick.ticks() - 1) as nat == t0);
                assert((self.samples_per_tick.ticks() - idle) as nat == (t0 - (idle - 1)) as nat);
            }
        }
        buffer_index
    }
}

} // verus!
