use vstd::prelude::*;
use crate::data::{short_of, DataAccessor};
use crate::envelope::{sat_sub, Envelope};
use crate::lfo::PitchLFO;
use crate::psg::{lemma_writes_pull_nothing, output_mode_from_byte, output_mode_of, samples_of, ChipEvent, PsgTrait};
use crate::repeat::{frames_broken, frames_ended, frames_started, Repeat, RepeatStack};

verus! {

/// How many opcodes one tick may consume before the channel is taken as stuck
/// in a loop without notes and is ended.
pub const TICK_OPCODE_LIMIT: u32 = 0x10000;

/// The byte after a note that ties it to the next one.
pub const TIE_MARKER: u8 = 0xE8;

/// Highest tone period the chip takes.
pub const MAX_TONE_PERIOD: u16 = 4095;

/// Highest channel volume.
pub const MAX_VOLUME: u8 = 15;

/// What the interpreter does after one opcode.
#[derive(PartialEq, Eq, Structural, Clone, Copy, Debug)]
pub enum Flow {
    /// A control opcode: read the next one.
    Next,
    /// A note or rest was reached: the tick is done and the channel plays on.
    Sound,
    /// The stream ended: the channel is silenced.
    Stop,
}

/// Tone periods of the twelve semitones of the lowest octave.
pub open spec fn tone_table() -> Seq<u16> {
    seq![3816u16, 3602, 3400, 3209, 3029, 2859, 2698, 2547, 2404, 2269, 2142, 2022]
}

/// What the interpreter of one channel holds, apart from where it reads.
pub struct PartState {
    pub next_index: u16,
    pub length: u8,
    pub is_tie: bool,
    pub is_end: bool,
    pub octave: u8,
    pub volume: u8,
    pub tone_period: u16,
    pub detune: i16,
    pub infinite_loop_count: u16,
    pub envelope: Envelope,
    pub pitch_lfo: PitchLFO,
    pub frames: Seq<Repeat>,
}

/// The byte `k` places after the cursor.
pub open spec fn byte_after<D: DataAccessor>(s: PartState, d: &D, k: u16) -> u8 {
    d.byte_at(s.next_index.wrapping_add(k))
}

/// The state with the cursor moved `k` places on.
pub open spec fn advanced(s: PartState, k: u16) -> PartState {
    PartState { next_index: s.next_index.wrapping_add(k), ..s }
}

/// Executes the opcode at the cursor.
pub open spec fn step<D: DataAccessor>(s: PartState, d: &D, patch_index: u16) -> (PartState, Flow) {
    let op = byte_after(s, d, 0);
    let arg = byte_after(s, d, 1);
    if op <= 0x7F {
        (PartState {
            length: (op + 1) as u8,
            envelope: if s.is_tie { s.envelope } else { s.envelope.released() },
            ..advanced(s, 1)
        }, Flow::Sound)
    } else if op <= 0xDF {
        let pitch = (op - 0x80) as u8;
        let tied = byte_after(s, d, 2) == TIE_MARKER;
        (PartState {
            next_index: s.next_index.wrapping_add(if tied { 3u16 } else { 2u16 }),
            tone_period: tone_table()[(pitch % 12) as int],
            octave: pitch / 12,
            envelope: if s.is_tie { s.envelope } else { s.envelope.attacked() },
            pitch_lfo: if s.is_tie { s.pitch_lfo } else { s.pitch_lfo.restarted() },
            length: arg,
            is_tie: tied,
            ..s
        }, Flow::Sound)
    } else if op == 0xE0 {
        (PartState { envelope: s.envelope.patched(d, arg, patch_index), ..advanced(s, 2) }, Flow::Next)
    } else if op == 0xE1 {
        (PartState { volume: if arg < MAX_VOLUME { arg } else { MAX_VOLUME }, ..advanced(s, 2) }, Flow::Next)
    } else if op == 0xE2 {
        (PartState {
            frames: frames_started(s.frames, arg, s.next_index.wrapping_add(2)),
            ..advanced(s, 2)
        }, Flow::Next)
    } else if op == 0xE3 {
        let (frames, next_index) = frames_broken(s.frames, s.next_index.wrapping_add(1));
        (PartState { frames, next_index, ..s }, Flow::Next)
    } else if op == 0xE4 {
        let (frames, next_index, endless) = frames_ended(s.frames, s.next_index.wrapping_add(1));
        (PartState {
            frames,
            next_index,
            infinite_loop_count: if endless && s.infinite_loop_count < 0xFFFF {
                (s.infinite_loop_count + 1) as u16
            } else {
                s.infinite_loop_count
            },
            ..s
        }, Flow::Next)
    } else if op == 0xE5 || op == 0xEC {
        (advanced(s, 2), Flow::Next)
    } else if op == 0xE6 {
        (PartState { volume: if s.volume < MAX_VOLUME { (s.volume + 1) as u8 } else { MAX_VOLUME }, ..advanced(s, 1) }, Flow::Next)
    } else if op == 0xE7 {
        (PartState { volume: sat_sub(s.volume, 1), ..advanced(s, 1) }, Flow::Next)
    } else if op == 0xE9 {
        (PartState { detune: short_of(arg, byte_after(s, d, 2)) as i16, ..advanced(s, 3) }, Flow::Next)
    } else if op == 0xEA {
        (PartState {
            pitch_lfo: s.pitch_lfo.with_parameters(
                arg,
                byte_after(s, d, 2),
                byte_after(s, d, 3),
                short_of(byte_after(s, d, 4), byte_after(s, d, 5)) as i16,
            ),
            ..advanced(s, 6)
        }, Flow::Next)
    } else if op == 0xEB {
        (PartState { pitch_lfo: s.pitch_lfo.enabled_as(arg != 0), ..advanced(s, 2) }, Flow::Next)
    } else {
        (PartState { is_end: true, ..advanced(s, 1) }, Flow::Stop)
    }
}

/// Executes opcodes from the cursor until a note or rest, the end of the
/// stream, or `fuel` opcodes; returns whether the channel plays on.
pub open spec fn run<D: DataAccessor>(s: PartState, d: &D, patch_index: u16, fuel: nat) -> (PartState, bool)
    decreases fuel,
{
    if fuel == 0 {
        (PartState { is_end: true, ..s }, false)
    } else {
        let (t, flow) = step(s, d, patch_index);
        match flow {
            Flow::Next => run(t, d, patch_index, (fuel - 1) as nat),
            Flow::Sound => (t, true),
            Flow::Stop => (t, false),
        }
    }
}

/// One tick of a channel, and whether it plays on: an ended channel stays as
/// it is; a sound with time left runs on; else the next opcodes are read.
/// A sound of length 0 lasts one tick, as one of length 1 does.
pub open spec fn ticked<D: DataAccessor>(s: PartState, d: &D, patch_index: u16) -> (PartState, bool) {
    if s.is_end {
        (s, false)
    } else if s.length > 1 {
        (PartState {
            length: (s.length - 1) as u8,
            pitch_lfo: s.pitch_lfo.stepped().0,
            envelope: s.envelope.updated(),
            ..s
        }, true)
    } else {
        run(PartState { length: 0, ..s }, d, patch_index, TICK_OPCODE_LIMIT as nat)
    }
}

/// The tone period sent to the chip: base period, detune and vibrato offset
/// (summed in 16 bits), shifted down by the octave, kept within 1..=4095.
pub open spec fn output_period(tone_period: u16, detune: i16, effect: i16, octave: u8) -> u16 {
    let sum = (tone_period as i16).wrapping_add(detune).wrapping_add(effect);
    if sum <= 0 {
        1
    } else {
        let shifted = (sum as u16) >> octave;
        if shifted < 1 {
            1
        } else if shifted > MAX_TONE_PERIOD {
            MAX_TONE_PERIOD
        } else {
            shifted
        }
    }
}

/// The volume sent to the chip: envelope level scaled by the channel volume.
pub open spec fn output_volume(level: u8, volume: u8) -> u8 {
    ((level as int * volume as int) / 256) as u8
}

/// The tone period write for state `s` on channel `ch`.
pub open spec fn period_event(s: PartState, ch: usize) -> ChipEvent {
    ChipEvent::TonePeriod(ch, output_period(s.tone_period, s.detune, s.pitch_lfo.effect, s.octave))
}

/// The volume write for state `s` on channel `ch`.
pub open spec fn volume_event(s: PartState, ch: usize) -> ChipEvent {
    ChipEvent::Volume(ch, output_volume(s.envelope.current, s.volume))
}

/// Whether `op` is an opcode that only changes the channel's own state.
pub open spec fn is_quiet_control(op: u8) -> bool {
    (0xE0 <= op <= 0xE4) || op == 0xE6 || op == 0xE7 || op == 0xE9 || op == 0xEA || op == 0xEB
}

/// What the opcode at the cursor sends to the chip: a note its tone period
/// then its volume, a noise or routing opcode its register, the end of the
/// stream volume 0, anything else nothing.
pub open spec fn step_events<D: DataAccessor>(s: PartState, d: &D, patch_index: u16, ch: usize) -> Seq<ChipEvent> {
    let op = byte_after(s, d, 0);
    let t = step(s, d, patch_index).0;
    if op <= 0x7F {
        Seq::empty()
    } else if op <= 0xDF {
        seq![period_event(t, ch), volume_event(t, ch)]
    } else if op == 0xE5 {
        seq![ChipEvent::NoisePeriod(byte_after(s, d, 1))]
    } else if op == 0xEC {
        seq![ChipEvent::Mode(ch, output_mode_of(byte_after(s, d, 1)))]
    } else if is_quiet_control(op) {
        Seq::empty()
    } else {
        seq![ChipEvent::Volume(ch, 0)]
    }
}

/// What `run` sends to the chip, in order.
pub open spec fn run_events<D: DataAccessor>(s: PartState, d: &D, patch_index: u16, ch: usize, fuel: nat) -> Seq<ChipEvent>
    decreases fuel,
{
    if fuel == 0 {
        seq![ChipEvent::Volume(ch, 0)]
    } else {
        let (t, flow) = step(s, d, patch_index);
        step_events(s, d, patch_index, ch) + if flow == Flow::Next {
            run_events(t, d, patch_index, ch, (fuel - 1) as nat)
        } else {
            Seq::empty()
        }
    }
}

/// What one tick sends to the chip: nothing for an ended channel; for a
/// sound with time left, its tone period where the vibrato moved, then its
/// volume; else what the opcodes read send.
pub open spec fn tick_events<D: DataAccessor>(s: PartState, d: &D, patch_index: u16, ch: usize) -> Seq<ChipEvent> {
    if s.is_end {
        Seq::empty()
    } else if s.length > 1 {
        let t = ticked(s, d, patch_index).0;
        (if s.pitch_lfo.stepped().1 { seq![period_event(t, ch)] } else { Seq::empty() }) + seq![volume_event(t, ch)]
    } else {
        run_events(PartState { length: 0, ..s }, d, patch_index, ch, TICK_OPCODE_LIMIT as nat)
    }
}

/// The state of a channel that starts reading at `next_index`.
pub open spec fn initial_state(next_index: u16) -> PartState {
    PartState {
        next_index,
        length: 1,
        is_tie: false,
        is_end: false,
        octave: 0,
        volume: 0,
        tone_period: 0,
        detune: 0,
        infinite_loop_count: 0,
        envelope: Envelope::initial(),
        pitch_lfo: PitchLFO::initial(),
        frames: Seq::empty(),
    }
}

/// The bytecode interpreter of one channel. The cursor wraps around at the
/// end of the 16-bit address space.
pub struct Part<'a, D: DataAccessor> {
    pub data_accessor: &'a D,
    pub patch_index: u16,
    pub envelope: Envelope,
    pub repeats: RepeatStack,
    pub pitch_lfo: PitchLFO,
    pub channel_number: usize,
    pub next_index: u16,
    pub length: u8,
    pub is_tie: bool,
    pub is_end: bool,
    pub octave: u8,
    pub volume: u8,
    pub tone_period: u16,
    pub detune: i16,
    pub infinite_loop_count: u16,
}

impl<'a, D: DataAccessor> Part<'a, D> {
    pub open spec fn view(&self) -> PartState {
        PartState {
            next_index: self.next_index,
            length: self.length,
            is_tie: self.is_tie,
            is_end: self.is_end,
            octave: self.octave,
            volume: self.volume,
            tone_period: self.tone_period,
            detune: self.detune,
            infinite_loop_count: self.infinite_loop_count,
            envelope: self.envelope,
            pitch_lfo: self.pitch_lfo,
            frames: self.repeats.frames(),
        }
    }

    pub open spec fn wf(&self) -> bool {
        &&& self.repeats.wf()
        &&& self.octave < 16
        &&& self.volume <= MAX_VOLUME
    }

    /// The fields that a tick never changes.
    pub open spec fn same_source(&self, other: &Self) -> bool {
        &&& self.data_accessor == other.data_accessor
        &&& self.patch_index == other.patch_index
        &&& self.channel_number == other.channel_number
    }

    /// A channel reading from `next_index`, with its first opcode due at the
    /// first tick.
    pub fn new(data_accessor: &'a D, patch_index: u16, channel_number: usize, next_index: u16) -> (r: Self)
        ensures
            r.wf(),
            r.data_accessor == data_accessor,
            r.patch_index == patch_index,
            r.channel_number == channel_number,
            r@ == initial_state(next_index),
    {
        Part {
            data_accessor,
            patch_index,
            envelope: Envelope::new(),
            pitch_lfo: PitchLFO::new(),
            repeats: RepeatStack::new(),
            channel_number,
            next_index,
            length: 1,
            is_tie: false,
            is_end: false,
            octave: 0,
            volume: 0,
            tone_period: 0,
            detune: 0,
            infinite_loop_count: 0,
        }
    }

    /// The tone period and octave of a note `note` semitones above the lowest.
    pub fn split_tone_period_and_octave(note: u8) -> (r: (u16, u8))
        ensures
            r == (tone_table()[(note % 12) as int], note / 12),
    {
        let period: u16 = match note % 12 {
            0 => 3816,
            1 => 3602,
            2 => 3400,
            3 => 3209,
            4 => 3029,
            5 => 2859,
            6 => 2698,
            7 => 2547,
            8 => 2404,
            9 => 2269,
            10 => 2142,
            _ => 2022,
        };
        (period, note / 12)
    }

    /// Reads the byte at the cursor and moves past it.
    pub fn next_byte(&mut self) -> (r: u8)
        ensures
            r == old(self).data_accessor.byte_at(old(self).next_index),
            *final(self) == (Part { next_index: old(self).next_index.wrapping_add(1), ..*old(self) }),
    {
        let result = self.data_accessor.read_byte(self.next_index);
        self.next_index = self.next_index.wrapping_add(1);
        result
    }

    /// Reads the signed little-endian 16-bit value at the cursor and moves past it.
    pub fn next_signed_short(&mut self) -> (r: i16)
        ensures
            r == short_of(
                old(self).data_accessor.byte_at(old(self).next_index),
                old(self).data_accessor.byte_at(old(self).next_index.wrapping_add(1)),
            ) as i16,
            *final(self) == (Part { next_index: old(self).next_index.wrapping_add(2), ..*old(self) }),
    {
        let result = self.data_accessor.read_short(self.next_index) as i16;
        self.next_index = self.next_index.wrapping_add(2);
        result
    }

    /// The tone period to send for the current note.
    pub fn tone_period_output(&self) -> (r: u16)
        requires
            self.octave < 16,
        ensures
            r == output_period(self.tone_period, self.detune, self.pitch_lfo.effect, self.octave),
            1 <= r <= MAX_TONE_PERIOD,
    {
        let sum = (self.tone_period as i16).wrapping_add(self.detune).wrapping_add(self.pitch_lfo.effect);
        if sum <= 0 {
            1
        } else {
            let shifted = (sum as u16) >> self.octave;
            if shifted < 1 {
                1
            } else if shifted > MAX_TONE_PERIOD {
                MAX_TONE_PERIOD
            } else {
                shifted
            }
        }
    }

    /// The volume to send for the current envelope level.
    pub fn volume_output(&self) -> (r: u8)
        requires
            self.volume <= MAX_VOLUME,
        ensures
            r == output_volume(self.envelope.current, self.volume),
            r <= MAX_VOLUME,
    {
        proof {
            let l = self.envelope.current as int;
            let v = self.volume as int;
            assert(0 <= l * v <= 255 * 15) by (nonlinear_arith)
                requires 0 <= l <= 255, 0 <= v <= 15;
        }
        ((self.envelope.current as u16 * self.volume as u16) / 256) as u8
    }

    fn update_volume<P: PsgTrait>(&mut self, psg: &mut P)
        requires
            old(self).wf(),
        ensures
            *final(self) == (Part { envelope: old(self).envelope.updated(), ..*old(self) }),
            final(psg).events() == old(psg).events().push(volume_event(final(self)@, old(self).channel_number)),
            final(psg).reported_sample_rate() == old(psg).reported_sample_rate(),
    {
        self.envelope.update();
        self.apply_volume(psg);
    }

    fn apply_volume<P: PsgTrait>(&self, psg: &mut P)
        requires
            self.wf(),
        ensures
            final(psg).events() == old(psg).events().push(volume_event(self@, self.channel_number)),
            final(psg).reported_sample_rate() == old(psg).reported_sample_rate(),
    {
        psg.set_volume(self.channel_number, self.volume_output());
    }

    fn update_tone_period<P: PsgTrait>(&mut self, psg: &mut P)
        requires
            old(self).wf(),
        ensures
            *final(self) == (Part { pitch_lfo: old(self).pitch_lfo.stepped().0, ..*old(self) }),
            final(psg).events() == old(psg).events() + if old(self).pitch_lfo.stepped().1 {
                seq![period_event(final(self)@, old(self).channel_number)]
            } else {
                Seq::<ChipEvent>::empty()
            },
            final(psg).reported_sample_rate() == old(psg).reported_sample_rate(),
    {
        if self.pitch_lfo.update() {
            self.apply_tone_period(psg);
        } else {
            assert(psg.events() =~= old(psg).events() + Seq::<ChipEvent>::empty());
        }
    }

    fn apply_tone_period<P: PsgTrait>(&self, psg: &mut P)
        requires
            self.wf(),
        ensures
            final(psg).events() == old(psg).events().push(period_event(self@, self.channel_number)),
            final(psg).reported_sample_rate() == old(psg).reported_sample_rate(),
    {
        psg.set_tone_period(self.channel_number, self.tone_period_output());
    }

    /// Executes the opcode at the cursor and sends the register writes it asks for.
    fn exec_op<P: PsgTrait>(&mut self, psg: &mut P) -> (flow: Flow)
        requires
            old(self).wf(),
        ensures
            final(self).wf(),
            final(self).same_source(old(self)),
            (final(self)@, flow) == step(old(self)@, old(self).data_accessor, old(self).patch_index),
            final(psg).events() == old(psg).events() + step_events(
                old(self)@,
                old(self).data_accessor,
                old(self).patch_index,
                old(self).channel_number,
            ),
            final(psg).reported_sample_rate() == old(psg).reported_sample_rate(),
    {
        let data = self.next_byte();
        if data <= 0x7F {
            if !self.is_tie {
                self.envelope.release();
            }
            self.length = data + 1;
            Flow::Sound
        } else if data <= 0xDF {
            let (tone_period, octave) = Self::split_tone_period_and_octave(data - 0x80);
            self.tone_period = tone_period;
            self.octave = octave;
            if !self.is_tie {
                self.envelope.attack();
                self.pitch_lfo.reset();
            }
            self.length = self.next_byte();
            if self.data_accessor.read_byte(self.next_index) == TIE_MARKER {
                self.next_index = self.next_index.wrapping_add(1);
                self.is_tie = true;
            } else {
                self.is_tie = false;
            }
            self.apply_tone_period(psg);
            self.apply_volume(psg);
            Flow::Sound
        } else {
            match data {
                0xE0 => {
                    let patch_number = self.next_byte();
                    self.envelope.set(patch_number, self.data_accessor, self.patch_index);
                },
                0xE1 => {
                    let volume = self.next_byte();
                    self.volume = if volume < MAX_VOLUME { volume } else { MAX_VOLUME };
                },
                0xE2 => {
                    let count = self.next_byte();
                    self.repeats.start(count, self.next_index);
                },
                0xE3 => {
                    self.repeats.break_if_last(&mut self.next_index);
                },
                0xE4 => {
                    let detect_infinite_loop = self.repeats.end(&mut self.next_index);
                    if detect_infinite_loop {
                        self.infinite_loop_count = self.infinite_loop_count.saturating_add(1);
                    }
                },
                0xE5 => {
                    let period = self.next_byte();
                    psg.set_noise_period(period);
                },
                0xE6 => {
                    self.volume = if self.volume < MAX_VOLUME { self.volume + 1 } else { MAX_VOLUME };
                },
                0xE7 => {
                    self.volume = self.volume.saturating_sub(1);
                },
                0xE9 => {
                    self.detune = self.next_signed_short();
                },
                0xEA => {
                    let delay = self.next_byte();
                    let speed = self.next_byte();
                    let depth = self.next_byte();
                    let displacement = self.next_signed_short();
                    self.pitch_lfo.set_parameter(delay, speed, depth, displacement);
                },
                0xEB => {
                    let enable = self.next_byte();
                    self.pitch_lfo.set_enable(enable != 0);
                },
                0xEC => {
                    let mode = output_mode_from_byte(self.next_byte());
                    psg.set_output_mode(self.channel_number, mode);
                },
                _ => {
                    self.end(psg);
                    return Flow::Stop;
                },
            }
            Flow::Next
        }
    }

    /// Advances the channel by one tick and sends its register writes;
    /// returns whether it still plays.
    pub fn tick<P: PsgTrait>(&mut self, psg: &mut P) -> (playing: bool)
        requires
            old(self).wf(),
        ensures
            final(self).wf(),
            final(self).same_source(old(self)),
            (final(self)@, playing) == ticked(old(self)@, old(self).data_accessor, old(self).patch_index),
            final(psg).events() == old(psg).events() + tick_events(
                old(self)@,
                old(self).data_accessor,
                old(self).patch_index,
                old(self).channel_number,
            ),
            final(psg).reported_sample_rate() == old(psg).reported_sample_rate(),
            old(self).is_end ==> *final(psg) == *old(psg),
    {
        if self.is_end {
            assert(psg.events() =~= old(psg).events() + Seq::<ChipEvent>::empty());
            return false;
        }
        if self.length > 1 {
            self.length = self.length - 1;
            self.update_tone_period(psg);
            self.update_volume(psg);
            assert(psg.events() =~= old(psg).events() + tick_events(
                old(self)@,
                old(self).data_accessor,
                old(self).patch_index,
                old(self).channel_number,
            ));
            return true;
        }
        self.length = 0;
        let ghost d = self.data_accessor;
        let ghost target = ticked(old(self)@, old(self).data_accessor, old(self).patch_index);
        let ghost ch = self.channel_number;
        let ghost target_events = old(psg).events() + tick_events(old(self)@, d, self.patch_index, ch);
        let mut fuel: u32 = TICK_OPCODE_LIMIT;
        proof {
            assert(psg.events() + run_events(self@, d, self.patch_index, ch, fuel as nat) =~= target_events);
        }
        loop
            invariant
                !old(self).is_end,
                ch == self.channel_number,
                psg.events() + run_events(self@, d, self.patch_index, ch, fuel as nat) == target_events,
                target_events == old(psg).events() + tick_events(old(self)@, old(self).data_accessor, old(self).patch_index, old(self).channel_number),
                psg.reported_sample_rate() == old(psg).reported_sample_rate(),
                self.wf(),
                self.same_source(old(self)),
                d == self.data_accessor,
                fuel <= TICK_OPCODE_LIMIT,
                run(self@, d, self.patch_index, fuel as nat) == target,
                target == ticked(old(self)@, old(self).data_accessor, old(self).patch_index),
            decreases fuel,
        {
            if fuel == 0 {
                self.end(psg);
                assert(psg.events() =~= target_events);
                return false;
            }
            let ghost before = self@;
            let ghost events_before = psg.events();
            let flow = self.exec_op(psg);
            assert(run_events(before, d, self.patch_index, ch, fuel as nat) == step_events(before, d, self.patch_index, ch)
                + if flow == Flow::Next {
                run_events(self@, d, self.patch_index, ch, (fuel - 1) as nat)
            } else {
                Seq::<ChipEvent>::empty()
            });
            if flow == Flow::Next {
                assert(psg.events() + run_events(self@, d, self.patch_index, ch, (fuel - 1) as nat) =~= target_events);
            } else {
                assert(psg.events() =~= target_events);
            }
            assert(run(before, d, self.patch_index, fuel as nat) == match flow {
                Flow::Next => run(self@, d, self.patch_index, (fuel - 1) as nat),
                Flow::Sound => (self@, true),
                Flow::Stop => (self@, false),
            });
            match flow {
                Flow::Next => {},
                Flow::Sound => {
                    return true;
                },
                Flow::Stop => {
                    return false;
                },
            }
            fuel = fuel - 1;
        }
    }

    /// Silences the channel and marks it ended.
    pub fn end<P: PsgTrait>(&mut self, psg: &mut P)
        ensures
            *final(self) == (Part { is_end: true, ..*old(self) }),
            final(psg).events() == old(psg).events().push(ChipEvent::Volume(old(self).channel_number, 0)),
            final(psg).reported_sample_rate() == old(psg).reported_sample_rate(),
    {
        psg.set_volume(self.channel_number, 0);
        self.is_end = true;
    }
}

} // verus!

verus! {

proof fn lemma_run_stops_only_when_ended<D: DataAccessor>(s: PartState, d: &D, patch_index: u16, fuel: nat)
    ensures
        !run(s, d, patch_index, fuel).1 ==> run(s, d, patch_index, fuel).0.is_end,
    decreases fuel,
{
    if fuel > 0 {
        let (t, flow) = step(s, d, patch_index);
        if flow == Flow::Next {
            lemma_run_stops_only_when_ended(t, d, patch_index, (fuel - 1) as nat);
        }
    }
}

/// A channel that reports it has stopped is ended, and an ended channel
/// stays exactly as it is and keeps reporting that it has stopped at every
/// later tick.
pub proof fn lemma_ended_part_stays_ended<D: DataAccessor>(s: PartState, d: &D, patch_index: u16)
    ensures
        !ticked(s, d, patch_index).1 ==> ticked(s, d, patch_index).0.is_end,
        s.is_end ==> ticked(s, d, patch_index) == (s, false),
{
    if !s.is_end && s.length <= 1 {
        lemma_run_stops_only_when_ended(PartState { length: 0, ..s }, d, patch_index, TICK_OPCODE_LIMIT as nat);
    }
}

/// A channel whose bytecode starts with an end opcode is due at its first
/// tick and stops there.
pub proof fn lemma_part_ending_at_once_stops_at_first_tick<D: DataAccessor>(s: PartState, d: &D, patch_index: u16)
    requires
        s.length == 1,
        !s.is_end,
        d.byte_at(s.next_index) >= 0xED || d.byte_at(s.next_index) == TIE_MARKER,
    ensures
        !ticked(s, d, patch_index).1,
        ticked(s, d, patch_index).0.is_end,
{
    assert(s.next_index.wrapping_add(0) == s.next_index);
}

} // verus!

verus! {

proof fn lemma_run_events_pull_nothing<D: DataAccessor>(s: PartState, d: &D, patch_index: u16, ch: usize, fuel: nat)
    ensures
        forall|i: int|
            0 <= i < run_events(s, d, patch_index, ch, fuel).len() ==> !(#[trigger] run_events(
                s,
                d,
                patch_index,
                ch,
                fuel,
            )[i] is Sample),
    decreases fuel,
{
    if fuel > 0 {
        let (t, flow) = step(s, d, patch_index);
        if flow == Flow::Next {
            lemma_run_events_pull_nothing(t, d, patch_index, ch, (fuel - 1) as nat);
        }
    }
}

/// A tick of a channel writes registers only and pulls no sample.
pub proof fn lemma_tick_events_pull_nothing<D: DataAccessor>(s: PartState, d: &D, patch_index: u16, ch: usize)
    ensures
        samples_of(tick_events(s, d, patch_index, ch)) == Seq::<i16>::empty(),
{
    if !s.is_end && s.length <= 1 {
        lemma_run_events_pull_nothing(PartState { length: 0, ..s }, d, patch_index, ch, TICK_OPCODE_LIMIT as nat);
    }
    lemma_writes_pull_nothing(tick_events(s, d, patch_index, ch));
}

} // verus!
