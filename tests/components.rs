use psg_sequencer::{
    ChipEvent,
    output_mode_from_byte, DataAccessor, Envelope, EnvelopePhase, OutputMode, Part, PitchLFO, PsgTrait,
    RepeatStack, SamplesPerTick, Sequencer,
};

struct Song(Vec<u8>);

impl DataAccessor for Song {
    fn byte_at(&self, index: u16) -> u8 {
        self.0[index as usize]
    }
    fn read_byte(&self, index: u16) -> u8 {
        self.0[index as usize]
    }
    fn read_short(&self, index: u16) -> u16 {
        self.0[index as usize] as u16 | (self.0[index as usize + 1] as u16) << 8
    }
}

#[derive(Default)]
struct RecordingPsg {
    tone: [u16; 3],
    volume: [u8; 3],
    mode: Vec<(usize, OutputMode)>,
    noise: Vec<u8>,
    pulled: usize,
}

impl PsgTrait for RecordingPsg {
    fn reported_sample_rate(&self) -> u32 {
        44100
    }
    fn sample_rate(&self) -> u32 {
        44100
    }
    fn clock_rate(&self) -> u32 {
        2_000_000
    }
    fn set_tone_period(&mut self, channel: usize, period: u16) {
        self.tone[channel] = period;
    }
    fn set_volume(&mut self, channel: usize, volume: u8) {
        self.volume[channel] = volume;
    }
    fn set_output_mode(&mut self, channel: usize, mode: OutputMode) {
        self.mode.push((channel, mode));
    }
    fn set_noise_period(&mut self, period: u8) {
        self.noise.push(period);
    }
    fn next_sample_i16(&mut self) -> i16 {
        self.pulled += 1;
        7
    }
}

/// A song with no title whose channel 0 plays `body`.
fn song(body: &[u8]) -> Song {
    let mut d = vec![0x00u8, 0x00, 0x00, 0x00, 0x0a, 0x00, 0x00, 0x00, 0x00, 0x00];
    d.extend_from_slice(body);
    Song(d)
}

fn samples_in_ticks(rate: u64, n: u64) -> u64 {
    n * rate * 100 / 5994
}

#[test]
fn default_envelope_holds_full_level_until_release() {
    let mut e = Envelope::new();
    e.attack();
    assert_eq!(e.current, 255);
    assert_eq!(e.phase, EnvelopePhase::Decay);
    for _ in 0..1000 {
        e.update();
        assert_eq!(e.current, 255);
    }
    e.release();
    e.update();
    assert_eq!(e.current, 0);
    assert_eq!(e.phase, EnvelopePhase::Release);
}

#[test]
fn envelope_phases_step_as_described() {
    let mut e = Envelope::new();
    e.al = 100;
    e.ar = 100;
    e.dr = 30;
    e.sl = 200;
    e.sr = 50;
    e.attack();
    assert_eq!((e.current, e.phase), (100, EnvelopePhase::Attack));
    e.update();
    assert_eq!((e.current, e.phase), (200, EnvelopePhase::Attack));
    e.update();
    assert_eq!((e.current, e.phase), (255, EnvelopePhase::Decay));
    e.update();
    assert_eq!((e.current, e.phase), (225, EnvelopePhase::Decay));
    e.update();
    assert_eq!((e.current, e.phase), (200, EnvelopePhase::Sustain));
    e.update();
    assert_eq!((e.current, e.phase), (150, EnvelopePhase::Sustain));
}

#[test]
fn envelope_patch_missing_keeps_parameters() {
    let d = Song(vec![0x03, 1, 2, 3, 4, 5, 6, 0xFF]);
    let mut e = Envelope::new();
    assert!(!e.set(0x05, &d, 0));
    assert_eq!((e.al, e.ar, e.dr, e.sl, e.sr, e.rr), (255, 255, 0, 0, 0, 255));
    assert!(e.set(0x03, &d, 0));
    assert_eq!((e.al, e.ar, e.dr, e.sl, e.sr, e.rr), (1, 2, 3, 4, 5, 6));
}

#[test]
fn lfo_fires_after_delay_and_reverses_at_depth() {
    let mut l = PitchLFO::new();
    assert!(!l.update());
    l.set_parameter(2, 1, 2, 5);
    assert_eq!((l.wait_count, l.depth_count, l.effect), (2, 1, 0));
    assert!(!l.update());
    assert!(l.update());
    assert_eq!(l.effect, 5);
    assert_eq!(l.current_displacement, -5);
    assert_eq!(l.depth_count, 2);
    assert!(l.update());
    assert_eq!(l.effect, 0);
    assert!(l.update());
    assert_eq!(l.effect, -5);
    assert_eq!(l.current_displacement, 5);
    l.set_enable(false);
    assert_eq!(l.effect, 0);
    assert!(!l.update());
}

#[test]
fn lfo_with_zero_delay_fires_at_once() {
    let mut l = PitchLFO::new();
    l.set_parameter(0, 0, 0, -3);
    assert!(l.update());
    assert_eq!(l.effect, -3);
    assert!(l.update());
    assert_eq!(l.effect, 0);
}

#[test]
fn repeat_stack_runs_two_passes_and_breaks_on_the_last() {
    let mut r = RepeatStack::new();
    assert_eq!(r.len(), 0);
    assert!(r.front().is_none());
    r.start(2, 10);
    assert_eq!(r.len(), 1);
    let f = r.front().unwrap();
    assert_eq!((f.start, f.end, f.count), (10, None, 2));
    let mut cursor: u16 = 12;
    r.break_if_last(&mut cursor);
    assert_eq!((cursor, r.len()), (12, 1));
    assert!(!r.end(&mut cursor));
    assert_eq!(cursor, 10);
    let f = r.front().unwrap();
    assert_eq!((f.end, f.count), (Some(12), 1));
    cursor = 11;
    r.break_if_last(&mut cursor);
    assert_eq!((cursor, r.len()), (12, 0));
}

#[test]
fn repeat_stack_drops_a_ninth_frame() {
    let mut r = RepeatStack::new();
    for i in 0..9u16 {
        r.start(3, i);
    }
    assert_eq!(r.len(), 8);
    assert_eq!(r.front().unwrap().start, 7);
    let mut cursor: u16 = 100;
    assert!(!r.end(&mut cursor));
    assert_eq!(cursor, 7);
}

#[test]
fn repeat_stack_reports_endless_loops() {
    let mut r = RepeatStack::new();
    r.start(0, 4);
    let mut cursor: u16 = 9;
    assert!(r.end(&mut cursor));
    assert_eq!(cursor, 4);
    assert_eq!(r.len(), 1);
    let mut other: u16 = 9;
    assert!(!RepeatStack::new().end(&mut other));
    assert_eq!(other, 9);
}

#[test]
fn samples_per_tick_has_no_drift_at_44100() {
    let mut s = SamplesPerTick::new(44100);
    assert_eq!(s.samples(), 735);
    let mut total: u64 = 0;
    for n in 1..=5000u64 {
        let this = s.samples() as u64;
        assert!(this == 735 || this == 736);
        total += this;
        assert_eq!(total, samples_in_ticks(44100, n));
        s.next();
    }
    assert_eq!(total, 3_678_678);
}

#[test]
fn samples_per_tick_consume_counts_down() {
    let mut s = SamplesPerTick::new(44100);
    assert!(s.consume(700));
    assert_eq!(s.samples(), 35);
    assert!(!s.consume(35));
    s.next();
    assert_eq!(s.samples(), 736);
}

#[test]
fn output_mode_bytes() {
    assert_eq!(output_mode_from_byte(1), OutputMode::Tone);
    assert_eq!(output_mode_from_byte(2), OutputMode::Noise);
    assert_eq!(output_mode_from_byte(3), OutputMode::ToneNoise);
    assert_eq!(output_mode_from_byte(0), OutputMode::Off);
    assert_eq!(output_mode_from_byte(9), OutputMode::Off);
}

#[test]
fn tone_period_and_volume_outputs() {
    assert_eq!(Part::<Song>::split_tone_period_and_octave(0), (3816, 0));
    assert_eq!(Part::<Song>::split_tone_period_and_octave(13), (3602, 1));
    assert_eq!(Part::<Song>::split_tone_period_and_octave(95), (2022, 7));
    let d = song(&[0xFF]);
    let mut p = Part::new(&d, 0, 0, 10);
    p.tone_period = 3816;
    p.detune = 4;
    p.pitch_lfo.effect = -20;
    p.octave = 1;
    assert_eq!(p.tone_period_output(), 1900);
    p.octave = 0;
    p.detune = 500;
    assert_eq!(p.tone_period_output(), 4095);
    p.detune = -4000;
    assert_eq!(p.tone_period_output(), 1);
    p.envelope.current = 200;
    p.volume = 15;
    assert_eq!(p.volume_output(), 11);
}

#[test]
fn part_commands_reach_the_chip() {
    let d = song(&[0xE5, 0x1F, 0xEC, 0x03, 0xE1, 0x0F, 0xE9, 0x02, 0x00, 0x98, 0x00, 0xFF]);
    let sequencer = Sequencer::new(&d);
    let mut psg = RecordingPsg::default();
    let mut player = sequencer.play(&mut psg);
    assert!(player.tick());
    let part = player.parts[0].as_ref().unwrap();
    assert_eq!(part.detune, 2);
    assert_eq!(part.octave, 2);
    assert_eq!(part.length, 0);
    assert!(!player.tick());
    assert!(!player.is_playing());
    assert_eq!(psg.noise, vec![0, 0x1F]);
    assert!(psg.mode.contains(&(0, OutputMode::ToneNoise)));
    assert_eq!(psg.tone[0], 954);
    assert_eq!(psg.volume[0], 0);
}

#[test]
fn part_volume_steps_are_clamped() {
    let d = song(&[0xE1, 0x40, 0xE6, 0x00, 0xE1, 0x00, 0xE7, 0x00, 0xFF]);
    let sequencer = Sequencer::new(&d);
    let mut psg = RecordingPsg::default();
    let mut player = sequencer.play(&mut psg);
    assert!(player.tick());
    assert_eq!(player.parts[0].as_ref().unwrap().volume, 15);
    assert!(player.tick());
    assert_eq!(player.parts[0].as_ref().unwrap().volume, 0);
}

#[test]
fn tied_notes_keep_the_envelope() {
    let d = song(&[0xE1, 0x0F, 0x80, 0x01, 0xE8, 0x82, 0x01, 0xFF]);
    let sequencer = Sequencer::new(&d);
    let mut psg = RecordingPsg::default();
    let mut player = sequencer.play(&mut psg);
    assert!(player.tick());
    let part = player.parts[0].as_ref().unwrap();
    assert!(part.is_tie);
    assert_eq!(part.next_index, 15);
    assert!(player.tick());
    let part = player.parts[0].as_ref().unwrap();
    assert!(!part.is_tie);
    assert_eq!(part.tone_period, 3400);
    assert_eq!(psg_volume_of(&part.envelope), 255);
}

fn psg_volume_of(e: &Envelope) -> u8 {
    e.current
}

#[test]
fn ended_channel_stays_ended() {
    let d = song(&[0xFF]);
    let mut psg = RecordingPsg::default();
    let mut p = Part::new(&d, 0, 0, 10);
    assert_eq!(p.length, 1);
    assert!(!p.tick(&mut psg));
    assert!(p.is_end);
    assert_eq!(p.next_index, 11);
    for _ in 0..3 {
        assert!(!p.tick(&mut psg));
        assert_eq!(p.next_index, 11);
    }
}

#[test]
fn endless_control_loop_ends_the_channel() {
    let d = song(&[0xE2, 0x00, 0xE4]);
    let mut psg = RecordingPsg::default();
    let mut p = Part::new(&d, 0, 0, 10);
    assert!(!p.tick(&mut psg));
    assert!(p.is_end);
    assert_eq!(p.infinite_loop_count, u16::MAX);
}

#[test]
fn loop_limit_stops_an_endless_song() {
    let d = song(&[0xE2, 0x00, 0x00, 0xE4, 0xFF]);
    let sequencer = Sequencer::new(&d);
    let mut psg = RecordingPsg::default();
    let mut player = sequencer.play(&mut psg);
    player.set_max_loop_count(Some(1));
    let mut buffer = [0i16; 4096];
    let written = player.next_samples_i16(&mut buffer);
    assert_eq!(written as u64, samples_in_ticks(44100, 3));
    assert_eq!(written, 2207);
    assert!(buffer[..written].iter().all(|s| *s == 7));
    assert!(buffer[written..].iter().all(|s| *s == 0));
    let part = player.parts[0].as_ref().unwrap();
    assert!(part.is_end);
    assert_eq!(part.infinite_loop_count, 1);
    assert_eq!(player.next_samples_i16(&mut buffer), 0);
}

#[test]
fn samples_stop_when_the_song_ends() {
    let d = song(&[0x01, 0xFF]);
    let sequencer = Sequencer::new(&d);
    let mut psg = RecordingPsg::default();
    let mut player = sequencer.play(&mut psg);
    let mut buffer = [0i16; 1000];
    assert_eq!(player.next_samples_i16(&mut buffer), 1000);
    let mut rest = [0i16; 4000];
    let written = player.next_samples_i16(&mut rest);
    assert_eq!(1000 + written as u64, samples_in_ticks(44100, 3));
    assert!(!player.is_playing());
    drop(player);
    assert_eq!(psg.pulled as u64, samples_in_ticks(44100, 3));
}

#[test]
fn end_silences_every_channel() {
    let d = song(&[0x10, 0xFF]);
    let sequencer = Sequencer::new(&d);
    let mut psg = RecordingPsg::default();
    let mut player = sequencer.play(&mut psg);
    player.end();
    assert!(player.is_playing());
    assert!(player.parts[0].as_ref().unwrap().is_end);
    assert!(!player.tick());
    assert!(!player.is_playing());
}

#[test]
fn title_shows_newline_as_space() {
    let d = Song(vec![b'A', b'\n', b'B', 0x00, 0x00, 0x05, 0x00, 0x00, 0x00, 0x00, 0x00, 0x00, 0x00]);
    let sequencer = Sequencer::new(&d);
    assert_eq!(sequencer.title(), b"A B".to_vec());
    let mut iter = sequencer.title_iter();
    assert_eq!(iter.next(), Some(b'A'));
    assert_eq!(iter.next(), Some(b' '));
    assert_eq!(iter.next(), Some(b'B'));
    assert_eq!(iter.next(), None);
    assert_eq!(iter.next(), None);
    assert_eq!(sequencer.patch_index, 8);
    assert!(sequencer.part_indexes.iter().all(|p| p.is_none()));
}

struct LoggingPsg {
    log: Vec<ChipEvent>,
}

impl PsgTrait for LoggingPsg {
    fn reported_sample_rate(&self) -> u32 {
        44100
    }
    fn sample_rate(&self) -> u32 {
        44100
    }
    fn clock_rate(&self) -> u32 {
        2_000_000
    }
    fn set_tone_period(&mut self, channel: usize, period: u16) {
        self.log.push(ChipEvent::TonePeriod(channel, period));
    }
    fn set_volume(&mut self, channel: usize, volume: u8) {
        self.log.push(ChipEvent::Volume(channel, volume));
    }
    fn set_output_mode(&mut self, channel: usize, mode: OutputMode) {
        self.log.push(ChipEvent::Mode(channel, mode));
    }
    fn set_noise_period(&mut self, period: u8) {
        self.log.push(ChipEvent::NoisePeriod(period));
    }
    fn next_sample_i16(&mut self) -> i16 {
        self.log.push(ChipEvent::Sample(3));
        3
    }
}

#[test]
fn chip_receives_setup_note_and_end_writes_in_order() {
    let d = song(&[0xE1, 0x0F, 0x80, 0x02, 0x00, 0xFF]);
    let sequencer = Sequencer::new(&d);
    let mut psg = LoggingPsg { log: Vec::new() };
    let mut player = sequencer.play(&mut psg);
    assert!(player.tick());
    assert!(player.tick());
    assert!(player.tick());
    assert!(!player.tick());
    drop(player);
    let expected = vec![
        ChipEvent::Mode(0, OutputMode::Tone),
        ChipEvent::Volume(0, 0),
        ChipEvent::TonePeriod(0, 0),
        ChipEvent::Mode(1, OutputMode::Tone),
        ChipEvent::Volume(1, 0),
        ChipEvent::TonePeriod(1, 0),
        ChipEvent::Mode(2, OutputMode::Tone),
        ChipEvent::Volume(2, 0),
        ChipEvent::TonePeriod(2, 0),
        ChipEvent::NoisePeriod(0),
        // note: period then volume (255 * 15 / 256)
        ChipEvent::TonePeriod(0, 3816),
        ChipEvent::Volume(0, 14),
        // second tick of the note: no vibrato, so only the volume
        ChipEvent::Volume(0, 14),
        // the rest writes nothing; the end writes volume 0
        ChipEvent::Volume(0, 0),
    ];
    assert_eq!(psg.log, expected);
}

#[test]
fn samples_pulled_fill_the_buffer_in_order() {
    let d = song(&[0x01, 0xFF]);
    let sequencer = Sequencer::new(&d);
    let mut psg = LoggingPsg { log: Vec::new() };
    let mut player = sequencer.play(&mut psg);
    let mut buffer = [9i16; 3000];
    let written = player.next_samples_i16(&mut buffer);
    assert_eq!(written, 2207);
    assert!(buffer[..written].iter().all(|s| *s == 3));
    assert!(buffer[written..].iter().all(|s| *s == 9));
    assert_eq!(player.next_samples_i16(&mut buffer), 0);
    drop(player);
    let pulled = psg.log.iter().filter(|e| matches!(e, ChipEvent::Sample(_))).count();
    assert_eq!(pulled, 2207);
}
