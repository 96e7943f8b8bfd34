use byteorder::{ByteOrder, LittleEndian};
use psg_sequencer::{DataAccessor, OutputMode, PlayContext, PsgTrait, Sequencer};

struct DummyPsg {}

impl PsgTrait for DummyPsg {
    fn reported_sample_rate(&self) -> u32 {
        44100
    }
    fn sample_rate(&self) -> u32 {
        44100
    }
    fn clock_rate(&self) -> u32 {
        2_000_000
    }
    fn set_tone_period(&mut self, _channel: usize, _tune: u16) {}
    fn set_volume(&mut self, _channel: usize, _volume: u8) {}
    fn set_output_mode(&mut self, _channel: usize, _mode: OutputMode) {}
    fn set_noise_period(&mut self, _frequency: u8) {}
    fn next_sample_i16(&mut self) -> i16 {
        0i16
    }
}

struct Blob<const N: usize>([u8; N]);

impl<const N: usize> DataAccessor for Blob<N> {
    fn byte_at(&self, index: u16) -> u8 {
        self.0[index as usize]
    }
    fn read_byte(&self, index: u16) -> u8 {
        self.0[index as usize]
    }
    fn read_short(&self, index: u16) -> u16 {
        LittleEndian::read_u16(&self.0[index as usize..])
    }
}

fn player<'a, const N: usize>(
    sequencer: &Sequencer<'a, Blob<N>>,
    sg: &'a mut DummyPsg,
) -> PlayContext<'a, Blob<N>, DummyPsg> {
    sequencer.play(sg)
}

#[test]
fn test_data_accessor() {
    let data = Blob([0x00u8, 0x01, 0x02, 0x03]);
    assert_eq!(data.read_byte(0), 0x00);
    assert_eq!(data.read_byte(1), 0x01);
    assert_eq!(data.read_byte(2), 0x02);
    assert_eq!(data.read_short(0), 0x0100);
    assert_eq!(data.read_short(1), 0x0201);
    assert_eq!(data.read_short(2), 0x0302);
}

#[test]
fn test_header() {
    let data = Blob([
        0x41u8, 0x42, 0x43,
        0x00, // title end
        0x00, // flags (unused)
        0x12, 0x34, // patch offset
        0x56, 0x78, // part 0 offset
        0x9a, 0xbc, // part 1 offset
        0x00, 0x00, // part 2 offset
    ]);
    let sequencer = Sequencer::new(&data);
    let mut bytes: Vec<u8> = Vec::new();
    let mut iter = sequencer.title_iter();
    while let Some(b) = iter.next() {
        bytes.push(b);
    }
    let title = String::from_utf8(bytes).unwrap();
    assert_eq!(title, "ABC");
    assert_eq!(sequencer.patch_index, 0x3412 + 3);
    assert_eq!(sequencer.part_indexes[0].unwrap(), 0x7856 + 3);
    assert_eq!(sequencer.part_indexes[1].unwrap(), 0xbc9a + 3);
    assert!(sequencer.part_indexes[2].is_none());
}

#[test]
fn test_sequencer() {
    let data = Blob([
        0x00u8, // title end
        0x00, // flags (unused)
        0x00, 0x00, // patch offset
        0x0a, 0x00, // part 0 offset
        0x0b, 0x00, // part 1 offset
        0x00, 0x00, // part 2 offset
        0x10, // part 0 body
        0x20, // part 1 body
    ]);
    let sequencer = Sequencer::new(&data);
    let mut sg = DummyPsg {};
    let player = player(&sequencer, &mut sg);
    assert!(player.is_playing());

    let part = player.parts[0].as_ref().unwrap();
    assert_eq!(part.channel_number, 0);
    assert_eq!(part.next_index, 0x000a);

    let part = player.parts[1].as_ref().unwrap();
    assert_eq!(part.channel_number, 1);
    assert_eq!(part.next_index, 0x000b);

    assert!(player.parts[2].is_none());
}

#[test]
fn test_part_next_data() {
    let data = Blob([
        0x00u8, // title end
        0x00, // flags (unused)
        0x00, 0x00, // patch offset
        0x0a, 0x00, // part 0 offset
        0x00, 0x00, // part 1 offset
        0x00, 0x00, // part 2 offset
        0x10, // part 0 body
        0xff, 0x7f, // short 32767
        0x00, 0xff, // short -256
    ]);
    let sequencer = Sequencer::new(&data);
    let mut sg = DummyPsg {};
    let mut player = player(&sequencer, &mut sg);
    let part = player.parts[0].as_mut().unwrap();
    assert_eq!(part.next_byte(), 0x10u8);
    assert_eq!(part.next_signed_short(), 32767i16);
    assert_eq!(part.next_signed_short(), -256i16);
}

#[test]
fn test_part_command_reset() {
    let data = Blob([
        0x00u8, // title end
        0x00, // flags (unused)
        0x00, 0x00, // patch offset
        0x0a, 0x00, // part 0 offset
        0x00, 0x00, // part 1 offset
        0x00, 0x00, // part 2 offset
        // part 0 body
        0x00, // rest 1 tick
        0x01, // rest 2 ticks
        0xff, // end
    ]);
    let sequencer = Sequencer::new(&data);
    let mut sg = DummyPsg {};
    let mut player = player(&sequencer, &mut sg);
    assert!(player.is_playing());

    // first dummy tick
    let part = player.parts[0].as_ref().unwrap();
    assert_eq!(part.length, 1);
    assert_eq!(part.next_index, 0x0a);
    assert!(player.tick());

    // 0x00 (1 tick rest)
    let part = player.parts[0].as_ref().unwrap();
    assert_eq!(part.length, 1);
    assert_eq!(part.next_index, 0x0b);
    assert!(player.tick());

    // 0x01 (2 ticks rest)
    let part = player.parts[0].as_ref().unwrap();
    assert_eq!(part.length, 2);
    assert_eq!(part.next_index, 0x0c);
    assert!(player.tick());

    // 0x01 (continue)
    let part = player.parts[0].as_ref().unwrap();
    assert_eq!(part.length, 1);
    assert_eq!(part.next_index, 0x0c);
    assert!(!player.tick());

    assert!(player.parts[0].is_none());

    assert!(!player.is_playing());
}

#[test]
fn test_part_commands() {
    let data = Blob([
        0x00u8, // title end
        0x00, // flags (unused)
        0x00, 0x00, // patch offset
        0x0a, 0x00, // part 0 offset
        0x00, 0x00, // part 1 offset
        0x00, 0x00, // part 2 offset
        // part 0 body
        0xE1, 0x08, // volume 8
        0x80, 0x01, // o1c 1 tick
        0xE1, 0x0f, // volume 15
        0x8d, 0x02, // o2c+ 2 ticks
        0xff, // end
    ]);
    let sequencer = Sequencer::new(&data);
    let mut sg = DummyPsg {};
    let mut player = player(&sequencer, &mut sg);
    assert!(player.is_playing());

    // first dummy tick
    let part = player.parts[0].as_ref().unwrap();
    assert_eq!(part.length, 1);
    assert_eq!(part.next_index, 0x0a);
    assert!(player.tick());

    // 0xE1, 0x08 volume 8
    // 0x80, 0x01 (1 tick o1c)
    let part = player.parts[0].as_ref().unwrap();
    assert_eq!(part.length, 1);
    assert_eq!(part.octave, 0);
    assert_eq!(part.volume, 8);
    assert_eq!(part.next_index, 0x0e);
    assert!(player.tick());

    // 0xE1, 0x0f volume 15
    // 0x8d, 0x02 (2 ticks o2c+)
    let part = player.parts[0].as_ref().unwrap();
    assert_eq!(part.length, 2);
    assert_eq!(part.octave, 1);
    assert_eq!(part.volume, 15);
    assert_eq!(part.next_index, 0x12);
    assert!(player.tick());

    // 0x8d, 0x02 (continue)
    let part = player.parts[0].as_ref().unwrap();
    assert_eq!(part.length, 1);
    assert_eq!(part.next_index, 0x12);
    assert!(!player.tick());

    assert!(player.parts[0].is_none());

    assert_eq!(player.is_playing(), false);
}

#[test]
fn test_part_command_repeat() {
    let data = Blob([
        0x00u8, // title end
        0x00, // flags (unused)
        0x00, 0x00, // patch offset
        0x0a, 0x00, // part 0 offset
        0x00, 0x00, // part 1 offset
        0x00, 0x00, // part 2 offset
        // part 0 body
        0xE2, 0x02, // repeat start count 2
        0x00, // rest 1 tick
        0xE3, // break loop if count = 1
        0x00, // rest 1 tick
        0xE4, // repeat end
        0x00, // rest 1 tick
        0xff, // end
    ]);
    let sequencer = Sequencer::new(&data);
    let mut sg = DummyPsg {};
    let mut player = player(&sequencer, &mut sg);
    assert!(player.is_playing());

    // first dummy tick
    let part = player.parts[0].as_ref().unwrap();
    assert_eq!(part.length, 1);
    assert_eq!(part.next_index, 0x0a);
    assert!(player.tick());

    // 0xE2 0x02 (repeat start count 2)
    // 0x00 (1 tick rest)
    let part = player.parts[0].as_ref().unwrap();
    assert_eq!(part.length, 1);
    assert_eq!(part.next_index, 0x0d);
    assert_eq!(part.repeats.len(), 1);
    assert_eq!(part.repeats.front().unwrap().count, 2);
    assert!(player.tick());

    // 0xE3 (break loop if count = 1)
    // 0x00 (1 tick rest)
    let part = player.parts[0].as_ref().unwrap();
    assert_eq!(part.length, 1);
    assert_eq!(part.next_index, 0x0f);
    assert_eq!(part.repeats.len(), 1);
    assert_eq!(part.repeats.front().unwrap().count, 2);
    assert!(player.tick());

    // 0x00 (1 tick rest)
    let part = player.parts[0].as_ref().unwrap();
    assert_eq!(part.length, 1);
    assert_eq!(part.next_index, 0x0d);
    assert_eq!(part.repeats.len(), 1);
    assert_eq!(part.repeats.front().unwrap().count, 1);
    assert!(player.tick());

    // repeat end
    // 0x00 (1 tick rest)
    let part = player.parts[0].as_ref().unwrap();
    assert_eq!(part.length, 1);
    assert_eq!(part.next_index, 0x11);
    assert_eq!(part.repeats.len(), 0);
    assert!(!player.tick());

    assert!(player.parts[0].is_none());
    assert!(!player.is_playing());
}

#[test]
fn test_patch() {
    let data = Blob([
        0x00u8, // title end
        0x00, // flags (unused)
        0x0a, 0x00, // patch offset
        0x12, 0x00, // part 0 offset
        0x00, 0x00, // part 1 offset
        0x00, 0x00, // part 2 offset
        0x01, 0x02, 0x03, 0x04, 0x05, 0x06, 0x07, 0xFF, // patch: 0x01
        0xE0, 0x01, 0x00, // part 0 body
        0xFF,
    ]);
    let sequencer = Sequencer::new(&data);
    let mut sg = DummyPsg {};
    let mut player = player(&sequencer, &mut sg);
    assert!(player.is_playing());

    // default patch
    let part = player.parts[0].as_ref().unwrap();
    assert_eq!(part.envelope.al, 0xFF);
    assert_eq!(part.envelope.ar, 0xFF);
    assert_eq!(part.envelope.dr, 0x00);
    assert_eq!(part.envelope.sl, 0x00);
    assert_eq!(part.envelope.sr, 0x00);
    assert_eq!(part.envelope.rr, 0xFF);
    assert!(player.tick());

    // patch: 0x01
    let part = player.parts[0].as_ref().unwrap();
    assert_eq!(part.envelope.al, 0x02);
    assert_eq!(part.envelope.ar, 0x03);
    assert_eq!(part.envelope.dr, 0x04);
    assert_eq!(part.envelope.sl, 0x05);
    assert_eq!(part.envelope.sr, 0x06);
    assert_eq!(part.envelope.rr, 0x07);
}

#[test]
fn test_part() {
    let data = Blob([
        0x00u8, // title end
        0x00, // flags (unused)
        0x00, 0x00, // patch offset
        0x0a, 0x00, // part 0 offset
        0x0a, 0x00, // part 1 offset
        0x00, 0x00, // part 2 offset
        0xFF, // part 0 body
        0xFF, // part 1 body
    ]);
    let sequencer = Sequencer::new(&data);
    let mut sg = DummyPsg {};
    let mut player = player(&sequencer, &mut sg);
    assert!(player.is_playing());

    assert!(player.parts[0].is_some());
    assert_eq!(player.parts[0].as_ref().unwrap().length, 1);
    assert!(player.parts[1].as_ref().is_some());
    assert_eq!(player.parts[1].as_ref().unwrap().length, 1);
    assert!(player.parts[2].as_ref().is_none());
    assert!(player.is_playing());
    assert!(!player.tick());
    assert!(player.parts[0].is_none());
    assert!(player.parts[1].is_none());
    assert!(player.parts[2].is_none());
    assert!(!player.is_playing());
}

#[test]
fn test_part_patch() {
    let data = Blob([
        0x00u8, // title end
        0x00, // flags (unused)
        0x0a, 0x00, // patch offset
        0x19, 0x00, // part 0 offset
        0x00, 0x00, // part 1 offset
        0x00, 0x00, // part 2 offset
        // patch 0 (al = 0x10, ar = 0x10, dr = 0xFF, sr = 0xFF, sl = 0xFF, rr = 0x01)
        0x00, 0x10, 0x10, 0xFF, 0xFF, 0xFF, 0x01,
        // patch 1 (al = 0x20, ar = 0x20, dr = 0xFF, sr = 0xFF, sl = 0xFF, rr = 0x01)
        0x01, 0x20, 0x10, 0xFF, 0xFF, 0xFF, 0x01,
        // patch table end
        0xFF,
        // part 0 body (patch 0x00, o1c 1 clock)
        0xE0, 0x00, 0x80, 0x01,
        // part 0 body (patch 0x01, o1c 1 clock)
        0xE0, 0x01, 0x80, 0x02,
        0xFF,
    ]);
    let sequencer = Sequencer::new(&data);
    let mut sg = DummyPsg {};
    let mut player = player(&sequencer, &mut sg);
    assert!(player.is_playing());

    assert!(player.parts[0].as_ref().is_some());
    assert!(player.tick());

    assert!(player.parts[0].as_ref().is_some());
    assert!(player.is_playing());
    let part = player.parts[0].as_ref().unwrap();
    assert_eq!(part.length, 1);
    assert_eq!(part.envelope.current, 0x10);
    assert!(player.tick());

    let part = player.parts[0].as_ref().unwrap();
    assert_eq!(part.length, 2);
    assert_eq!(part.envelope.current, 0x20);
    assert!(player.tick());

    let part = player.parts[0].as_ref().unwrap();
    assert_eq!(part.length, 1);
    assert_eq!(part.envelope.current, 0x30);
    assert!(!player.tick());
}
