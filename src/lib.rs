//! A sequencer for a three-channel programmable sound generator: it interprets
//! per-channel bytecode tick by tick and drives the chip's registers.
pub mod data;
pub mod envelope;
pub mod lfo;
pub mod part;
pub mod player;
pub mod psg;
pub mod repeat;
pub mod sequencer;
pub mod timing;

pub use data::{short_of, DataAccessor};
pub use envelope::{lemma_default_envelope_holds_full_level, Envelope, EnvelopePhase};
pub use lfo::PitchLFO;
pub use part::{lemma_ended_part_stays_ended, lemma_part_ending_at_once_stops_at_first_tick, Flow, Part, PartState};
pub use repeat::{lemma_two_pass_loop, Repeat, RepeatStack};
pub use timing::{lemma_samples_per_tick_no_drift, samples_in_ticks, samples_over, tick_samples, SamplesPerTick};
pub use psg::{output_mode_from_byte, output_mode_of, samples_of, ChipEvent, OutputMode, PsgTrait};
pub use player::PlayContext;
pub use sequencer::{Sequencer, TitleIterator};
