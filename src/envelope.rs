use vstd::prelude::*;
use crate::data::DataAccessor;

verus! {

/// How many patch records a lookup visits at most: the whole 16-bit index space.
pub const PATCH_SCAN_LIMIT: u32 = 0x10000;

/// The byte that ends the patch table.
pub const PATCH_TABLE_END: u8 = 0xFF;

#[derive(PartialEq, Eq, Structural, Clone, Copy, Debug)]
pub enum EnvelopePhase {
    Attack,
    Decay,
    Sustain,
    Release,
}

/// Amplitude envelope of one channel: its level and its patch parameters
/// (attack level and rate, decay rate, sustain level and rate, release rate).
#[derive(Clone, Copy, Debug)]
pub struct Envelope {
    pub current: u8,
    pub phase: EnvelopePhase,
    pub al: u8,
    pub ar: u8,
    pub dr: u8,
    pub sl: u8,
    pub sr: u8,
    pub rr: u8,
}

/// `a - b`, or 0 where `b` exceeds `a`.
pub open spec fn sat_sub(a: u8, b: u8) -> u8 {
    if a >= b {
        (a - b) as u8
    } else {
        0
    }
}

/// Where the record of `number` starts in the patch table scanned from `index`,
/// visiting at most `fuel` records; `None` where the end marker comes first.
pub open spec fn find_patch<D: DataAccessor>(d: &D, index: u16, number: u8, fuel: nat) -> Option<u16>
    decreases fuel,
{
    if fuel == 0 {
        None
    } else if d.byte_at(index) == number {
        Some(index)
    } else if d.byte_at(index) == PATCH_TABLE_END {
        None
    } else {
        find_patch(d, index.wrapping_add(7), number, (fuel - 1) as nat)
    }
}

impl Envelope {
    /// Full level at once, held until release, then silenced at once.
    pub open spec fn initial() -> Envelope {
        Envelope { current: 0, phase: EnvelopePhase::Attack, al: 255, ar: 255, dr: 0, sl: 0, sr: 0, rr: 255 }
    }

    pub open spec fn attacked(self) -> Envelope {
        Envelope {
            current: self.al,
            phase: if self.al == 255 { EnvelopePhase::Decay } else { EnvelopePhase::Attack },
            ..self
        }
    }

    pub open spec fn released(self) -> Envelope {
        Envelope { phase: EnvelopePhase::Release, ..self }
    }

    /// One amplitude step.
    pub open spec fn updated(self) -> Envelope {
        match self.phase {
            EnvelopePhase::Attack => if self.current as int + self.ar as int > 255 {
                Envelope { current: 255, phase: EnvelopePhase::Decay, ..self }
            } else {
                Envelope { current: (self.current + self.ar) as u8, ..self }
            },
            EnvelopePhase::Decay => if sat_sub(self.current, self.dr) < self.sl {
                Envelope { current: self.sl, phase: EnvelopePhase::Sustain, ..self }
            } else {
                Envelope { current: sat_sub(self.current, self.dr), ..self }
            },
            EnvelopePhase::Sustain => Envelope { current: sat_sub(self.current, self.sr), ..self },
            EnvelopePhase::Release => Envelope { current: sat_sub(self.current, self.rr), ..self },
        }
    }

    /// The envelope after `n` amplitude steps.
    pub open spec fn updated_n(self, n: nat) -> Envelope
        decreases n,
    {
        if n == 0 {
            self
        } else {
            self.updated().updated_n((n - 1) as nat)
        }
    }

    /// This envelope with the parameters of the patch record at `at`.
    pub open spec fn with_patch<D: DataAccessor>(self, d: &D, at: u16) -> Envelope {
        Envelope {
            al: d.byte_at(at.wrapping_add(1)),
            ar: d.byte_at(at.wrapping_add(2)),
            dr: d.byte_at(at.wrapping_add(3)),
            sl: d.byte_at(at.wrapping_add(4)),
            sr: d.byte_at(at.wrapping_add(5)),
            rr: d.byte_at(at.wrapping_add(6)),
            ..self
        }
    }

    /// The envelope after selecting patch `number` from the table at `table`:
    /// unchanged where the table has no such patch.
    pub open spec fn patched<D: DataAccessor>(self, d: &D, number: u8, table: u16) -> Envelope {
        match find_patch(d, table, number, PATCH_SCAN_LIMIT as nat) {
            Some(at) => self.with_patch(d, at),
            None => self,
        }
    }

    pub fn new() -> (r: Envelope)
        ensures
            r == Envelope::initial(),
    {
        Envelope { current: 0, phase: EnvelopePhase::Attack, al: 255, ar: 255, dr: 0, sl: 0, sr: 0, rr: 255 }
    }

    /// Looks up patch `patch_number` in the table at `patch_index` and takes its
    /// parameters; returns whether the patch was found.
    pub fn set<D: DataAccessor>(&mut self, patch_number: u8, data_accessor: &D, patch_index: u16) -> (found: bool)
        ensures
            found == find_patch(data_accessor, patch_index, patch_number, PATCH_SCAN_LIMIT as nat) is Some,
            *final(self) == old(self).patched(data_accessor, patch_number, patch_index),
    {
        let mut index: u16 = patch_index;
        let mut fuel: u32 = PATCH_SCAN_LIMIT;
        while fuel > 0
            invariant
                *self == *old(self),
                find_patch(data_accessor, index, patch_number, fuel as nat)
                    == find_patch(data_accessor, patch_index, patch_number, PATCH_SCAN_LIMIT as nat),
            decreases fuel,
        {
            let number = data_accessor.read_byte(index);
            if number == patch_number {
                self.al = data_accessor.read_byte(index.wrapping_add(1));
                self.ar = data_accessor.read_byte(index.wrapping_add(2));
                self.dr = data_accessor.read_byte(index.wrapping_add(3));
                self.sl = data_accessor.read_byte(index.wrapping_add(4));
                self.sr = data_accessor.read_byte(index.wrapping_add(5));
                self.rr = data_accessor.read_byte(index.wrapping_add(6));
                return true;
            } else if number == PATCH_TABLE_END {
                return false;
            }
            index = index.wrapping_add(7);
            fuel = fuel - 1;
        }
        false
    }

    /// Starts a note: the level jumps to the attack level.
    pub fn attack(&mut self)
        ensures
            *final(self) == old(self).attacked(),
    {
        self.current = self.al;
        self.phase = if self.current != 255 {
            EnvelopePhase::Attack
        } else {
            EnvelopePhase::Decay
        };
    }

    /// Ends a note: the level falls at the release rate from now on.
    pub fn release(&mut self)
        ensures
            *final(self) == old(self).released(),
    {
        self.phase = EnvelopePhase::Release;
    }

    /// Advances the level by one step of its phase.
    pub fn update(&mut self)
        ensures
            *final(self) == old(self).updated(),
    {
        match self.phase {
            EnvelopePhase::Attack => match self.current.checked_add(self.ar) {
                Some(next) => {
                    self.current = next;
                },
                None => {
                    self.current = 255;
                    self.phase = EnvelopePhase::Decay;
                },
            },
            EnvelopePhase::Decay => {
                let next = self.current.saturating_sub(self.dr);
                if next < self.sl {
                    self.current = self.sl;
                    self.phase = EnvelopePhase::Sustain;
                } else {
                    self.current = next;
                }
            },
            EnvelopePhase::Sustain => {
                self.current = self.current.saturating_sub(self.sr);
            },
            EnvelopePhase::Release => {
                self.current = self.current.saturating_sub(self.rr);
            },
        }
    }
}

/// With the default parameters, a note once attacked stays at full level for
/// any number of steps until it is released.
pub proof fn lemma_default_envelope_holds_full_level(n: nat)
    ensures
        Envelope::initial().attacked().updated_n(n).current == 255,
        Envelope::initial().attacked().updated_n(n).phase == EnvelopePhase::Decay,
    decreases n,
{
    lemma_default_envelope_holds_full_level_from(Envelope::initial().attacked(), n);
}

proof fn lemma_default_envelope_holds_full_level_from(e: Envelope, n: nat)
    requires
        e.current == 255,
        e.phase == EnvelopePhase::Decay,
        e.dr == 0,
        e.sl == 0,
    ensures
        e.updated_n(n) == e,
    decreases n,
{
    if n > 0 {
        assert(e.updated() == e);
        lemma_default_envelope_holds_full_level_from(e.updated(), (n - 1) as nat);
    }
}

} // verus!
