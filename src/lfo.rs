use vstd::prelude::*;
use crate::envelope::sat_sub;

verus! {

/// Triangle-wave pitch vibrato of one channel.
///
/// A counter that is already 0 when it is due to count down is taken as run
/// out: a delay or speed of 0 fires at once, a depth below 2 reverses at
/// once. The pitch offset and the displacement wrap around in 16 bits.
#[derive(Clone, Copy, Debug)]
pub struct PitchLFO {
    pub displacement: i16,
    pub delay: u8,
    pub speed: u8,
    pub depth: u8,
    pub is_enable: bool,
    pub effect: i16,
    pub current_displacement: i16,
    pub wait_count: u8,
    pub depth_count: u8,
}

impl PitchLFO {
    pub open spec fn initial() -> PitchLFO {
        PitchLFO {
            displacement: 0,
            delay: 0,
            speed: 0,
            depth: 0,
            is_enable: false,
            effect: 0,
            current_displacement: 0,
            wait_count: 0,
            depth_count: 0,
        }
    }

    /// The running state restarted from the parameters.
    pub open spec fn restarted(self) -> PitchLFO {
        PitchLFO {
            wait_count: self.delay,
            depth_count: self.depth / 2,
            current_displacement: self.displacement,
            effect: 0,
            ..self
        }
    }

    pub open spec fn enabled_as(self, is_enable: bool) -> PitchLFO {
        PitchLFO { is_enable, ..self }.restarted()
    }

    pub open spec fn with_parameters(self, delay: u8, speed: u8, depth: u8, displacement: i16) -> PitchLFO {
        PitchLFO { is_enable: true, delay, speed, depth, displacement, ..self }.restarted()
    }

    /// One tick of the vibrato, and whether the pitch offset changed.
    pub open spec fn stepped(self) -> (PitchLFO, bool) {
        if !self.is_enable {
            (self, false)
        } else if sat_sub(self.wait_count, 1) != 0 {
            (PitchLFO { wait_count: sat_sub(self.wait_count, 1), ..self }, false)
        } else {
            let turns = sat_sub(self.depth_count, 1) == 0;
            (PitchLFO {
                wait_count: self.speed,
                effect: self.effect.wrapping_add(self.current_displacement),
                depth_count: if turns { self.depth } else { sat_sub(self.depth_count, 1) },
                current_displacement: if turns {
                    0i16.wrapping_sub(self.current_displacement)
                } else {
                    self.current_displacement
                },
                ..self
            }, true)
        }
    }

    pub fn new() -> (r: PitchLFO)
        ensures
            r == PitchLFO::initial(),
    {
        PitchLFO {
            displacement: 0,
            delay: 0,
            speed: 0,
            depth: 0,
            is_enable: false,
            effect: 0,
            current_displacement: 0,
            wait_count: 0,
            depth_count: 0,
        }
    }

    /// Turns the vibrato on or off; either way its running state restarts.
    pub fn set_enable(&mut self, is_enable: bool)
        ensures
            *final(self) == old(self).enabled_as(is_enable),
    {
        self.is_enable = is_enable;
        self.reset();
    }

    /// Takes new parameters, turns the vibrato on and restarts it.
    pub fn set_parameter(&mut self, delay: u8, speed: u8, depth: u8, displacement: i16)
        ensures
            *final(self) == old(self).with_parameters(delay, speed, depth, displacement),
    {
        self.is_enable = true;
        self.delay = delay;
        self.speed = speed;
        self.depth = depth;
        self.displacement = displacement;
        self.reset();
    }

    pub fn reset(&mut self)
        ensures
            *final(self) == old(self).restarted(),
    {
        self.wait_count = self.delay;
        self.depth_count = self.depth / 2;
        self.current_displacement = self.displacement;
        self.effect = 0;
    }

    /// Advances one tick; returns whether the pitch offset changed.
    pub fn update(&mut self) -> (changed: bool)
        ensures
            (*final(self), changed) == old(self).stepped(),
    {
        if !self.is_enable {
            return false;
        }
        self.wait_count = self.wait_count.saturating_sub(1);
        if self.wait_count != 0 {
            return false;
        }
        self.wait_count = self.speed;
        self.effect = self.effect.wrapping_add(self.current_displacement);
        self.depth_count = self.depth_count.saturating_sub(1);
        if self.depth_count == 0 {
            self.depth_count = self.depth;
            self.current_displacement = 0i16.wrapping_sub(self.current_displacement);
        }
        true
    }
}

} // verus!
