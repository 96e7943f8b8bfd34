use vstd::prelude::*;
use crate::data::{short_of, DataAccessor};
use crate::part::{initial_state, Part};
use crate::player::{setup_events, PlayContext};
use crate::psg::PsgTrait;
use crate::timing::tick_samples;

verus! {

/// Number of channels.
pub const PART_COUNT: usize = 3;

/// The byte that ends the title.
pub const TITLE_END: u8 = 0;

/// The little-endian 16-bit value stored at `index`.
pub open spec fn short_at<D: DataAccessor>(d: &D, index: u16) -> u16 {
    short_of(d.byte_at(index), d.byte_at(index.wrapping_add(1)))
}

/// Index of the first title terminator at or after `i`; the last index of
/// the data ends a title that has no terminator.
pub open spec fn title_end_from<D: DataAccessor>(d: &D, i: nat) -> u16
    decreases 0xFFFFnat - i,
{
    if i >= 0xFFFF {
        0xFFFF
    } else if d.byte_at(i as u16) == TITLE_END {
        i as u16
    } else {
        title_end_from(d, i + 1)
    }
}

proof fn lemma_title_end_from_bounds<D: DataAccessor>(d: &D, i: nat)
    requires
        i <= 0xFFFF,
    ensures
        i <= title_end_from(d, i) <= 0xFFFF,
    decreases 0xFFFFnat - i,
{
    if i < 0xFFFF {
        lemma_title_end_from_bounds(d, i + 1);
    }
}

/// Where the title ends; addresses in the header are counted from here.
pub open spec fn title_end<D: DataAccessor>(d: &D) -> u16 {
    title_end_from(d, 0)
}

/// The patch table's address.
pub open spec fn header_patch_index<D: DataAccessor>(d: &D) -> u16 {
    short_at(d, title_end(d).wrapping_add(2)).wrapping_add(title_end(d))
}

/// The start address of channel `i`; an offset of 0 marks it unused.
pub open spec fn header_part_index<D: DataAccessor>(d: &D, i: int) -> Option<u16> {
    let offset = short_at(d, title_end(d).wrapping_add((4 + 2 * i) as u16));
    if offset == 0 {
        None
    } else {
        Some(offset.wrapping_add(title_end(d)))
    }
}

/// A title byte as it is shown: a newline becomes a space.
pub open spec fn title_char(b: u8) -> u8 {
    if b == 0x0A {
        0x20
    } else {
        b
    }
}

/// The title as it is shown: the bytes before the terminator.
pub open spec fn title_of<D: DataAccessor>(d: &D) -> Seq<u8> {
    Seq::new(title_end(d) as nat, |i: int| title_char(d.byte_at(i as u16)))
}

/// Walks the bytes of the song title.
pub struct TitleIterator<'a, D: DataAccessor> {
    pub data_accessor: &'a D,
    pub index: u16,
}

impl<'a, D: DataAccessor> TitleIterator<'a, D> {
    /// The next title byte, or `None` at the terminator.
    pub fn next(&mut self) -> (r: Option<u8>)
        ensures
            final(self).data_accessor == old(self).data_accessor,
            old(self).data_accessor.byte_at(old(self).index) == TITLE_END ==> r is None && *final(self) == *old(self),
            old(self).data_accessor.byte_at(old(self).index) != TITLE_END ==> r == Some(
                title_char(old(self).data_accessor.byte_at(old(self).index)),
            ) && final(self).index == old(self).index.wrapping_add(1),
    {
        let ch = self.data_accessor.read_byte(self.index);
        if ch == TITLE_END {
            None
        } else {
            self.index = self.index.wrapping_add(1);
            Some(if ch == 0x0A { 0x20 } else { ch })
        }
    }
}

/// A song: where its patch table is and where each channel starts.
pub struct Sequencer<'a, D: DataAccessor> {
    pub data_accessor: &'a D,
    pub patch_index: u16,
    pub part_indexes: [Option<u16>; 3],
}

impl<'a, D: DataAccessor> Sequencer<'a, D> {
    /// Reads the header that follows the title.
    pub fn new(data_accessor: &'a D) -> (r: Self)
        ensures
            r.data_accessor == data_accessor,
            r.patch_index == header_patch_index(data_accessor),
            forall|i: int| 0 <= i < 3 ==> r.part_indexes[i] == header_part_index(data_accessor, i),
    {
        let mut index: u16 = 0;
        while index < 0xFFFF && data_accessor.read_byte(index) != TITLE_END
            invariant
                title_end_from(data_accessor, index as nat) == title_end(data_accessor),
            decreases 0xFFFF - index,
        {
            index = index + 1;
        }
        let body_index_offset = index;
        let patch_index = data_accessor.read_short(index.wrapping_add(2)).wrapping_add(body_index_offset);
        let mut part_indexes: [Option<u16>; 3] = [None, None, None];
        let mut i: usize = 0;
        while i < PART_COUNT
            invariant
                body_index_offset == title_end(data_accessor),
                0 <= i <= 3,
                forall|j: int| 0 <= j < i ==> part_indexes[j] == header_part_index(data_accessor, j),
            decreases 3 - i,
        {
            let offset = data_accessor.read_short(body_index_offset.wrapping_add(4 + 2 * i as u16));
            part_indexes[i] = if offset == 0 {
                None
            } else {
                Some(offset.wrapping_add(body_index_offset))
            };
            i = i + 1;
        }
        Sequencer { data_accessor, patch_index, part_indexes }
    }

    /// An iterator over the title bytes, from the start of the data.
    pub fn title_iter(&self) -> (r: TitleIterator<'a, D>)
        ensures
            r.data_accessor == self.data_accessor,
            r.index == 0,
    {
        TitleIterator { data_accessor: self.data_accessor, index: 0 }
    }

    /// The title bytes, a newline shown as a space.
    pub fn title(&self) -> (r: Vec<u8>)
        ensures
            r@ == title_of(self.data_accessor),
    {
        let mut r: Vec<u8> = Vec::new();
        let mut index: u16 = 0;
        proof {
            lemma_title_end_from_bounds(self.data_accessor, 0);
        }
        while index < 0xFFFF && self.data_accessor.read_byte(index) != TITLE_END
            invariant
                title_end_from(self.data_accessor, index as nat) == title_end(self.data_accessor),
                index <= title_end(self.data_accessor),
                r@ == title_of(self.data_accessor).take(index as int),
            decreases 0xFFFF - index,
        {
            proof {
                lemma_title_end_from_bounds(self.data_accessor, index as nat + 1);
            }
            let ch = self.data_accessor.read_byte(index);
            r.push(if ch == 0x0A { 0x20 } else { ch });
            index = index + 1;
            proof {
                assert(r@ =~= title_of(self.data_accessor).take(index as int));
            }
        }
        proof {
            assert(r@ =~= title_of(self.data_accessor));
        }
        r
    }

    /// Starts playing the song on `psg`: one channel for each used part.
    pub fn play<P: PsgTrait>(&self, psg: &'a mut P) -> (r: PlayContext<'a, D, P>)
        ensures
            r.wf(),
            r.max_loop_count() is None,
            r.sample_rate() == old(psg).reported_sample_rate(),
            r.samples_left() == tick_samples(r.sample_rate(), 0),
            r.samples_per_tick.ticks() == 1,
            r.ticks_run@ == 0,
            r.psg.events() == old(psg).events() + setup_events(),
            r.psg.reported_sample_rate() == old(psg).reported_sample_rate(),
            forall|i: int|
                0 <= i < 3 ==> (r.parts[i] is Some <==> self.part_indexes[i] is Some),
            forall|i: int|
                0 <= i < 3 && r.parts[i] is Some ==> {
                    let p = r.parts[i]->Some_0;
                    &&& p.data_accessor == self.data_accessor
                    &&& p.patch_index == self.patch_index
                    &&& p.channel_number == i
                    &&& p@ == initial_state(self.part_indexes[i]->Some_0)
                },
    {
        let mut parts: [Option<Part<'a, D>>; 3] = [None, None, None];
        let mut i: usize = 0;
        while i < PART_COUNT
            invariant
                0 <= i <= 3,
                forall|j: int| i <= j < 3 ==> parts[j] is None,
                forall|j: int|
                    0 <= j < i ==> (parts[j] is Some <==> self.part_indexes[j] is Some),
                forall|j: int|
                    0 <= j < i && parts[j] is Some ==> {
                        let p = parts[j]->Some_0;
                        &&& p.wf()
                        &&& p.channel_number == j
                        &&& p.data_accessor == self.data_accessor
                        &&& p.patch_index == self.patch_index
                        &&& p@ == initial_state(self.part_indexes[j]->Some_0)
                    },
            decreases 3 - i,
        {
            match self.part_indexes[i] {
                Some(part_index) => {
                    parts[i] = Some(Part::new(self.data_accessor, self.patch_index, i, part_index));
                },
                None => {},
            }
            i = i + 1;
        }
        PlayContext::new(parts, psg)
    }
}

} // verus!
