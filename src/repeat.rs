use vstd::prelude::*;
use arraydeque::ArrayDeque;

verus! {

/// How many loops can be nested.
pub const REPEAT_DEPTH: usize = 8;

/// One open loop: where its body starts, where it was last closed, and how
/// many passes are left (0: forever).
#[derive(PartialEq, Eq, Structural, Clone, Copy, Debug)]
pub struct Repeat {
    pub start: u16,
    pub end: Option<u16>,
    pub count: u8,
}

/// The deque of frames; Verus sees it through the wrappers below.
#[verifier::external_body]
pub struct FrameDeque {
    inner: ArrayDeque<Repeat, 8>,
}

/// The frames held by a deque, front first.
pub uninterp spec fn frames_of(d: FrameDeque) -> Seq<Repeat>;

/// Relies on `ArrayDeque::new`: the deque starts empty.
#[verifier::external_body]
fn deque_new() -> (r: FrameDeque)
    ensures
        frames_of(r) == Seq::<Repeat>::empty(),
{
    FrameDeque { inner: ArrayDeque::new() }
}

/// Relies on `ArrayDeque::len`: the number of elements held.
#[verifier::external_body]
fn deque_len(d: &FrameDeque) -> (r: usize)
    ensures
        r == frames_of(*d).len(),
{
    d.inner.len()
}

/// Relies on `ArrayDeque::front`: the first element, if any.
#[verifier::external_body]
fn deque_front(d: &FrameDeque) -> (r: Option<Repeat>)
    ensures
        r == (if frames_of(*d).len() > 0 { Some(frames_of(*d)[0]) } else { None::<Repeat> }),
{
    d.inner.front().copied()
}

/// Relies on the saturating `ArrayDeque::push_front`: it adds the element in
/// front where fewer than the capacity are held, and otherwise leaves the
/// deque as it was and reports the element back.
#[verifier::external_body]
fn deque_push_front(d: &mut FrameDeque, x: Repeat) -> (pushed: bool)
    ensures
        frames_of(*old(d)).len() < 8 ==> pushed && frames_of(*final(d)) == seq![x] + frames_of(*old(d)),
        frames_of(*old(d)).len() >= 8 ==> !pushed && frames_of(*final(d)) == frames_of(*old(d)),
        frames_of(*final(d)).len() <= 8,
{
    d.inner.push_front(x).is_ok()
}

/// Relies on `ArrayDeque::pop_front`: the first element, if any, leaves.
#[verifier::external_body]
fn deque_pop_front(d: &mut FrameDeque)
    ensures
        frames_of(*final(d)) == (if frames_of(*old(d)).len() > 0 {
            frames_of(*old(d)).drop_first()
        } else {
            frames_of(*old(d))
        }),
{
    d.inner.pop_front();
}

/// The frames after a loop start at `at` with `count` passes: the new frame is
/// dropped where the stack is full.
pub open spec fn frames_started(frames: Seq<Repeat>, count: u8, at: u16) -> Seq<Repeat> {
    if frames.len() < REPEAT_DEPTH {
        seq![Repeat { start: at, end: None, count }] + frames
    } else {
        frames
    }
}

/// Frames and cursor after a break opcode: on the last pass of a loop that
/// has been closed once, the cursor leaves the loop and the frame is popped.
pub open spec fn frames_broken(frames: Seq<Repeat>, cursor: u16) -> (Seq<Repeat>, u16) {
    if frames.len() > 0 && frames[0].count == 1 && frames[0].end is Some {
        (frames.drop_first(), frames[0].end->Some_0)
    } else {
        (frames, cursor)
    }
}

/// Frames, cursor and whether an endless loop went round, after a loop-end
/// opcode read with the cursor at `cursor`.
pub open spec fn frames_ended(frames: Seq<Repeat>, cursor: u16) -> (Seq<Repeat>, u16, bool) {
    if frames.len() == 0 {
        (frames, cursor, false)
    } else if frames[0].count == 0 {
        (frames.update(0, Repeat { end: Some(cursor), ..frames[0] }), frames[0].start, true)
    } else if frames[0].count > 1 {
        (
            frames.update(0, Repeat { end: Some(cursor), count: (frames[0].count - 1) as u8, ..frames[0] }),
            frames[0].start,
            false,
        )
    } else {
        (frames.drop_first(), cursor, false)
    }
}

/// The stack of open loops of one channel.
pub struct RepeatStack {
    deque: FrameDeque,
}

impl RepeatStack {
    /// The open loops, innermost first.
    pub closed spec fn frames(&self) -> Seq<Repeat> {
        frames_of(self.deque)
    }

    /// The stack never holds more frames than its depth.
    pub open spec fn wf(&self) -> bool {
        self.frames().len() <= REPEAT_DEPTH
    }

    pub fn new() -> (r: RepeatStack)
        ensures
            r.wf(),
            r.frames() == Seq::<Repeat>::empty(),
    {
        RepeatStack { deque: deque_new() }
    }

    /// The number of open loops.
    pub fn len(&self) -> (r: usize)
        ensures
            r == self.frames().len(),
    {
        deque_len(&self.deque)
    }

    /// The innermost open loop, if any.
    pub fn front(&self) -> (r: Option<Repeat>)
        ensures
            r == (if self.frames().len() > 0 { Some(self.frames()[0]) } else { None::<Repeat> }),
    {
        deque_front(&self.deque)
    }

    /// Opens a loop of `count` passes (0: forever) whose body starts at
    /// `current_index`.
    pub fn start(&mut self, count: u8, current_index: u16)
        requires
            old(self).wf(),
        ensures
            final(self).wf(),
            final(self).frames() == frames_started(old(self).frames(), count, current_index),
    {
        let _ = deque_push_front(&mut self.deque, Repeat { start: current_index, end: None, count });
    }

    /// Leaves the innermost loop early where this is its last pass.
    pub fn break_if_last(&mut self, current_index: &mut u16)
        requires
            old(self).wf(),
        ensures
            final(self).wf(),
            (final(self).frames(), *final(current_index)) == frames_broken(old(self).frames(), *old(current_index)),
    {
        match deque_front(&self.deque) {
            Some(item) => {
                if item.count == 1 {
                    match item.end {
                        Some(end) => {
                            *current_index = end;
                            deque_pop_front(&mut self.deque);
                        },
                        None => {},
                    }
                }
            },
            None => {},
        }
    }

    /// Closes a pass of the innermost loop: jumps back to its start while
    /// passes are left, else pops it. Returns whether the loop is endless.
    pub fn end(&mut self, current_index: &mut u16) -> (is_infinite_loop: bool)
        requires
            old(self).wf(),
        ensures
            final(self).wf(),
            (final(self).frames(), *final(current_index), is_infinite_loop)
                == frames_ended(old(self).frames(), *old(current_index)),
    {
        match deque_front(&self.deque) {
            Some(item) => {
                let is_infinite_loop = item.count == 0;
                let count = if is_infinite_loop { 0 } else { item.count - 1 };
                deque_pop_front(&mut self.deque);
                if is_infinite_loop || count != 0 {
                    let _ = deque_push_front(
                        &mut self.deque,
                        Repeat { start: item.start, end: Some(*current_index), count },
                    );
                    *current_index = item.start;
                    proof {
                        assert(self.frames() =~= frames_ended(old(self).frames(), *old(current_index)).0);
                    }
                }
                is_infinite_loop
            },
            None => false,
        }
    }
}

} // verus!

verus! {

/// A loop of two passes opened inside at most seven others: a break on the
/// first pass does nothing; the first loop end records where the loop ends
/// and goes back to the start with one pass left; a break on that last pass
/// then jumps to the recorded end and closes the loop, leaving the outer
/// loops as they were. Without a break, the second loop end closes it too.
pub proof fn lemma_two_pass_loop(frames: Seq<Repeat>, start: u16, end: u16, at_break: u16)
    requires
        frames.len() < REPEAT_DEPTH,
    ensures
        ({
            let opened = frames_started(frames, 2, start);
            let (closed_once, back, endless) = frames_ended(opened, end);
            &&& frames_broken(opened, at_break) == (opened, at_break)
            &&& back == start
            &&& !endless
            &&& closed_once.len() == frames.len() + 1
            &&& closed_once[0] == (Repeat { start, end: Some(end), count: 1 })
            &&& frames_broken(closed_once, at_break) == (frames, end)
            &&& frames_ended(closed_once, end) == (frames, end, false)
        }),
{
    let opened = frames_started(frames, 2, start);
    assert(opened.drop_first() =~= frames);
    let closed_once = frames_ended(opened, end).0;
    assert(closed_once.drop_first() =~= frames);
}

} // verus!
