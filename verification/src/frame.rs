//! The frame cursor: one counter that hands out 8-byte slots below the frame
//! base and never takes one back.
use vstd::prelude::*;
use crate::machine::CodegenError;
use crate::machine::ErrorView;
use crate::machine::Location;

verus! {

/// Per-function bookkeeping of the frame.
#[derive(Clone, Copy, Debug, PartialEq, Eq, Structural)]
pub struct globals {
    /// The cursor: 0 before the first allocation, afterwards the displacement
    /// the next allocation will hand out.
    pub last_used_offset: i64,
    /// The displacement handed out last, 0 while none was.
    pub last_offset_used: i64,
}

impl globals {
    /// A frame in which nothing is allocated.
    pub fn new() -> (glb: globals)
        ensures
            glb.last_used_offset == 0,
            glb.last_offset_used == 0,
            glb.wf(),
    {
        globals { last_used_offset: 0, last_offset_used: 0 }
    }

    /// The cursor is untouched, or sits exactly one slot below the slot handed
    /// out last, which is a negative multiple of 8.
    pub open spec fn wf(self) -> bool {
        ||| self.last_used_offset == 0 && self.last_offset_used == 0
        ||| {
            &&& self.last_offset_used < 0
            &&& self.last_offset_used % 8 == 0
            &&& self.last_used_offset == self.last_offset_used - 8
        }
    }

    /// The slot the next allocation hands out: the first slot is never at
    /// displacement 0.
    pub open spec fn next_slot(self) -> int {
        if self.last_used_offset == 0 {
            -8
        } else {
            self.last_used_offset as int
        }
    }

    /// Whether the cursor can step past the next slot without leaving `i64`.
    pub open spec fn can_allocate(self) -> bool {
        self.next_slot() - 8 >= i64::MIN
    }

    /// The frame after one allocation.
    pub open spec fn allocated(self) -> globals
        recommends
            self.can_allocate(),
    {
        globals {
            last_used_offset: (self.next_slot() - 8) as i64,
            last_offset_used: self.next_slot() as i64,
        }
    }

    /// The frame after `count` allocations in a row.
    pub open spec fn allocated_times(self, count: nat) -> globals
        decreases count,
    {
        if count == 0 {
            self
        } else {
            self.allocated_times((count - 1) as nat).allocated()
        }
    }

    /// Number of 8-byte slots the epilogue gives back: everything the cursor
    /// has stepped over beyond its first step.
    pub open spec fn slots_to_release(self) -> int {
        if self.last_used_offset + 8 < 0 {
            -(self.last_used_offset + 8) / 8
        } else {
            0
        }
    }
}

/// Hands out the next frame slot, as a location, and steps the cursor one
/// slot further down, so that two calls in a row never return the same slot.
///
/// Fails, changing nothing, when the cursor cannot step without leaving `i64`.
pub fn long_to_char_offset(glb: &mut globals) -> (slot: Result<Location, CodegenError>)
    ensures
        old(glb).wf() ==> final(glb).wf(),
        match slot {
            Ok(location) => {
                &&& old(glb).can_allocate()
                &&& location == Location::Frame(old(glb).next_slot() as i64)
                &&& *final(glb) == old(glb).allocated()
            },
            Err(error) => {
                &&& !old(glb).can_allocate()
                &&& error@ == ErrorView::FrameExhausted
                &&& *final(glb) == *old(glb)
            },
        },
{
    let offset: i64 = if glb.last_used_offset == 0 {
        -8
    } else {
        glb.last_used_offset
    };
    if offset < i64::MIN + 8 {
        return Err(CodegenError::FrameExhausted);
    }
    glb.last_offset_used = offset;
    glb.last_used_offset = offset - 8;
    Ok(Location::Frame(offset))
}

/// Every slot handed out is a negative multiple of 8, lies strictly below the
/// slot handed out before it, and leaves the cursor strictly below itself.
pub proof fn lemma_allocation_descends(glb: globals)
    requires
        glb.wf(),
        glb.can_allocate(),
    ensures
        glb.allocated().wf(),
        glb.allocated().last_offset_used < 0,
        glb.allocated().last_offset_used % 8 == 0,
        glb.last_offset_used != 0 ==> glb.allocated().last_offset_used < glb.last_offset_used,
        glb.allocated().last_used_offset < glb.allocated().last_offset_used,
        glb.allocated().last_used_offset < glb.last_used_offset,
{
}

/// Frame monotonicity: of the slots handed out by successive allocations from
/// a well-formed frame with room for them, each is a negative multiple of 8
/// and a later one lies strictly below an earlier one.
pub proof fn lemma_frame_offsets_strictly_decrease(glb: globals, earlier: nat, later: nat)
    requires
        glb.wf(),
        0 < earlier < later,
        glb.next_slot() - 8 * later >= i64::MIN,
    ensures
        glb.allocated_times(earlier).last_offset_used % 8 == 0,
        glb.allocated_times(later).last_offset_used % 8 == 0,
        glb.allocated_times(later).last_offset_used < glb.allocated_times(
            earlier,
        ).last_offset_used,
        glb.allocated_times(earlier).last_offset_used < 0,
{
    lemma_allocation_sequence(glb, earlier);
    lemma_allocation_sequence(glb, later);
}

/// Closed form of repeated allocation: the `count`-th slot lies `count - 1`
/// slots below the first one, and the cursor one slot further down.
pub proof fn lemma_allocation_sequence(glb: globals, count: nat)
    requires
        glb.wf(),
        count > 0,
        glb.next_slot() - 8 * count >= i64::MIN,
    ensures
        glb.allocated_times(count).wf(),
        glb.allocated_times(count).last_offset_used == glb.next_slot() - 8 * (count - 1),
        glb.allocated_times(count).last_used_offset == glb.next_slot() - 8 * count,
    decreases count,
{
    let before = glb.allocated_times((count - 1) as nat);
    assert(glb.allocated_times(count) == before.allocated());
    if count > 1 {
        lemma_allocation_sequence(glb, (count - 1) as nat);
    } else {
        assert(before == glb);
    }
}

} // verus!
