//! The cursor model: a bounded position over the logical input sequence
//! `[0, total)` with saturating motion primitives. When the sequence is
//! empty every motion is a no-op and the position stays at `0`.

use vstd::prelude::*;

verus! {

/// Input position information.
#[derive(Debug, Clone, Copy)]
pub struct InputCursor {
    /// Current input index.
    pub input_index: usize,
    /// Total number of inputs; fixed for the session once derived.
    pub total_inputs: usize,
}

/// Where `jump_to(index)` lands: the index itself when it is in range,
/// the last valid index when it is past the end, and the old position
/// when there is nothing to navigate.
pub open spec fn jump_target(cur: int, total: int, index: int) -> int {
    if index < total {
        index
    } else if total > 0 {
        total - 1
    } else {
        cur
    }
}

/// Where a signed motion by `delta` lands: the new position clamped to
/// `[0, total - 1]`, or the old position when the sequence is empty.
pub open spec fn move_target(cur: int, total: int, delta: int) -> int {
    if total == 0 {
        cur
    } else if cur + delta < 0 {
        0
    } else if cur + delta >= total {
        total - 1
    } else {
        cur + delta
    }
}

/// Every motion keeps the position within `[0, max(0, total - 1)]`: no
/// underflow or overflow escapes, whatever the step or target. Every cursor
/// operation lands on `move_target` or `jump_target`, so any sequence of
/// them keeps the position in range.
pub proof fn lemma_motion_in_range(cur: int, total: int, delta: int, index: int)
    requires
        0 <= total,
        0 <= cur,
        total == 0 ==> cur == 0,
        total > 0 ==> cur < total,
        0 <= index,
    ensures
        0 <= move_target(cur, total, delta) <= (if total > 0 {
            total - 1
        } else {
            0
        }),
        0 <= jump_target(cur, total, index) <= (if total > 0 {
            total - 1
        } else {
            0
        }),
{
}

impl InputCursor {
    /// The position is in `[0, max(0, total - 1)]`; in particular it is `0`
    /// when there is nothing to navigate.
    pub open spec fn wf(self) -> bool {
        if self.total_inputs == 0 {
            self.input_index == 0
        } else {
            self.input_index < self.total_inputs
        }
    }

    pub fn new() -> (r: Self)
        ensures
            r.input_index == 0,
            r.total_inputs == 0,
            r.wf(),
    {
        Self { input_index: 0, total_inputs: 0 }
    }

    /// Move one step forward, clamped to the last valid index.
    pub fn next(&mut self)
        requires
            old(self).wf(),
        ensures
            final(self).wf(),
            final(self).total_inputs == old(self).total_inputs,
            final(self).input_index == move_target(
                old(self).input_index as int,
                old(self).total_inputs as int,
                1,
            ),
    {
        if self.input_index < self.total_inputs.saturating_sub(1) {
            self.input_index += 1;
        }
    }

    /// Move one step backward, clamped to `0`.
    pub fn prev(&mut self)
        requires
            old(self).wf(),
        ensures
            final(self).wf(),
            final(self).total_inputs == old(self).total_inputs,
            final(self).input_index == move_target(
                old(self).input_index as int,
                old(self).total_inputs as int,
                -1,
            ),
    {
        if self.input_index > 0 {
            self.input_index -= 1;
        }
    }

    /// Set the position to `index`, clamped to the last valid index; a no-op
    /// when there is nothing to navigate.
    pub fn jump_to(&mut self, index: usize)
        requires
            old(self).wf(),
        ensures
            final(self).wf(),
            final(self).total_inputs == old(self).total_inputs,
            final(self).input_index == jump_target(
                old(self).input_index as int,
                old(self).total_inputs as int,
                index as int,
            ),
    {
        if index < self.total_inputs {
            self.input_index = index;
        } else if self.total_inputs > 0 {
            self.input_index = self.total_inputs - 1;
        }
    }

    /// Move forward by `steps`, clamped to the last valid index.
    pub fn advance(&mut self, steps: usize)
        requires
            old(self).wf(),
        ensures
            final(self).wf(),
            final(self).total_inputs == old(self).total_inputs,
            final(self).input_index == move_target(
                old(self).input_index as int,
                old(self).total_inputs as int,
                steps as int,
            ),
    {
        let target = self.input_index.saturating_add(steps);
        self.jump_to(target);
    }

    /// Move backward by `steps`, clamped to `0`.
    pub fn retreat(&mut self, steps: usize)
        requires
            old(self).wf(),
        ensures
            final(self).wf(),
            final(self).total_inputs == old(self).total_inputs,
            final(self).input_index == move_target(
                old(self).input_index as int,
                old(self).total_inputs as int,
                -(steps as int),
            ),
    {
        let target = self.input_index.saturating_sub(steps);
        self.jump_to(target);
    }

    /// Move by a signed number of steps; `0` is a no-op.
    pub fn move_by(&mut self, steps: isize)
        requires
            old(self).wf(),
        ensures
            final(self).wf(),
            final(self).total_inputs == old(self).total_inputs,
            final(self).input_index == move_target(
                old(self).input_index as int,
                old(self).total_inputs as int,
                steps as int,
            ),
    {
        if steps > 0 {
            self.advance(steps as usize);
        } else if steps < 0 {
            // The magnitude of `steps`, computed without negating the
            // minimum value directly.
            let back = ((-(steps + 1)) as usize) + 1;
            self.retreat(back);
        }
    }
}

} // verus!
