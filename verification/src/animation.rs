use vstd::prelude::*;
use crate::display::{Display, POS_D4, SEG_A, SEG_B, SEG_C, SEG_D, SEG_E, SEG_F, SEG_POINT};

verus! {

/// Scheduling rate the spinner is tuned for.
pub const SPINNER_FREQUENCY_HZ: u8 = 200;

/// Ticks each spinner frame stays on screen.
pub const SPINNER_TICKS_PER_FRAME: u8 = SPINNER_FREQUENCY_HZ / 25;

/// Number of frames in one revolution of the spinner.
pub const SPINNER_FRAMES: usize = 12;

/// Which display the single lit segment of the i-th spinner frame sits on.
pub open spec fn spinner_frame_position(i: int) -> int {
    if i <= 3 {
        i
    } else if i <= 5 {
        3
    } else if i <= 9 {
        9 - i
    } else {
        0
    }
}

/// Which segment the i-th spinner frame lights.
pub open spec fn spinner_frame_segment(i: int) -> u8 {
    if i <= 3 {
        SEG_A
    } else if i == 4 {
        SEG_B
    } else if i == 5 {
        SEG_C
    } else if i <= 9 {
        SEG_D
    } else if i == 10 {
        SEG_E
    } else {
        SEG_F
    }
}

/// The i-th spinner frame: one lit segment travelling around the displays.
pub open spec fn spec_spinner_frame(i: int) -> Seq<u8> {
    Seq::new(
        4,
        |j: int|
            if j == spinner_frame_position(i) {
                spinner_frame_segment(i)
            } else {
                0u8
            },
    )
}

/// Implements the rolling animation: a single segment spinning around the
/// four digit displays.
#[derive(Clone, Copy, PartialEq, Eq, Structural, Debug)]
pub struct Spinner {
    pub next_frame: usize,
    pub ticks_left: u8,
}

impl Spinner {
    /// The frame cursor stays inside the frame table.
    pub open spec fn wf(self) -> bool {
        self.next_frame < SPINNER_FRAMES
    }

    /// Returns a new instance of Spinner.
    pub fn new() -> (s: Self)
        ensures
            s == (Spinner { next_frame: 0usize, ticks_left: 0u8 }),
            s.wf(),
    {
        Self { next_frame: 0, ticks_left: 0 }
    }

    /// Updates the animation's internal state and maybe updates the provided
    /// writable display buffer.
    ///
    /// This is intended to be called once per scheduling tick at the normal
    /// rate by the timer event handler.
    pub fn advance(&mut self, buffer: &mut Vec<u8>)
        requires
            old(self).wf(),
            old(buffer).len() == 4,
        ensures
            final(self).wf(),
            final(buffer).len() == 4,
            old(self).ticks_left > 0 ==> {
                &&& *final(self) == (Spinner {
                    next_frame: old(self).next_frame,
                    ticks_left: (old(self).ticks_left - 1) as u8,
                })
                &&& final(buffer)@ == old(buffer)@
            },
            old(self).ticks_left == 0 ==> {
                &&& final(buffer)@ == spec_spinner_frame(old(self).next_frame as int)
                &&& final(self).next_frame == (old(self).next_frame + 1) % (SPINNER_FRAMES as int)
                &&& final(self).ticks_left == SPINNER_TICKS_PER_FRAME - 1
            },
    {
        if self.ticks_left > 0 {
            self.ticks_left = self.ticks_left - 1;
            return ;
        }

        let position: usize;
        let segment: u8;
        if self.next_frame <= 3 {
            position = self.next_frame;
            segment = SEG_A;
        } else if self.next_frame == 4 {
            position = 3;
            segment = SEG_B;
        } else if self.next_frame == 5 {
            position = 3;
            segment = SEG_C;
        } else if self.next_frame <= 9 {
            position = 9 - self.next_frame;
            segment = SEG_D;
        } else if self.next_frame == 10 {
            position = 0;
            segment = SEG_E;
        } else {
            position = 0;
            segment = SEG_F;
        }

        buffer.set(0, 0);
        buffer.set(1, 0);
        buffer.set(2, 0);
        buffer.set(3, 0);
        buffer.set(position, segment);
        proof {
            assert(buffer@ =~= spec_spinner_frame(old(self).next_frame as int));
        }

        self.next_frame = (self.next_frame + 1) % SPINNER_FRAMES;
        self.ticks_left = SPINNER_TICKS_PER_FRAME - 1;
    }
}

/// Scheduling rate the blinking dot is tuned for: the reduced rate the
/// scheduler switches to while the device sleeps.
pub const BLINK_FREQUENCY_HZ: u8 = 50;

/// Ticks the dot stays visible: a moment of half a second.
pub const BLINK_TICKS_VISIBLE: u16 = 25;

/// Ticks the dot stays hidden between blinks: ten seconds.
pub const BLINK_TICKS_HIDDEN: u16 = 500;

/// Implements the sleeping animation: a single rightmost dot appears for a
/// moment every few seconds.
#[derive(Clone, Copy, PartialEq, Eq, Structural, Debug)]
pub struct BlinkingDot {
    pub dot_visible: bool,
    pub ticks_left: u16,
}

impl BlinkingDot {
    /// Returns a new instance of BlinkingDot.
    pub fn new() -> (b: Self)
        ensures
            b == (BlinkingDot { dot_visible: false, ticks_left: (BLINK_TICKS_HIDDEN - 1) as u16 }),
    {
        Self { dot_visible: false, ticks_left: BLINK_TICKS_HIDDEN - 1 }
    }

    /// Updates the animation's internal state and maybe forces the dot (or
    /// nothing at all) onto the provided display.
    ///
    /// This is intended to be called once per scheduling tick at the reduced
    /// rate by the timer event handler.
    pub fn advance(&mut self, display: &mut Display)
        ensures
            old(self).ticks_left > 0 ==> {
                &&& *final(self) == (BlinkingDot {
                    dot_visible: old(self).dot_visible,
                    ticks_left: (old(self).ticks_left - 1) as u16,
                })
                &&& *final(display) == *old(display)
            },
            old(self).ticks_left == 0 && old(self).dot_visible ==> {
                &&& *final(self) == (BlinkingDot {
                    dot_visible: false,
                    ticks_left: (BLINK_TICKS_HIDDEN - 1) as u16,
                })
                &&& final(display).buffer == old(display).buffer
                &&& final(display).forced_output == Some((0u8, 0u8))
            },
            old(self).ticks_left == 0 && !old(self).dot_visible ==> {
                &&& *final(self) == (BlinkingDot {
                    dot_visible: true,
                    ticks_left: (BLINK_TICKS_VISIBLE - 1) as u16,
                })
                &&& final(display).buffer == old(display).buffer
                &&& final(display).forced_output == Some((SEG_POINT, POS_D4))
            },
    {
        if self.ticks_left > 0 {
            self.ticks_left = self.ticks_left - 1;
            return ;
        }

        if self.dot_visible {
            self.dot_visible = false;
            self.ticks_left = BLINK_TICKS_HIDDEN - 1;
            display.force_output(0, 0);
        } else {
            self.dot_visible = true;
            self.ticks_left = BLINK_TICKS_VISIBLE - 1;
            display.force_output(SEG_POINT, POS_D4);
        }
    }
}

} // verus!
