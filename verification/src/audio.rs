//! The order in which stereo samples are produced: left then right for each
//! frame, with one noise sample shared by both channels of a frame.
use vstd::prelude::*;

verus! {

/// A stereo channel.
#[derive(Clone, Copy, Debug, PartialEq, Eq, Structural)]
pub enum Channel {
    Left,
    Right,
}

/// One sample to produce: its channel, its frame, and whether a new noise
/// sample is drawn for it (once per frame, with the left sample).
#[derive(Clone, Copy, Debug, PartialEq, Eq, Structural)]
pub struct Step {
    pub channel: Channel,
    pub frame: u64,
    pub draws_noise: bool,
}

/// Where sample production stands: the current frame, and whether its left
/// sample is next.
#[derive(Clone, Copy, Debug, PartialEq, Eq, Structural)]
pub struct FrameCursor {
    pub frame: u64,
    pub left_next: bool,
}

/// The sample that comes next from `c`, and where production stands after it.
pub open spec fn spec_advance(c: FrameCursor) -> (FrameCursor, Step) {
    if c.left_next {
        (
            FrameCursor { frame: c.frame, left_next: false },
            Step { channel: Channel::Left, frame: c.frame, draws_noise: true },
        )
    } else {
        (
            FrameCursor { frame: (c.frame + 1) as u64, left_next: true },
            Step { channel: Channel::Right, frame: c.frame, draws_noise: false },
        )
    }
}

/// Whether the step after `c` can be taken without running out of frames.
pub open spec fn can_advance(c: FrameCursor) -> bool {
    c.left_next || c.frame < u64::MAX
}

impl FrameCursor {
    /// The start of a sound: frame 0, left sample next.
    pub fn new() -> (r: FrameCursor)
        ensures
            r == (FrameCursor { frame: 0, left_next: true }),
    {
        FrameCursor { frame: 0, left_next: true }
    }

    /// Takes the next step (see [`spec_advance`]).
    pub fn advance(&mut self) -> (r: Step)
        requires
            can_advance(*old(self)),
        ensures
            (*final(self), r) == spec_advance(*old(self)),
    {
        if self.left_next {
            self.left_next = false;
            Step { channel: Channel::Left, frame: self.frame, draws_noise: true }
        } else {
            self.left_next = true;
            let step = Step { channel: Channel::Right, frame: self.frame, draws_noise: false };
            self.frame = self.frame + 1;
            step
        }
    }
}

/// Samples come in complete frames: from the start of a frame, two steps
/// give the left and then the right sample of that same frame, a new noise
/// sample is drawn for the left one only, and the next frame starts.
pub proof fn lemma_frames_interleave(c: FrameCursor)
    requires
        c.left_next,
        c.frame < u64::MAX,
    ensures
        ({
            let (c1, s1) = spec_advance(c);
            let (c2, s2) = spec_advance(c1);
            &&& s1 == Step { channel: Channel::Left, frame: c.frame, draws_noise: true }
            &&& s2 == Step { channel: Channel::Right, frame: c.frame, draws_noise: false }
            &&& c2 == FrameCursor { frame: (c.frame + 1) as u64, left_next: true }
            &&& can_advance(c1)
        }),
{
}

/// After `2 * n` steps from the start, `n` whole frames have been produced.
pub open spec fn after_steps(n: nat) -> FrameCursor
    decreases n,
{
    if n == 0 {
        FrameCursor { frame: 0, left_next: true }
    } else {
        spec_advance(after_steps((n - 1) as nat)).0
    }
}

/// Each step from the start alternates channels: after `k` steps the frame
/// is `k / 2` and the left sample is next exactly when `k` is even.
pub proof fn lemma_after_steps(k: nat)
    requires
        k / 2 <= u64::MAX,
    ensures
        after_steps(k).frame == k / 2,
        after_steps(k).left_next == (k % 2 == 0),
    decreases k,
{
    if k > 0 {
        lemma_after_steps((k - 1) as nat);
    }
}

} // verus!
