use crate::object::TextureResource;
use std::time::{Duration, Instant};
use vstd::prelude::*;

verus! {

/// A point on the machine's monotonic clock. Carried through, never read.
#[verifier::external_type_specification]
#[verifier::external_body]
pub struct ExInstant(Instant);

/// `Instant::now` reads the clock; nothing is claimed of what it returns.
pub assume_specification[ Instant::now ]() -> (now: Instant)
;

/// `Instant::elapsed` reads the clock; nothing is claimed of what it returns.
pub assume_specification[ Instant::elapsed ](start: &Instant) -> (elapsed: Duration)
;

/// `Duration::as_millis` gives the whole milliseconds of a duration.
/// Durations have no model here, so nothing is claimed of the number.
pub assume_specification[ Duration::as_millis ](duration: &Duration) -> (millis: u128)
;

/// One picture of an animation and how long it is shown, in milliseconds.
#[derive(Debug, Clone, Copy, PartialEq, Eq, Structural)]
pub struct Frame {
    pub texture: TextureResource,
    pub millis: u64,
}

/// The time the first `n` frames take together.
pub open spec fn millis_until(frames: Seq<Frame>, n: int) -> nat
    decreases n,
{
    if n <= 0 {
        0
    } else {
        millis_until(frames, n - 1) + frames[n - 1].millis as nat
    }
}

/// The time all the frames take together.
pub open spec fn total_millis(frames: Seq<Frame>) -> nat {
    millis_until(frames, frames.len() as int)
}

/// The time within the animation that is shown `elapsed` milliseconds
/// after its start: a looping animation starts over when it has run through.
pub open spec fn phase(frames: Seq<Frame>, looping: bool, elapsed: nat) -> nat {
    if looping && total_millis(frames) > 0 {
        elapsed % total_millis(frames)
    } else {
        elapsed
    }
}

/// Frame `i` is the one shown at time `t`: every frame before it is over
/// by then, and it is either not over yet or the last frame.
pub open spec fn shows_at(frames: Seq<Frame>, i: int, t: nat) -> bool {
    &&& 0 <= i < frames.len()
    &&& forall|j: int| 0 <= j < i ==> #[trigger] millis_until(frames, j + 1) <= t
    &&& (i == frames.len() - 1 || t < millis_until(frames, i + 1))
}

/// The mathematical content of an [`Animation`]: the clock is left out.
pub struct AnimationView {
    pub frames: Seq<Frame>,
    pub looping: bool,
}

/// A texture is the one an animation shows `elapsed` milliseconds after
/// its start.
pub open spec fn shown(a: AnimationView, elapsed: nat, texture: TextureResource) -> bool {
    exists|i: int| #[trigger]
        shows_at(a.frames, i, phase(a.frames, a.looping, elapsed)) && texture
            == a.frames[i].texture
}

/// A sequence of frames that is played from a start time on.
pub struct Animation {
    frames: Vec<Frame>,
    start_time: Instant,
    looping: bool,
}

impl View for Animation {
    type V = AnimationView;

    closed spec fn view(&self) -> AnimationView {
        AnimationView { frames: self.frames@, looping: self.looping }
    }
}

impl Animation {
    /// An animation of the given frames, started now and played once.
    pub fn new(frames: Vec<Frame>) -> (animation: Animation)
        ensures
            animation@ == (AnimationView { frames: frames@, looping: false }),
    {
        Self { frames, start_time: Instant::now(), looping: false }
    }

    /// Starts the animation over.
    pub fn start(&mut self)
        ensures
            final(self)@ == old(self)@,
    {
        self.start_at(Instant::now());
    }

    /// Starts the animation over and lets it loop from now on.
    pub fn start_loop(&mut self)
        ensures
            final(self)@ == (AnimationView { frames: old(self)@.frames, looping: true }),
    {
        self.start_time = Instant::now();
        self.looping = true;
    }

    /// The number of frames.
    pub fn frame_count(&self) -> (count: usize)
        ensures
            count == self@.frames.len(),
    {
        self.frames.len()
    }

    /// The time all the frames take together.
    pub fn total_duration(&self) -> (total: u128)
        ensures
            total == total_millis(self@.frames),
    {
        let mut total: u128 = 0;
        let mut i: usize = 0;
        while i < self.frames.len()
            invariant
                i <= self.frames.len(),
                total == millis_until(self.frames@, i as int),
                total <= i * 0xffff_ffff_ffff_ffff,
            decreases self.frames.len() - i,
        {
            assert((i + 1) * 0xffff_ffff_ffff_ffff == i * 0xffff_ffff_ffff_ffff
                + 0xffff_ffff_ffff_ffff) by (nonlinear_arith);
            assert((i + 1) * 0xffff_ffff_ffff_ffff <= 0x1_0000_0000_0000_0000
                * 0xffff_ffff_ffff_ffff) by (nonlinear_arith)
                requires
                    i + 1 <= 0x1_0000_0000_0000_0000,
            ;
            total += self.frames[i].millis as u128;
            i += 1;
        }
        total
    }

    /// The texture shown `elapsed_millis` after the start.
    pub fn texture_at(&self, elapsed_millis: u128) -> (texture: TextureResource)
        requires
            self@.frames.len() > 0,
        ensures
            shown(self@, elapsed_millis as nat, texture),
    {
        let mut elapsed = elapsed_millis;
        if self.looping {
            let total = self.total_duration();
            if total > 0 {
                elapsed = elapsed % total;
            }
        }
        let ghost t = phase(self@.frames, self@.looping, elapsed_millis as nat);
        let last = self.frames.len() - 1;
        let mut i: usize = 0;
        let mut sum: u128 = 0;
        while i < last
            invariant
                last == self.frames.len() - 1,
                i <= last,
                elapsed == t,
                t == phase(self@.frames, self@.looping, elapsed_millis as nat),
                sum == millis_until(self.frames@, i as int),
                sum <= elapsed,
                forall|j: int| 0 <= j < i ==> #[trigger] millis_until(self.frames@, j + 1) <= t,
            decreases last - i,
        {
            let millis = self.frames[i].millis as u128;
            if elapsed - sum < millis {
                assert(shows_at(self@.frames, i as int, t));
                return self.frames[i].texture;
            }
            sum += millis;
            i += 1;
        }
        assert(shows_at(self@.frames, last as int, t));
        self.frames[last].texture
    }

    /// The texture to show now.
    pub fn get_current_texture(&self) -> (texture: TextureResource)
        requires
            self@.frames.len() > 0,
        ensures
            exists|elapsed: nat| #[trigger] shown(self@, elapsed, texture),
    {
        let elapsed = self.start_time.elapsed();
        let millis = elapsed.as_millis();
        self.texture_at(millis)
    }
}

/// The animations of the game.
pub struct GameAnimations {
    /// The lumberjack swinging the axe.
    pub chop: Animation,
}

impl GameAnimations {
    /// Starts the chop over; called when a chop is made.
    pub fn update(&mut self)
        ensures
            final(self).chop@ == old(self).chop@,
    {
        self.chop.start();
    }
}

impl Animation {
    /// The instant from which the animation is played.
    pub closed spec fn started(&self) -> Instant {
        self.start_time
    }

    /// Starts the animation over at the given instant: from then on it is
    /// played from `now`, with the frames and the looping it had.
    pub fn start_at(&mut self, now: Instant)
        ensures
            final(self)@ == old(self)@,
            final(self).started() == now,
    {
        self.start_time = now;
    }
}

/// At any time, at most one frame is the one shown.
pub proof fn lemma_shown_frame_is_unique(frames: Seq<Frame>, t: nat, i: int, k: int)
    requires
        shows_at(frames, i, t),
        shows_at(frames, k, t),
    ensures
        i == k,
{
    if i < k {
        assert(millis_until(frames, i + 1) <= t);
    } else if k < i {
        assert(millis_until(frames, k + 1) <= t);
    }
}

} // verus!
