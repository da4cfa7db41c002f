//! The source of random draws for the evolutionary operators.
//!
//! The engine never consults the process-wide generator directly: every
//! decision is drawn from a [`RandomSource`], which either taps the
//! process-wide generator or replays a fixed feed of numbers.  The second
//! mode is fully contracted: each draw is the current feed entry reduced
//! modulo the bound, and the cursor advances by one, wrapping at the
//! feed's end — so every evolutionary operator is reproducible.
#![allow(unused_imports)]
use vstd::prelude::*;

verus! {

/// Where the draws of a [`RandomSource`] come from.
#[derive(Clone, Copy, Debug, PartialEq, Eq, Structural)]
pub enum SourceMode {
    /// Fresh draws from the process-wide generator.
    System,
    /// Draws replayed from a fixed feed, wrapping around at its end.
    Scripted,
}

/// The cursor that follows `c` in a feed of `len` entries.
pub open spec fn next_cursor(len: int, c: int) -> int {
    if c + 1 == len {
        0
    } else {
        c + 1
    }
}

/// The cursor `k` draws after `c` in a feed of `len` entries.
pub open spec fn cursor_after(len: int, c: int, k: int) -> int
    decreases k,
{
    if k <= 0 {
        c
    } else {
        next_cursor(len, cursor_after(len, c, k - 1))
    }
}

/// Chaining cursor advances: `a` draws followed by `b` draws land where
/// `a + b` draws land.
pub proof fn lemma_cursor_after_add(len: int, c: int, a: int, b: int)
    requires
        a >= 0,
        b >= 0,
    ensures
        cursor_after(len, c, a + b) == cursor_after(len, cursor_after(len, c, a), b),
    decreases b,
{
    if b > 0 {
        lemma_cursor_after_add(len, c, a, b - 1);
    }
}

/// A stream of bounded random draws.
#[derive(Debug)]
pub struct RandomSource {
    mode: SourceMode,
    feed: Vec<u64>,
    cursor: usize,
}

/// The value of one scripted draw below `bound`: the current feed entry
/// reduced modulo the bound.
pub open spec fn scripted_draw(s: RandomSource, bound: u64) -> int {
    (s.feed()[s.cursor()] as int) % (bound as int)
}

impl RandomSource {
    /// Whether draws replay the scripted feed.
    pub closed spec fn is_scripted(self) -> bool {
        self.mode is Scripted
    }

    /// The scripted feed.
    pub closed spec fn feed(self) -> Seq<u64> {
        self.feed@
    }

    /// The position in the feed of the next scripted draw.
    pub closed spec fn cursor(self) -> int {
        self.cursor as int
    }

    /// The source is fit for drawing: a scripted feed is nonempty and the
    /// cursor stands on one of its entries.
    pub open spec fn wf(self) -> bool {
        self.is_scripted() ==> self.feed().len() > 0 && 0 <= self.cursor() < self.feed().len()
    }

    /// A source backed by the process-wide generator.
    pub fn system() -> (r: RandomSource)
        ensures
            r.wf(),
            !r.is_scripted(),
    {
        RandomSource { mode: SourceMode::System, feed: Vec::new(), cursor: 0 }
    }

    /// A source that replays `feed` from its start, wrapping around.
    pub fn scripted(feed: Vec<u64>) -> (r: RandomSource)
        requires
            feed.len() > 0,
        ensures
            r.wf(),
            r.is_scripted(),
            r.feed() == feed@,
            r.cursor() == 0,
    {
        RandomSource { mode: SourceMode::Scripted, feed, cursor: 0 }
    }

    /// One draw below `bound`.  On a scripted source the draw and the
    /// cursor movement are exact; a system source is left as it was.
    pub fn draw_below(&mut self, bound: u64) -> (r: u64)
        requires
            old(self).wf(),
            bound > 0,
        ensures
            final(self).wf(),
            r < bound,
            final(self).is_scripted() == old(self).is_scripted(),
            final(self).feed() == old(self).feed(),
            !old(self).is_scripted() ==> *final(self) == *old(self),
            old(self).is_scripted() ==> r == scripted_draw(*old(self), bound)
                && final(self).cursor() == next_cursor(
                old(self).feed().len() as int,
                old(self).cursor(),
            ),
    {
        match self.mode {
            SourceMode::System => system_draw(bound),
            SourceMode::Scripted => {
                proof {
                    assert(self.is_scripted());
                    assert(0 <= self.cursor() < self.feed().len());
                }
                let len = self.feed.len();
                let v = self.feed[self.cursor];
                self.cursor = if self.cursor + 1 == len {
                    0
                } else {
                    self.cursor + 1
                };
                v % bound
            },
        }
    }

    /// One draw from the inclusive range `lo ..= hi`.
    pub fn draw_range(&mut self, lo: i64, hi: i64) -> (r: i64)
        requires
            old(self).wf(),
            lo <= hi,
            hi - lo < 0x4000_0000_0000_0000,
        ensures
            final(self).wf(),
            lo <= r <= hi,
            final(self).is_scripted() == old(self).is_scripted(),
            final(self).feed() == old(self).feed(),
            !old(self).is_scripted() ==> *final(self) == *old(self),
            old(self).is_scripted() ==> r == lo + scripted_draw(
                *old(self),
                ((hi - lo + 1) as u64),
            ) && final(self).cursor() == next_cursor(
                old(self).feed().len() as int,
                old(self).cursor(),
            ),
    {
        let span: u64 = (hi - lo) as u64 + 1;
        let d = self.draw_below(span);
        lo + d as i64
    }

    /// One draw in `0 ..= 1` read as a coin: true on zero.
    pub fn coin(&mut self) -> (r: bool)
        requires
            old(self).wf(),
        ensures
            final(self).wf(),
            final(self).is_scripted() == old(self).is_scripted(),
            final(self).feed() == old(self).feed(),
            !old(self).is_scripted() ==> *final(self) == *old(self),
            old(self).is_scripted() ==> (r <==> scripted_draw(*old(self), 2) == 0)
                && final(self).cursor() == next_cursor(
                old(self).feed().len() as int,
                old(self).cursor(),
            ),
    {
        self.draw_below(2) == 0
    }

    /// True with probability `tenths / 10`, judged by one draw.
    pub fn chance_tenths(&mut self, tenths: u64) -> (r: bool)
        requires
            old(self).wf(),
        ensures
            final(self).wf(),
            final(self).is_scripted() == old(self).is_scripted(),
            final(self).feed() == old(self).feed(),
            !old(self).is_scripted() ==> *final(self) == *old(self),
            old(self).is_scripted() ==> (r <==> scripted_draw(*old(self), crate::CHANCE_DENOM)
                < tenths) && final(self).cursor() == next_cursor(
                old(self).feed().len() as int,
                old(self).cursor(),
            ),
    {
        self.draw_below(crate::CHANCE_DENOM) < tenths
    }
}

/// Relies on `rand::Rng::gen_range` over `rand::thread_rng()`: a draw from
/// the half-open range `0..bound`, hence below `bound`; the range is
/// nonempty, so the call does not panic.
#[verifier::external_body]
fn system_draw(bound: u64) -> (r: u64)
    requires
        bound > 0,
    ensures
        r < bound,
{
    rand::Rng::gen_range(&mut rand::thread_rng(), 0..bound)
}

} // verus!
