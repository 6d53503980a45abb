use vstd::prelude::*;

verus! {

/// A source of the random draws that the search makes: sampling positions,
/// picking parents and deciding mutations.
pub trait Entropy {
    /// A uniform index in `0..n`.
    fn index_below(&mut self, n: usize) -> (r: usize)
        requires
            n > 0,
        ensures
            r < n,
    ;

    /// A uniform value in `lo..=hi`.
    fn between(&mut self, lo: i64, hi: i64) -> (r: i64)
        requires
            lo <= hi,
        ensures
            lo <= r <= hi,
    ;

    /// `true` with probability `numerator / denominator`.
    fn ratio(&mut self, numerator: u32, denominator: u32) -> (r: bool)
        requires
            0 < denominator,
            numerator <= denominator,
        ensures
            numerator == 0 ==> !r,
            numerator == denominator ==> r,
    ;
}

/// Relies on rand::random_range over `0..n`: a value inside the range; it
/// panics on an empty range, which `requires` leaves out.
#[verifier::external_body]
fn random_below(n: usize) -> (r: usize)
    requires
        n > 0,
    ensures
        r < n,
{
    rand::random_range(0..n)
}

/// Relies on rand::random_range over `lo..=hi`: a value inside the range; it
/// panics on an empty range, which `requires` leaves out.
#[verifier::external_body]
fn random_between(lo: i64, hi: i64) -> (r: i64)
    requires
        lo <= hi,
    ensures
        lo <= r <= hi,
{
    rand::random_range(lo..=hi)
}

/// Relies on rand::random_ratio: `false` when the numerator is 0, `true` when
/// it equals the denominator; it panics on a zero denominator or a numerator
/// above it, which `requires` leaves out.
#[verifier::external_body]
fn random_ratio(numerator: u32, denominator: u32) -> (r: bool)
    requires
        0 < denominator,
        numerator <= denominator,
    ensures
        numerator == 0 ==> !r,
        numerator == denominator ==> r,
{
    rand::random_ratio(numerator, denominator)
}

/// The thread-local generator of `rand`, seeded by the system.
pub struct ThreadEntropy;

impl Entropy for ThreadEntropy {
    fn index_below(&mut self, n: usize) -> (r: usize) {
        random_below(n)
    }

    fn between(&mut self, lo: i64, hi: i64) -> (r: i64) {
        random_between(lo, hi)
    }

    fn ratio(&mut self, numerator: u32, denominator: u32) -> (r: bool) {
        random_ratio(numerator, denominator)
    }
}

/// The draw that a replayed sequence hands out at `cursor`.
pub open spec fn draw_at(draws: Seq<u64>, cursor: nat) -> u64 {
    if draws.len() == 0 {
        0
    } else {
        draws[(cursor % draws.len()) as int]
    }
}

/// The cursor after one draw at `cursor`.
pub open spec fn cursor_after(draws: Seq<u64>, cursor: nat) -> nat {
    if draws.len() == 0 {
        cursor
    } else {
        (cursor % draws.len()) + 1
    }
}

/// A deterministic source: it hands out a fixed sequence of draws, cycling
/// back to the start when it runs out (an empty sequence reads as zeros).
pub struct Replay {
    draws: Vec<u64>,
    next: usize,
}

impl Replay {
    /// The draws that this source hands out, in order.
    pub closed spec fn draws(&self) -> Seq<u64> {
        self.draws@
    }

    /// Where in `draws` the next draw is taken (modulo their number).
    pub closed spec fn cursor(&self) -> nat {
        self.next as nat
    }

    pub fn new(draws: Vec<u64>) -> (r: Replay)
        ensures
            r.draws() == draws@,
            r.cursor() == 0,
    {
        Replay { draws, next: 0 }
    }

    /// The next raw draw.
    fn draw(&mut self) -> (r: u64)
        ensures
            r == draw_at(old(self).draws(), old(self).cursor()),
            final(self).draws() == old(self).draws(),
            final(self).cursor() == cursor_after(old(self).draws(), old(self).cursor()),
    {
        let len = self.draws.len();
        if len == 0 {
            return 0;
        }
        let k = self.next % len;
        self.next = k + 1;
        self.draws[k]
    }
}

impl Entropy for Replay {
    /// The draw modulo `n`.
    fn index_below(&mut self, n: usize) -> (r: usize)
        ensures
            r == (draw_at(old(self).draws(), old(self).cursor()) as int) % (n as int),
            final(self).draws() == old(self).draws(),
            final(self).cursor() == cursor_after(old(self).draws(), old(self).cursor()),
    {
        let d = self.draw();
        (d % (n as u64)) as usize
    }

    /// `lo` plus the draw modulo the number of values in `lo..=hi`.
    fn between(&mut self, lo: i64, hi: i64) -> (r: i64)
        ensures
            r == lo as int + (draw_at(old(self).draws(), old(self).cursor()) as int) % (hi - lo + 1) as int,
            final(self).draws() == old(self).draws(),
            final(self).cursor() == cursor_after(old(self).draws(), old(self).cursor()),
    {
        let d = self.draw();
        let span: u128 = ((hi as i128 - lo as i128) as u128) + 1;
        let offset: u128 = (d as u128) % span;
        (lo as i128 + offset as i128) as i64
    }

    /// Whether the draw modulo `denominator` is below `numerator`.
    fn ratio(&mut self, numerator: u32, denominator: u32) -> (r: bool)
        ensures
            r == ((draw_at(old(self).draws(), old(self).cursor()) as int) % (denominator as int) < numerator),
            final(self).draws() == old(self).draws(),
            final(self).cursor() == cursor_after(old(self).draws(), old(self).cursor()),
    {
        let d = self.draw();
        ((d % (denominator as u64)) as u32) < numerator
    }
}

} // verus!
