//! The piece supply: a uniform draw over the 7 kinds with a single re-draw
//! when the first draw repeats the previous kind (a soft de-bias, not a hard
//! no-repeat guarantee).

use vstd::prelude::*;

verus! {

/// What the spawner hands out, given the previously produced kind and two
/// uniform byte draws: the first draw's kind, unless it repeats the previous
/// kind, in which case the second draw's kind (whatever it is).
pub open spec fn spec_pick(prev: u8, first: u8, second: u8) -> u8 {
    if first % 7 == prev {
        second % 7
    } else {
        first % 7
    }
}

/// Relies on rand::random::<u8>: a uniform draw; nothing is assumed of the
/// value returned.
#[verifier::external_body]
fn random_byte() -> u8 {
    rand::random::<u8>()
}

/// The spawner's draw policy on two given byte draws. Public so that the
/// repeat-avoidance can be exercised on chosen draws; the spawner itself feeds
/// it random bytes.
pub fn pick_kind(prev: u8, first: u8, second: u8) -> (k: u8)
    ensures
        k == spec_pick(prev, first, second),
        k < 7,
        k == prev ==> first % 7 == prev && second % 7 == prev,
{
    let k1 = first % 7;
    if k1 == prev {
        second % 7
    } else {
        k1
    }
}

/// The repeat-avoiding piece supply: remembers the last kind produced.
pub struct Spawner {
    /// The kind produced by the last draw; 7 (no kind) before the first draw.
    pub prev_kind: u8,
}

impl Spawner {
    /// A spawner that has drawn nothing yet.
    pub fn new() -> (s: Spawner)
        ensures
            s.prev_kind == 7,
    {
        Spawner { prev_kind: 7 }
    }

    /// Draw the next piece kind: uniform over the 7 kinds, re-drawn once when
    /// the first draw repeats the previous kind.
    pub fn next_kind(&mut self) -> (k: u8)
        ensures
            k < 7,
            final(self).prev_kind == k,
    {
        let first = random_byte();
        let second = if first % 7 == self.prev_kind {
            random_byte()
        } else {
            first
        };
        let k = pick_kind(self.prev_kind, first, second);
        self.prev_kind = k;
        k
    }
}

} // verus!
