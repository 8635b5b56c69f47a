//! Random numbers from the clock and a per-process counter: the random key
//! of the login-success packet, the random empire and the refine roll.

use vstd::prelude::*;

verus! {

/// `std::time::SystemTime`: a reading of the system clock.
#[verifier::external_type_specification]
#[verifier::external_body]
pub struct ExSystemTime(std::time::SystemTime);

/// `SystemTime::now`: the clock is read at the call; nothing is stated of
/// the value.
#[verifier::external_body]
fn system_now() -> (t: std::time::SystemTime) {
    std::time::SystemTime::now()
}

/// `SystemTime::duration_since(UNIX_EPOCH)`: the time since the epoch,
/// `None` for a clock set before it. Nothing is stated of the value.
#[verifier::external_body]
fn since_epoch(t: std::time::SystemTime) -> (d: Option<core::time::Duration>) {
    t.duration_since(std::time::UNIX_EPOCH).ok()
}

/// `Duration::as_nanos`: the whole nanoseconds of the duration. Nothing is
/// stated of the value (the duration is opaque here).
#[verifier::external_body]
fn duration_nanos(d: core::time::Duration) -> (n: u128) {
    d.as_nanos()
}

/// The clock in nanoseconds since the epoch, cut to 64 bits (0 before the
/// epoch).
pub(crate) fn now_nanos() -> (n: u64) {
    match since_epoch(system_now()) {
        Some(d) => {
            let n = duration_nanos(d);
            #[verifier::truncate]
            (n as u64)
        },
        None => 0,
    }
}

/// Clock nanoseconds xor the counter times the golden-ratio constant.
pub open spec fn mix64_spec(nanos: u64, counter: u64) -> u64 {
    nanos ^ vstd::wrapping::u64_specs::wrapping_mul(counter, 0x9E37_79B9_7F4A_7C15u64)
}

pub fn mix64(nanos: u64, counter: u64) -> (r: u64)
    ensures
        r == mix64_spec(nanos, counter),
{
    nanos ^ counter.wrapping_mul(0x9E37_79B9_7F4A_7C15u64)
}

/// A key is never 0: a zero value becomes 1.
pub open spec fn nonzero_key(v: u32) -> u32 {
    if v == 0 {
        1
    } else {
        v
    }
}

/// A roll of 1..=100 from a mixed value.
pub open spec fn roll_spec(mixed: u64) -> i32 {
    (mixed % 100 + 1) as i32
}

pub fn roll_from(mixed: u64) -> (r: i32)
    ensures
        r == roll_spec(mixed),
        1 <= r <= 100,
{
    (mixed % 100) as i32 + 1
}

/// Random values mixed from the clock and a counter that advances on each
/// draw (no outside generator).
pub struct RandomSource {
    counter: u64,
}

impl RandomSource {
    pub closed spec fn counter(&self) -> u64 {
        self.counter
    }

    pub fn new() -> (r: RandomSource)
        ensures
            r.counter() == 0,
    {
        RandomSource { counter: 0 }
    }

    fn draw(&mut self) -> (r: u64)
        ensures
            final(self).counter() == vstd::wrapping::u64_specs::wrapping_add(old(self).counter(), 1),
            exists|n: u64| r == mix64_spec(n, old(self).counter()),
    {
        let nanos = now_nanos();
        let c = self.counter;
        self.counter = c.wrapping_add(1);
        mix64(nanos, c)
    }

    /// A random key: the low half of the mix, never 0 (a zero half becomes
    /// 1), so it is always a valid key.
    pub fn rand32(&mut self) -> (r: u32)
        ensures
            final(self).counter() == vstd::wrapping::u64_specs::wrapping_add(old(self).counter(), 1),
            r != 0,
            exists|n: u64| r == nonzero_key(mix64_spec(n, old(self).counter()) as u32),
    {
        let v = self.draw() as u32;
        if v == 0 {
            1
        } else {
            v
        }
    }

    /// A refine roll, 1 to 100.
    pub fn roll_1_100(&mut self) -> (r: i32)
        ensures
            final(self).counter() == vstd::wrapping::u64_specs::wrapping_add(old(self).counter(), 1),
            1 <= r <= 100,
            exists|n: u64| r == roll_spec(mix64_spec(n, old(self).counter())),
    {
        roll_from(self.draw())
    }
}

} // verus!
