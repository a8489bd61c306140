use vstd::prelude::*;

verus! {

/// Nanoseconds in a second.
pub const NANOS_PER_SEC: u128 = 1_000_000_000;

/// The first instant past every time the system clock can report, in
/// nanoseconds since the UNIX epoch: a `Duration` holds at most `u64::MAX`
/// whole seconds.
pub const MAX_INSTANT: u128 = 18_446_744_073_709_551_616_000_000_000;

/// `SystemTime::now().duration_since(UNIX_EPOCH)` in nanoseconds, or nothing
/// when the clock is set before the epoch. The value is the clock's, so
/// nothing but its range is known: a `Duration` has at most `u64::MAX` whole
/// seconds and fewer than a billion nanoseconds beyond them.
#[verifier::external_body]
fn clock_nanos() -> (res: Option<u128>)
    ensures
        res is Some ==> res->Some_0 < MAX_INSTANT,
{
    match std::time::SystemTime::now().duration_since(std::time::UNIX_EPOCH) {
        Ok(d) => Some(d.as_nanos()),
        Err(_) => None,
    }
}

/// The current time in nanoseconds since the UNIX epoch; a clock set before
/// the epoch reads as the epoch itself.
pub fn now() -> (res: u128)
    ensures
        res < MAX_INSTANT,
{
    instant_of(clock_nanos())
}

/// Whether `after` is the readings `before` with one more reading taken,
/// which is below `MAX_INSTANT`.
pub open spec fn read_once(before: Seq<u128>, after: Seq<u128>) -> bool {
    &&& after.len() == before.len() + 1
    &&& after.drop_last() == before
    &&& after.last() < MAX_INSTANT
}

/// A clock and the readings taken from it so far, in the order they were
/// taken. Only reading the clock adds to them.
pub struct Clock {
    taken: Ghost<Seq<u128>>,
}

impl Clock {
    /// The readings taken so far, oldest first.
    pub closed spec fn readings(&self) -> Seq<u128> {
        self.taken@
    }

    /// A clock from which nothing has been read yet.
    pub fn new() -> (res: Self)
        ensures
            res.readings() == Seq::<u128>::empty(),
    {
        Clock { taken: Ghost(Seq::empty()) }
    }

    /// Reads the current time, as `now` does, and records the reading.
    pub fn read(&mut self) -> (res: u128)
        ensures
            res < MAX_INSTANT,
            final(self).readings() == old(self).readings().push(res),
            read_once(old(self).readings(), final(self).readings()),
            final(self).readings().last() == res,
    {
        let res = now();
        self.taken = Ghost(self.taken@.push(res));
        assert(self.taken@.drop_last() =~= old(self).readings());
        res
    }
}

/// The instant a reading of the clock stands for: the reading itself, or the
/// epoch when the clock was set before it.
pub fn instant_of(reading: Option<u128>) -> (res: u128)
    requires
        reading is Some ==> reading->Some_0 < MAX_INSTANT,
    ensures
        res == match reading {
            Some(n) => n,
            None => 0,
        },
        res < MAX_INSTANT,
{
    match reading {
        Some(n) => n,
        None => 0,
    }
}

/// A whole number of seconds as nanoseconds.
pub fn secs(s: u64) -> (res: u128)
    ensures
        res == s * NANOS_PER_SEC,
        res < MAX_INSTANT,
{
    assert(s * NANOS_PER_SEC < MAX_INSTANT) by (nonlinear_arith)
        requires
            s <= 18_446_744_073_709_551_615u64,
    ;
    (s as u128) * NANOS_PER_SEC
}

} // verus!
