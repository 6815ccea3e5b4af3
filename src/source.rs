//! The entropy source selector and the process-scoped generator context.

use vstd::prelude::*;

use crate::pool::{
    accepts_fill, activate_step, disable_step, enable_step, pool_inv, read_step, refill_len,
    refill_step, shutdown_step, valid_size, zeros, Phase, Pool, PoolView,
};
use crate::rand::{finalize, next_state, Rand};

verus! {

/// The hardware counter that the platform offers.
#[derive(Clone, Copy, Debug, PartialEq, Eq, Structural)]
pub enum Counter {
    /// A CPU timestamp counter (x86-64).
    Timestamp,
    /// An ARM cycle counter.
    CycleCounter,
    /// No counter: entropy always comes from the pool.
    Absent,
}

impl Counter {
    /// Name of the hardware source; a platform without a counter names the
    /// randomness device it falls back to.
    pub fn source_name(&self) -> (s: &'static str)
        ensures
            *self == Counter::Timestamp ==> s@ == "rdtsc"@,
            *self == Counter::CycleCounter ==> s@ == "cycle counter"@,
            *self == Counter::Absent ==> s@ == "/dev/urandom"@,
    {
        match self {
            Counter::Timestamp => "rdtsc",
            Counter::CycleCounter => "cycle counter",
            Counter::Absent => "/dev/urandom",
        }
    }
}

/// The abstract state of a generator.
pub struct GeneratorView {
    pub state: u64,
    pub seeded: bool,
    pub pool: PoolView,
    pub counter: Counter,
}

/// Whether samples come from the pool: when the user asked for it, or when the
/// platform has no counter.
pub open spec fn uses_pool(g: GeneratorView) -> bool {
    g.pool.requested || g.counter == Counter::Absent
}

/// One entropy sample with the given hint: a pool read in pool mode, else the
/// counter reading the caller took.
pub open spec fn sample_step(g: GeneratorView, hint: u64, reading: u64) -> (GeneratorView, u64) {
    if uses_pool(g) {
        let (p, w) = read_step(g.pool, hint);
        (GeneratorView { pool: p, ..g }, w)
    } else {
        (g, reading)
    }
}

/// The state seeded lazily from one sample with hint 0 on first use; in
/// hardware mode the sample is the counter value `reading`.
pub open spec fn seeded_step(g: GeneratorView, reading: u64) -> GeneratorView {
    if g.seeded {
        g
    } else {
        let (g0, seed) = sample_step(g, 0, reading);
        GeneratorView { state: seed, seeded: true, ..g0 }
    }
}

/// One call of `get`: seed if needed (from a sample of its own, with the
/// counter value `seed_reading`), take a fresh sample hinted by the state
/// (with the counter value `reading`), step the state, and finalize it.
pub open spec fn get_step(g: GeneratorView, seed_reading: u64, reading: u64) -> (
    GeneratorView,
    u64,
) {
    let g1 = seeded_step(g, seed_reading);
    let (g2, e) = sample_step(g1, g1.state, reading);
    let s = next_state(g1.state, e);
    (GeneratorView { state: s, ..g2 }, finalize(s))
}

/// A process-scoped generator: the state word, the entropy pool, and the
/// platform's counter. One owner serializes all callers.
pub struct Generator {
    rand: Rand,
    seeded: bool,
    pool: Pool,
    counter: Counter,
}

impl View for Generator {
    type V = GeneratorView;

    closed spec fn view(&self) -> GeneratorView {
        GeneratorView {
            state: self.rand@,
            seeded: self.seeded,
            pool: self.pool@,
            counter: self.counter,
        }
    }
}

impl Generator {
    /// Well-formedness: the pool's invariant.
    pub open spec fn wf(&self) -> bool {
        pool_inv(self@.pool)
    }

    /// An unseeded generator on a platform with `counter`, whose pool would
    /// hold `pool_size` bytes.
    pub fn new(counter: Counter, pool_size: usize) -> (g: Generator)
        requires
            valid_size(pool_size),
        ensures
            g.wf(),
            g@.state == 0,
            !g@.seeded,
            g@.counter == counter,
            g@.pool == (PoolView {
                bytes: Seq::empty(),
                size: pool_size,
                cursor: 0,
                lap_offset: 0,
                phase: Phase::Inactive,
                requested: false,
                refill_pos: 0,
            }),
    {
        Generator { rand: Rand::new(0), seeded: false, pool: Pool::new(pool_size), counter }
    }

    /// Read access to the pool.
    pub fn pool(&self) -> (p: &Pool)
        ensures
            p@ == self@.pool,
    {
        &self.pool
    }

    /// Whether samples come from the pool.
    pub fn uses_pool(&self) -> (b: bool)
        ensures
            b == uses_pool(self@),
    {
        self.pool.is_requested() || self.counter == Counter::Absent
    }

    /// Produces one entropy sample. `reading` is the hardware counter value
    /// taken by the caller and is used only when the pool is not in use; the
    /// pool returns the sentinel 0 while it is not active.
    pub fn entropy(&mut self, hint: u64, reading: u64) -> (e: u64)
        requires
            old(self).wf(),
        ensures
            final(self).wf(),
            (final(self)@, e) == sample_step(old(self)@, hint, reading),
    {
        if self.uses_pool() {
            self.pool.read(hint)
        } else {
            reading
        }
    }

    /// Seeds the state from one entropy sample with hint 0, unless it is
    /// seeded already.
    pub fn seed(&mut self, reading: u64)
        requires
            old(self).wf(),
        ensures
            final(self).wf(),
            final(self)@ == seeded_step(old(self)@, reading),
    {
        if !self.seeded {
            let seed = self.entropy(0, reading);
            self.rand = Rand::new(seed);
            self.seeded = true;
        }
    }

    /// Produces one pseudorandom word; see `get_step`. `seed_reading` is the
    /// counter value for the seed sample of a first call, `reading` the one for
    /// the sample mixed in.
    pub fn get(&mut self, seed_reading: u64, reading: u64) -> (out: u64)
        requires
            old(self).wf(),
        ensures
            final(self).wf(),
            (final(self)@, out) == get_step(old(self)@, seed_reading, reading),
    {
        self.seed(seed_reading);
        let state = self.rand.state();
        let e = self.entropy(state, reading);
        self.rand.mix(e)
    }

    /// Whether the user has opted in to pool mode.
    pub fn is_urandom_enabled(&self) -> (b: bool)
        ensures
            b == self@.pool.requested,
    {
        self.pool.is_requested()
    }

    /// Opts in to pool mode; `false`, with nothing changed, when the
    /// randomness device is absent.
    pub fn enable_urandom(&mut self, device_available: bool) -> (ok: bool)
        requires
            old(self).wf(),
        ensures
            final(self).wf(),
            ok == device_available,
            final(self)@ == (GeneratorView {
                pool: enable_step(old(self)@.pool, device_available),
                ..old(self)@
            }),
    {
        self.pool.enable(device_available)
    }

    /// Opts out of pool mode, stops the pool and returns its zeroed buffer.
    /// Afterwards samples come from the counter until pool mode is enabled
    /// again (on a platform with a counter).
    pub fn disable_urandom(&mut self) -> (released: Vec<u8>)
        requires
            old(self).wf(),
        ensures
            final(self).wf(),
            final(self)@ == (GeneratorView { pool: disable_step(old(self)@.pool), ..old(self)@ }),
            released@ == zeros(old(self)@.pool.bytes.len()),
            !final(self)@.pool.requested,
    {
        self.pool.disable()
    }

    /// Switches pool mode on (when the device is present) or off; returns
    /// whether it is now on, and the zeroed buffer released when switching off.
    pub fn set_urandom_mode(&mut self, enabled: bool, device_available: bool) -> (r: (
        bool,
        Vec<u8>,
    ))
        requires
            old(self).wf(),
        ensures
            final(self).wf(),
            r.0 == (enabled && device_available),
            enabled ==> final(self)@ == (GeneratorView {
                pool: enable_step(old(self)@.pool, device_available),
                ..old(self)@
            }) && r.1@.len() == 0,
            !enabled ==> final(self)@ == (GeneratorView {
                pool: disable_step(old(self)@.pool),
                ..old(self)@
            }) && r.1@ == zeros(old(self)@.pool.bytes.len()),
    {
        if enabled {
            let ok = self.enable_urandom(device_available);
            (ok, Vec::new())
        } else {
            let released = self.disable_urandom();
            (false, released)
        }
    }

    /// Diagnostic name of the active source, "pool" or "hardware-counter".
    pub fn source_name(&self) -> (s: &'static str)
        ensures
            uses_pool(self@) ==> s@ == "pool"@,
            !uses_pool(self@) ==> s@ == "hardware-counter"@,
    {
        if self.uses_pool() {
            "pool"
        } else {
            "hardware-counter"
        }
    }

    /// Name of the device or counter that samples come from.
    pub fn entropy_source(&self) -> (s: &'static str)
        ensures
            uses_pool(self@) ==> s@ == "/dev/urandom"@,
            !uses_pool(self@) && self@.counter == Counter::Timestamp ==> s@ == "rdtsc"@,
            !uses_pool(self@) && self@.counter == Counter::CycleCounter ==> s@
                == "cycle counter"@,
    {
        if self.uses_pool() {
            "/dev/urandom"
        } else {
            self.counter.source_name()
        }
    }

    /// A one-line description of the source for display.
    pub fn entropy_source_info(&self) -> (s: &'static str)
        ensures
            uses_pool(self@) ==> s@ == "/dev/urandom (2MB pool) - High quality"@,
            !uses_pool(self@) && self@.counter == Counter::Timestamp ==> s@
                == "rdtsc (CPU timestamp counter) - High quality"@,
            !uses_pool(self@) && self@.counter == Counter::CycleCounter ==> s@
                == "pmccntr (ARM cycle counter) - High quality"@,
    {
        if self.uses_pool() {
            "/dev/urandom (2MB pool) - High quality"
        } else {
            match self.counter {
                Counter::Timestamp => "rdtsc (CPU timestamp counter) - High quality",
                Counter::CycleCounter => "pmccntr (ARM cycle counter) - High quality",
                Counter::Absent => "/dev/urandom (2MB pool) - High quality",
            }
        }
    }

    /// Whether the caller should create the pool before the next sample:
    /// samples come from the pool (requested, or no counter on this platform)
    /// and it has not been created in this epoch, nor refused.
    pub fn needs_pool_init(&self) -> (b: bool)
        ensures
            b == (uses_pool(self@) && self@.pool.phase == Phase::Inactive),
    {
        self.uses_pool() && self.pool.phase() == Phase::Inactive
    }

    /// Hands a completely filled buffer to the pool; see `Pool::activate`.
    pub fn activate_pool(&mut self, filled: Vec<u8>) -> (rejected: Option<Vec<u8>>)
        requires
            old(self).wf(),
        ensures
            final(self).wf(),
            final(self)@ == (GeneratorView {
                pool: activate_step(old(self)@.pool, filled@),
                ..old(self)@
            }),
            accepts_fill(old(self)@.pool, filled@.len()) <==> rejected is None,
            rejected matches Some(b) ==> b@ == filled@,
    {
        self.pool.activate(filled)
    }

    /// Records that the user declined an unpinned pool; see `Pool::decline`.
    pub fn decline_pool(&mut self)
        requires
            old(self).wf(),
        ensures
            final(self).wf(),
            final(self)@.pool.phase == (if old(self)@.pool.phase == Phase::Inactive {
                Phase::Declined
            } else {
                old(self)@.pool.phase
            }),
            final(self)@ == (GeneratorView {
                pool: PoolView { phase: final(self)@.pool.phase, ..old(self)@.pool },
                ..old(self)@
            }),
    {
        self.pool.decline()
    }

    /// One refresh step of the pool; see `Pool::refill`.
    pub fn refill_pool(&mut self, chunk: &Vec<u8>) -> (taken: usize)
        requires
            old(self).wf(),
        ensures
            final(self).wf(),
            final(self)@ == (GeneratorView {
                pool: refill_step(old(self)@.pool, chunk@),
                ..old(self)@
            }),
            taken == (if old(self)@.pool.phase == Phase::Active {
                refill_len(old(self)@.pool, chunk@.len())
            } else {
                0
            }),
    {
        self.pool.refill(chunk)
    }

    /// Stops the pool but keeps the user's choice of pool mode; see
    /// `Pool::shutdown`.
    pub fn shutdown_pool(&mut self) -> (released: Vec<u8>)
        requires
            old(self).wf(),
        ensures
            final(self).wf(),
            final(self)@ == (GeneratorView { pool: shutdown_step(old(self)@.pool), ..old(self)@ }),
            released@ == zeros(old(self)@.pool.bytes.len()),
    {
        self.pool.shutdown()
    }

    /// Overwrites the state word with zero.
    pub fn zeroize_state(&mut self)
        requires
            old(self).wf(),
        ensures
            final(self).wf(),
            final(self)@ == (GeneratorView { state: 0, ..old(self)@ }),
    {
        self.rand.zeroize_state()
    }

    /// Overwrites the pool's buffer with zero in place.
    pub fn emergency_zero(&mut self)
        requires
            old(self).wf(),
        ensures
            final(self).wf(),
            final(self)@ == (GeneratorView {
                pool: PoolView { bytes: zeros(old(self)@.pool.bytes.len()), ..old(self)@.pool },
                ..old(self)@
            }),
    {
        self.pool.emergency_zero()
    }
}

} // verus!
