//! The entropy pool: an owned buffer of operating-system randomness with a
//! read cursor, lap offsets and an explicit activation lifecycle.

use vstd::prelude::*;

use vstd::bytes::{spec_u64_from_le_bytes, u64_from_le_bytes};
use vstd::slice::slice_subrange;

use crate::wipe::wipe_bytes;

verus! {

/// Bytes in one machine word read from the pool.
pub const WORD_BYTES: usize = 8;

/// Capacity of the pool in normal operation: 2 MiB.
pub const POOL_SIZE: usize = 2 * 1024 * 1024;

/// Bytes overwritten by one step of the background refresh: 512 KiB.
pub const CHUNK_SIZE: usize = 512 * 1024;

/// Whether `n` is a power of two.
pub open spec fn is_pow2(n: usize) -> bool {
    n != 0 && n & ((n - 1) as usize) == 0
}

/// A pool capacity: a power of two that holds at least one word.
pub open spec fn valid_size(n: usize) -> bool {
    is_pow2(n) && n >= 8
}

/// Position `x` reduced into a pool of `size` bytes and aligned down to a word.
pub open spec fn pool_offset(x: usize, size: usize) -> usize {
    x & ((size - 1) as usize) & !7usize
}

/// The lap offset recomputed from a caller's hint.
pub open spec fn lap_offset_for(hint: u64, size: usize) -> usize {
    ((hint & ((size - 1) as u64)) as usize) & !7usize
}

/// The byte offset read for cursor value `cursor` under lap offset `lap`.
pub open spec fn read_offset(cursor: usize, lap: usize, size: usize) -> usize {
    pool_offset(cursor.wrapping_add(lap), size)
}

/// Whether the cursor value `cursor` is the first word of a new lap.
pub open spec fn starts_lap(cursor: usize, size: usize) -> bool {
    cursor & ((size - 1) as usize) < 8
}

/// Activation state of the pool.
#[derive(Clone, Copy, Debug, PartialEq, Eq, Structural)]
pub enum Phase {
    /// No buffer is held; a later initialization may create one.
    Inactive,
    /// The user declined to run with an unpinned buffer; sticky until enabled
    /// again.
    Declined,
    /// The buffer is filled and readable.
    Active,
}

/// The abstract state of a pool.
pub struct PoolView {
    pub bytes: Seq<u8>,
    pub size: usize,
    pub cursor: usize,
    pub lap_offset: usize,
    pub phase: Phase,
    pub requested: bool,
    pub refill_pos: usize,
}

/// What every pool satisfies: the capacity is a power of two, a buffer is held
/// exactly while active and then has the full capacity, and the lap offset and
/// refresh position lie inside it.
pub open spec fn pool_inv(v: PoolView) -> bool {
    &&& valid_size(v.size)
    &&& v.phase == Phase::Active ==> v.bytes.len() == v.size
    &&& v.phase != Phase::Active ==> v.bytes.len() == 0
    &&& v.lap_offset < v.size
    &&& v.lap_offset % 8 == 0
    &&& v.refill_pos < v.size
}

/// A sequence of `n` zero bytes.
pub open spec fn zeros(n: nat) -> Seq<u8> {
    Seq::new(n, |_i: int| 0u8)
}

/// The lap offset in force for a read with `hint`: recomputed at the start of
/// a lap, else kept.
pub open spec fn read_lap(v: PoolView, hint: u64) -> usize {
    if starts_lap(v.cursor, v.size) {
        lap_offset_for(hint, v.size)
    } else {
        v.lap_offset
    }
}

/// The byte offset that a read with `hint` takes its word from.
pub open spec fn read_position(v: PoolView, hint: u64) -> usize {
    read_offset(v.cursor, read_lap(v, hint), v.size)
}

/// One read: the state after it and the word it returns.
pub open spec fn read_step(v: PoolView, hint: u64) -> (PoolView, u64) {
    if v.phase != Phase::Active {
        (v, 0)
    } else {
        let lap = read_lap(v, hint);
        let off = read_position(v, hint);
        (
            PoolView { cursor: v.cursor.wrapping_add(8), lap_offset: lap, ..v },
            spec_u64_from_le_bytes(v.bytes.subrange(off as int, off + 8)),
        )
    }
}

/// The state after `enable` with the device present or absent.
pub open spec fn enable_step(v: PoolView, device_available: bool) -> PoolView {
    if !device_available {
        v
    } else {
        PoolView {
            requested: true,
            phase: if v.phase == Phase::Declined {
                Phase::Inactive
            } else {
                v.phase
            },
            ..v
        }
    }
}

/// Whether `activate` accepts a filled buffer of `len` bytes.
pub open spec fn accepts_fill(v: PoolView, len: nat) -> bool {
    v.phase == Phase::Inactive && len == v.size
}

/// The state after `activate` accepts the buffer `filled`.
pub open spec fn activate_step(v: PoolView, filled: Seq<u8>) -> PoolView {
    if accepts_fill(v, filled.len()) {
        PoolView {
            bytes: filled,
            cursor: 0,
            lap_offset: 0,
            phase: Phase::Active,
            refill_pos: 0,
            ..v
        }
    } else {
        v
    }
}

/// The state after `shutdown`.
pub open spec fn shutdown_step(v: PoolView) -> PoolView {
    if v.phase == Phase::Active {
        PoolView {
            bytes: Seq::empty(),
            cursor: 0,
            lap_offset: 0,
            phase: Phase::Inactive,
            refill_pos: 0,
            ..v
        }
    } else {
        v
    }
}

/// The state after `disable`.
pub open spec fn disable_step(v: PoolView) -> PoolView {
    shutdown_step(PoolView { requested: false, ..v })
}

/// Bytes taken from a refresh chunk of `len` bytes at position `pos`.
pub open spec fn refill_len(v: PoolView, len: nat) -> nat {
    if len <= v.size - v.refill_pos {
        len
    } else {
        (v.size - v.refill_pos) as nat
    }
}

/// The state after one refresh step with `chunk`.
pub open spec fn refill_step(v: PoolView, chunk: Seq<u8>) -> PoolView {
    if v.phase != Phase::Active {
        v
    } else {
        let pos = v.refill_pos as int;
        let n = refill_len(v, chunk.len());
        PoolView {
            bytes: v.bytes.subrange(0, pos) + chunk.subrange(0, n as int) + v.bytes.subrange(
                pos + n,
                v.size as int,
            ),
            refill_pos: if pos + n == v.size {
                0
            } else {
                (pos + n) as usize
            },
            ..v
        }
    }
}

/// The entropy pool: a buffer of operating-system randomness with a read
/// cursor, a lap offset and the activation flags.
///
/// The buffer is handed in already filled (see `activate`) and handed back
/// zeroed on shutdown, so the caller can pin and release the memory.
pub struct Pool {
    buf: Vec<u8>,
    size: usize,
    cursor: usize,
    lap_offset: usize,
    phase: Phase,
    requested: bool,
    refill_pos: usize,
}

impl View for Pool {
    type V = PoolView;

    closed spec fn view(&self) -> PoolView {
        PoolView {
            bytes: self.buf@,
            size: self.size,
            cursor: self.cursor,
            lap_offset: self.lap_offset,
            phase: self.phase,
            requested: self.requested,
            refill_pos: self.refill_pos,
        }
    }
}

impl Pool {
    /// An inactive, unrequested pool of `size` bytes.
    pub fn new(size: usize) -> (p: Pool)
        requires
            valid_size(size),
        ensures
            pool_inv(p@),
            p@ == (PoolView {
                bytes: Seq::empty(),
                size,
                cursor: 0,
                lap_offset: 0,
                phase: Phase::Inactive,
                requested: false,
                refill_pos: 0,
            }),
    {
        Pool {
            buf: Vec::new(),
            size,
            cursor: 0,
            lap_offset: 0,
            phase: Phase::Inactive,
            requested: false,
            refill_pos: 0,
        }
    }

    /// Capacity in bytes.
    pub fn size(&self) -> (n: usize)
        ensures
            n == self@.size,
    {
        self.size
    }

    /// Activation state.
    pub fn phase(&self) -> (ph: Phase)
        ensures
            ph == self@.phase,
    {
        self.phase
    }

    /// Whether the buffer is filled and readable.
    pub fn is_active(&self) -> (b: bool)
        ensures
            b == (self@.phase == Phase::Active),
    {
        self.phase == Phase::Active
    }

    /// Whether the user has opted in to pool mode.
    pub fn is_requested(&self) -> (b: bool)
        ensures
            b == self@.requested,
    {
        self.requested
    }

    /// Whether pool mode is requested but the buffer has not been created in
    /// this epoch yet: the caller should run the initialization.
    pub fn needs_init(&self) -> (b: bool)
        ensures
            b == (self@.requested && self@.phase == Phase::Inactive),
    {
        self.requested && self.phase == Phase::Inactive
    }

    /// Requests pool mode. Fails, changing nothing, when the randomness device
    /// is absent; otherwise also lifts an earlier refusal.
    pub fn enable(&mut self, device_available: bool) -> (ok: bool)
        requires
            pool_inv(old(self)@),
        ensures
            pool_inv(final(self)@),
            ok == device_available,
            final(self)@ == enable_step(old(self)@, device_available),
    {
        if !device_available {
            return false;
        }
        self.requested = true;
        if self.phase == Phase::Declined {
            self.phase = Phase::Inactive;
        }
        true
    }

    /// Records that the user declined to go on with an unpinned buffer; only
    /// an inactive pool changes.
    pub fn decline(&mut self)
        requires
            pool_inv(old(self)@),
        ensures
            pool_inv(final(self)@),
            final(self)@ == (if old(self)@.phase == Phase::Inactive {
                PoolView { phase: Phase::Declined, ..old(self)@ }
            } else {
                old(self)@
            }),
    {
        if self.phase == Phase::Inactive {
            self.phase = Phase::Declined;
        }
    }

    /// Publishes a buffer that has been completely filled: an inactive pool
    /// takes it when it has the pool's capacity and becomes active. Otherwise
    /// nothing changes and the buffer is handed back.
    pub fn activate(&mut self, filled: Vec<u8>) -> (rejected: Option<Vec<u8>>)
        requires
            pool_inv(old(self)@),
        ensures
            pool_inv(final(self)@),
            final(self)@ == activate_step(old(self)@, filled@),
            accepts_fill(old(self)@, filled@.len()) <==> rejected is None,
            rejected matches Some(b) ==> b@ == filled@,
    {
        if self.phase == Phase::Inactive && filled.len() == self.size {
            self.buf = filled;
            self.cursor = 0;
            self.lap_offset = 0;
            self.refill_pos = 0;
            self.phase = Phase::Active;
            None
        } else {
            Some(filled)
        }
    }

    /// Reads one word. An inactive or declined pool returns the sentinel 0.
    /// Otherwise the cursor advances by one word; at the start of a lap the
    /// lap offset is recomputed from `hint`; the word is read little-endian at
    /// `read_offset` of the old cursor and the lap offset.
    pub fn read(&mut self, hint: u64) -> (w: u64)
        requires
            pool_inv(old(self)@),
        ensures
            pool_inv(final(self)@),
            (final(self)@, w) == read_step(old(self)@, hint),
    {
        if self.phase != Phase::Active {
            return 0;
        }
        let size = self.size;
        let mask = size - 1;
        let p = self.cursor;
        self.cursor = p.wrapping_add(WORD_BYTES);
        if p & mask < WORD_BYTES {
            self.lap_offset = ((hint & (mask as u64)) as usize) & !7usize;
        }
        let lap = self.lap_offset;
        let off = p.wrapping_add(lap) & mask & !7usize;
        proof {
            lemma_offset_in_bounds(p.wrapping_add(lap), hint, size);
        }
        let word = slice_subrange(self.buf.as_slice(), off, off + WORD_BYTES);
        u64_from_le_bytes(word)
    }

    /// One refresh step: overwrites the bytes at the refresh position with the
    /// start of `chunk`, up to the end of the buffer, and moves the position on,
    /// back to the start after the last byte. Returns how many bytes were taken.
    /// An inactive pool is left alone.
    pub fn refill(&mut self, chunk: &Vec<u8>) -> (taken: usize)
        requires
            pool_inv(old(self)@),
        ensures
            pool_inv(final(self)@),
            final(self)@ == refill_step(old(self)@, chunk@),
            taken == (if old(self)@.phase == Phase::Active {
                refill_len(old(self)@, chunk@.len())
            } else {
                0
            }),
    {
        if self.phase != Phase::Active {
            return 0;
        }
        let pos = self.refill_pos;
        let room = self.size - pos;
        let n = if chunk.len() <= room {
            chunk.len()
        } else {
            room
        };
        let ghost before = self.buf@;
        let mut k: usize = 0;
        while k < n
            invariant
                pos + n <= self.size,
                n <= chunk@.len(),
                k <= n,
                self.size == before.len(),
                self.buf@.len() == before.len(),
                self@ == (PoolView { bytes: self.buf@, ..old(self)@ }),
                old(self)@.bytes == before,
                pool_inv(old(self)@),
                old(self)@.phase == Phase::Active,
                pos == old(self)@.refill_pos,
                forall|i: int|
                    0 <= i < before.len() ==> #[trigger] self.buf@[i] == if pos <= i < pos + k {
                        chunk@[i - pos]
                    } else {
                        before[i]
                    },
            decreases n - k,
        {
            self.buf.set(pos + k, chunk[k]);
            k = k + 1;
        }
        let ghost v = old(self)@;
        assert(self.buf@ =~= before.subrange(0, pos as int) + chunk@.subrange(0, n as int)
            + before.subrange(pos + n, v.size as int));
        if pos + n == self.size {
            self.refill_pos = 0;
        } else {
            self.refill_pos = pos + n;
        }
        n
    }

    /// Overwrites the whole buffer with zero in place, by writes the compiler
    /// cannot elide; allocates nothing and changes nothing else.
    pub fn emergency_zero(&mut self)
        requires
            pool_inv(old(self)@),
        ensures
            pool_inv(final(self)@),
            final(self)@ == (PoolView { bytes: zeros(old(self)@.bytes.len()), ..old(self)@ }),
    {
        wipe_bytes(&mut self.buf);
    }

    /// Stops an active pool: the buffer is zeroed, taken out and returned so
    /// the caller can unpin and release it, and the pool becomes inactive
    /// while keeping the user's request. Any other pool is left alone and an
    /// empty buffer is returned.
    pub fn shutdown(&mut self) -> (released: Vec<u8>)
        requires
            pool_inv(old(self)@),
        ensures
            pool_inv(final(self)@),
            final(self)@ == shutdown_step(old(self)@),
            released@ == zeros(old(self)@.bytes.len()),
    {
        let mut out: Vec<u8> = Vec::new();
        if self.phase != Phase::Active {
            return out;
        }
        wipe_bytes(&mut self.buf);
        core::mem::swap(&mut out, &mut self.buf);
        self.cursor = 0;
        self.lap_offset = 0;
        self.refill_pos = 0;
        self.phase = Phase::Inactive;
        out
    }

    /// Withdraws the request for pool mode and stops the pool.
    pub fn disable(&mut self) -> (released: Vec<u8>)
        requires
            pool_inv(old(self)@),
        ensures
            pool_inv(final(self)@),
            final(self)@ == disable_step(old(self)@),
            released@ == zeros(old(self)@.bytes.len()),
    {
        self.requested = false;
        self.shutdown()
    }
}

/// The state after one round per element of `fills`: enable with the device
/// present, hand in that buffer, disable.
pub open spec fn after_cycles(v: PoolView, fills: Seq<Seq<u8>>) -> PoolView
    decreases fills.len(),
{
    if fills.len() == 0 {
        v
    } else {
        after_cycles(
            disable_step(activate_step(enable_step(v, true), fills[0])),
            fills.drop_first(),
        )
    }
}

/// Any number of enable / fill / disable rounds keeps the pool well formed and
/// ends with no buffer held, the pool inactive and pool mode not requested.
pub proof fn lemma_cycles_release(v: PoolView, fills: Seq<Seq<u8>>)
    requires
        pool_inv(v),
    ensures
        pool_inv(after_cycles(v, fills)),
        fills.len() > 0 ==> after_cycles(v, fills).bytes.len() == 0,
        fills.len() > 0 ==> after_cycles(v, fills).phase != Phase::Active,
        fills.len() > 0 ==> !after_cycles(v, fills).requested,
    decreases fills.len(),
{
    if fills.len() > 0 {
        let w = disable_step(activate_step(enable_step(v, true), fills[0]));
        lemma_cycles_release(w, fills.drop_first());
    }
}

/// The state after one read per hint in `hints`.
pub open spec fn after_reads(v: PoolView, hints: Seq<u64>) -> PoolView
    decreases hints.len(),
{
    if hints.len() == 0 {
        v
    } else {
        after_reads(read_step(v, hints[0]).0, hints.drop_first())
    }
}

/// However many reads with whatever hints came before, the next read takes a
/// whole, word-aligned word inside the pool, and the pool stays well formed.
pub proof fn lemma_reads_in_bounds(v: PoolView, hints: Seq<u64>, next: u64)
    requires
        pool_inv(v),
    ensures
        pool_inv(after_reads(v, hints)),
        read_position(after_reads(v, hints), next) % 8 == 0,
        read_position(after_reads(v, hints), next) + 8 <= after_reads(v, hints).size,
    decreases hints.len(),
{
    if hints.len() == 0 {
        lemma_offset_in_bounds(v.cursor.wrapping_add(read_lap(v, next)), next, v.size);
    } else {
        lemma_offset_in_bounds(v.cursor.wrapping_add(read_lap(v, hints[0])), hints[0], v.size);
        lemma_reads_in_bounds(read_step(v, hints[0]).0, hints.drop_first(), next);
    }
}

/// Every offset computed from a cursor and lap offset, and every lap offset
/// taken from a hint, lies inside a pool of any valid capacity, is word
/// aligned, and leaves room for a whole word.
pub proof fn lemma_offset_in_bounds(x: usize, hint: u64, size: usize)
    requires
        valid_size(size),
    ensures
        pool_offset(x, size) < size,
        pool_offset(x, size) % 8 == 0,
        pool_offset(x, size) + 8 <= size,
        lap_offset_for(hint, size) < size,
        lap_offset_for(hint, size) % 8 == 0,
        lap_offset_for(hint, size) + 8 <= size,
{
    let m = (size - 1) as usize;
    assert(x & m & !7usize < size && (x & m & !7usize) % 8 == 0 && (x & m & !7usize) + 8 <= size)
        by (bit_vector)
        requires
            size != 0 && size & m == 0 && m == size - 1 && size >= 8,
    ;
    assert(hint & (m as u64) <= m as u64) by (bit_vector);
    let y = (hint & (m as u64)) as usize;
    assert(y <= m);
    assert(y & !7usize < size && (y & !7usize) % 8 == 0 && (y & !7usize) + 8 <= size)
        by (bit_vector)
        requires
            size != 0 && size & m == 0 && m == size - 1 && size >= 8 && y <= m,
    ;
}

/// Two hints give different lap offsets exactly when they differ in one of the
/// bits that select a word of the pool, so hints drawn uniformly collide with
/// probability one in `size / 8`.
pub proof fn lemma_lap_offset_distinct(h1: u64, h2: u64, size: usize)
    requires
        valid_size(size),
    ensures
        lap_offset_for(h1, size) != lap_offset_for(h2, size) <==> (h1 ^ h2) & ((size - 1) as u64)
            & !7u64 != 0,
{
    let m = (size - 1) as usize;
    let mm = m as u64;
    assert(((h1 & mm) as usize) & !7usize != ((h2 & mm) as usize) & !7usize <==> (h1 ^ h2) & mm
        & !7u64 != 0) by (bit_vector)
        requires
            mm == m as u64,
    ;
}

} // verus!
