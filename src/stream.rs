//! Runs of generator words and raw byte output.

use vstd::prelude::*;

use crate::source::{get_step, Generator, GeneratorView};

verus! {

/// `n` successive words of the generator, the `k`-th taken with the counter
/// reading `readings[k]` (and `seed_reading` for a seed sample, should the
/// generator be unseeded), with the state after them.
pub open spec fn words_from(g: GeneratorView, seed_reading: u64, readings: Seq<u64>, n: nat) -> (
    GeneratorView,
    Seq<u64>,
)
    decreases n,
{
    if n == 0 {
        (g, Seq::empty())
    } else {
        let prev = words_from(g, seed_reading, readings, (n - 1) as nat);
        let next = get_step(prev.0, seed_reading, readings[n - 1]);
        (next.0, prev.1.push(next.1))
    }
}

/// Byte `j` (little-endian) of the word `w`.
pub open spec fn le_byte(w: u64, j: int) -> u8 {
    ((w >> (8 * j) as u64) & 0xff) as u8
}

/// The first `n` bytes of the little-endian encodings of the words `ws`, one
/// after another.
pub open spec fn stream_bytes(ws: Seq<u64>, n: nat) -> Seq<u8> {
    Seq::new(n, |k: int| le_byte(ws[k / 8], k % 8))
}

/// The number of words that `n` bytes take.
pub open spec fn words_for(n: nat) -> nat {
    (n + 7) / 8
}

/// `n` bytes of generator output: successive words, each written
/// little-endian, the last one cut short where `n` is not a multiple of 8.
/// Word `k` is taken with the hardware counter value `readings[k]`;
/// `seed_reading` serves a first call's seed sample.
pub fn random_bytes(rand: &mut Generator, n: usize, seed_reading: u64, readings: &[u64]) -> (out:
    Vec<u8>)
    requires
        old(rand).wf(),
        readings@.len() >= words_for(n as nat),
    ensures
        final(rand).wf(),
        ({
            let (g, ws) = words_from(old(rand)@, seed_reading, readings@, words_for(n as nat));
            final(rand)@ == g && out@ == stream_bytes(ws, n as nat)
        }),
{
    let mut out: Vec<u8> = Vec::new();
    let ghost mut ws: Seq<u64> = Seq::empty();
    let ghost g0 = rand@;
    let mut words: usize = 0;
    while out.len() < n
        invariant
            rand.wf(),
            out@.len() <= n,
            out@.len() == 8 * words || out@.len() == n,
            out@.len() < n ==> out@.len() == 8 * words,
            words == words_for(out@.len() as nat),
            ws.len() == words,
            readings@.len() >= words_for(n as nat),
            (rand@, ws) == words_from(g0, seed_reading, readings@, words as nat),
            out@ == stream_bytes(ws, out@.len() as nat),
        decreases n - out@.len(),
    {
        let ghost before = rand@;
        assert(words < words_for(n as nat));
        let w = rand.get(seed_reading, readings[words]);
        proof {
            assert((rand@, w) == get_step(before, seed_reading, readings@[words as int]));
            ws = ws.push(w);
            assert(words_from(g0, seed_reading, readings@, (words + 1) as nat) == (rand@, ws));
        }
        let start = out.len();
        let mut j: u64 = 0;
        while j < 8 && out.len() < n
            invariant
                j <= 8,
                start == 8 * words,
                start < n,
                out@.len() == start + j,
                out@.len() <= n,
                ws.len() == words + 1,
                ws[words as int] == w,
                out@ == stream_bytes(ws, out@.len() as nat),
            decreases 8 - j,
        {
            let b = ((w >> (8 * j)) & 0xff) as u8;
            out.push(b);
            j = j + 1;
            assert(out@ =~= stream_bytes(ws, out@.len() as nat));
        }
        words = words + 1;
        proof {
            assert(out@.len() == n || out@.len() == 8 * words);
        }
    }
    assert(words == words_for(n as nat));
    out
}

} // verus!
