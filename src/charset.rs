//! Character pools and password generation.

use vstd::prelude::*;

use crate::settings::Settings;
use crate::source::{get_step, Generator, GeneratorView};
use crate::stream::words_from;
use crate::wipe::wipe_vec;
use vstd::slice::slice_subrange;

verus! {

/// `count` consecutive byte values starting at `first`.
pub open spec fn byte_run(first: u8, count: nat) -> Seq<u8> {
    Seq::new(count, |i: int| (first + i) as u8)
}

/// `a` to `z`.
pub open spec fn lowercase() -> Seq<u8> {
    byte_run(97, 26)
}

/// `A` to `Z`.
pub open spec fn uppercase() -> Seq<u8> {
    byte_run(65, 26)
}

/// `0` to `9`.
pub open spec fn digits() -> Seq<u8> {
    byte_run(48, 10)
}

/// `s` repeated `n` times.
pub open spec fn repeat(s: Seq<u8>, n: nat) -> Seq<u8>
    decreases n,
{
    if n == 0 {
        Seq::empty()
    } else {
        repeat(s, (n - 1) as nat) + s
    }
}

/// The character pool of `st`: each class repeated by its density, in the
/// order lowercase, uppercase, digits, special characters.
pub open spec fn charset_of(st: Settings) -> Seq<u8> {
    repeat(lowercase(), st.lowercase_char_density as nat) + repeat(
        uppercase(),
        st.uppercase_char_density as nat,
    ) + repeat(digits(), st.numeric_char_density as nat) + repeat(
        st.special_chars@,
        st.special_char_density as nat,
    )
}

/// The size of the character pool of `st`.
pub open spec fn charset_size(st: Settings) -> int {
    26 * st.lowercase_char_density + 26 * st.uppercase_char_density + 10
        * st.numeric_char_density + st.special_chars@.len() * st.special_char_density
}

/// `s` with the entries at `i` and `j` exchanged.
pub open spec fn swap(s: Seq<u8>, i: int, j: int) -> Seq<u8> {
    s.update(i, s[j]).update(j, s[i])
}

/// The swaps of the shuffle for positions `k - 1` down to 1, each with the
/// position `rng % (i + 1)`.
pub open spec fn shuffle_from(s: Seq<u8>, rng: u64, k: nat) -> Seq<u8>
    decreases k,
{
    if k <= 1 {
        s
    } else {
        let i = k - 1;
        shuffle_from(swap(s, i, rng as int % (i + 1)), rng, i as nat)
    }
}

/// `s` shuffled with the single random word `rng`.
pub open spec fn shuffled(s: Seq<u8>, rng: u64) -> Seq<u8> {
    shuffle_from(s, rng, s.len())
}

/// The character picked from `chars` by the random word `w`.
pub open spec fn pick(chars: Seq<u8>, w: u64) -> u8 {
    chars[(w % chars.len() as u64) as int]
}

/// One password from `chars`: one word shuffles the pool, then one word per
/// character picks it from the shuffled pool; word `k` is taken with the
/// counter reading `readings[k]` (`seed_reading` serves a seed sample). Gives
/// the state after, the shuffled pool and the password.
pub open spec fn password_step(
    g: GeneratorView,
    chars: Seq<u8>,
    length: nat,
    seed_reading: u64,
    readings: Seq<u64>,
) -> (GeneratorView, Seq<u8>, Seq<u8>) {
    let (g1, w) = get_step(g, seed_reading, readings[0]);
    let mixed = shuffled(chars, w);
    let (g2, ws) = words_from(g1, seed_reading, readings.drop_first(), length);
    (g2, mixed, Seq::new(length, |k: int| pick(mixed, ws[k])))
}

/// `n` passwords, each followed by a newline, from a pool that each password
/// shuffles further; password `k` takes the `length + 1` counter readings
/// that start at `k * (length + 1)`.
pub open spec fn batch_from(
    g: GeneratorView,
    chars: Seq<u8>,
    length: nat,
    seed_reading: u64,
    readings: Seq<u64>,
    n: nat,
) -> (GeneratorView, Seq<u8>, Seq<u8>)
    decreases n,
{
    if n == 0 {
        (g, chars, Seq::empty())
    } else {
        let (g1, c1, out) = batch_from(g, chars, length, seed_reading, readings, (n - 1) as nat);
        let start = (n - 1) * (length + 1);
        let (g2, c2, pw) = password_step(
            g1,
            c1,
            length,
            seed_reading,
            readings.subrange(start, start + length + 1),
        );
        (g2, c2, out + pw.push(10u8))
    }
}

/// The length of `s` repeated `n` times.
pub proof fn lemma_repeat_len(s: Seq<u8>, n: nat)
    ensures
        repeat(s, n).len() == s.len() * n,
    decreases n,
{
    if n == 0 {
        assert(s.len() * 0 == 0) by (nonlinear_arith);
    } else {
        lemma_repeat_len(s, (n - 1) as nat);
        assert(s.len() * n == s.len() * (n - 1) + s.len()) by (nonlinear_arith);
    }
}

/// The pool that `build` makes has the length that `size` computes.
pub proof fn lemma_build_len_is_size(st: Settings)
    ensures
        charset_of(st).len() == charset_size(st),
{
    lemma_repeat_len(lowercase(), st.lowercase_char_density as nat);
    lemma_repeat_len(uppercase(), st.uppercase_char_density as nat);
    lemma_repeat_len(digits(), st.numeric_char_density as nat);
    lemma_repeat_len(st.special_chars@, st.special_char_density as nat);
}

/// Shuffling only moves characters: the result holds each one as often as the
/// input.
pub proof fn lemma_shuffle_permutes(s: Seq<u8>, rng: u64)
    ensures
        shuffled(s, rng).to_multiset() == s.to_multiset(),
        shuffled(s, rng).len() == s.len(),
{
    lemma_shuffle_from_permutes(s, rng, s.len());
}

proof fn lemma_shuffle_from_permutes(s: Seq<u8>, rng: u64, k: nat)
    requires
        k <= s.len(),
    ensures
        shuffle_from(s, rng, k).to_multiset() == s.to_multiset(),
        shuffle_from(s, rng, k).len() == s.len(),
    decreases k,
{
    if k > 1 {
        let i = k - 1;
        let j = rng as int % (i + 1);
        let t = swap(s, i, j);
        lemma_swap_permutes(s, i, j);
        lemma_shuffle_from_permutes(t, rng, i as nat);
    }
}

proof fn lemma_swap_permutes(s: Seq<u8>, i: int, j: int)
    requires
        0 <= i < s.len(),
        0 <= j < s.len(),
    ensures
        swap(s, i, j).to_multiset() == s.to_multiset(),
        swap(s, i, j).len() == s.len(),
{
    broadcast use vstd::seq_lib::group_to_multiset_ensures;

    let u = s.update(i, s[j]);
    assert(u.to_multiset() == s.to_multiset().remove(s[i]).insert(s[j]));
    assert(swap(s, i, j).to_multiset() == u.to_multiset().remove(u[j]).insert(s[i]));
    if i == j {
        assert(s.to_multiset().remove(s[i]).insert(s[i]) =~= s.to_multiset());
    } else {
        assert(u[j] == s[j]);
        assert(s.to_multiset().remove(s[i]).insert(s[j]).remove(s[j]).insert(s[i])
            =~= s.to_multiset());
    }
}

/// `count` consecutive byte values starting at `first`.
fn byte_run_vec(first: u8, count: u8) -> (r: Vec<u8>)
    requires
        first + count <= 256,
    ensures
        r@ == byte_run(first, count as nat),
{
    let mut r: Vec<u8> = Vec::new();
    let mut i: u8 = 0;
    while i < count
        invariant
            i <= count,
            first + count <= 256,
            r@ == byte_run(first, i as nat),
        decreases count - i,
    {
        r.push(first + i);
        i = i + 1;
        assert(r@ =~= byte_run(first, i as nat));
    }
    r
}

/// Appends `unit` to `out` `times` times.
fn push_repeated(out: &mut Vec<u8>, unit: &Vec<u8>, times: usize)
    ensures
        final(out)@ == old(out)@ + repeat(unit@, times as nat),
{
    let mut t: usize = 0;
    while t < times
        invariant
            t <= times,
            out@ == old(out)@ + repeat(unit@, t as nat),
        decreases times - t,
    {
        let mut k: usize = 0;
        let ghost start = out@;
        while k < unit.len()
            invariant
                k <= unit@.len(),
                out@ == start + unit@.subrange(0, k as int),
            decreases unit@.len() - k,
        {
            out.push(unit[k]);
            k = k + 1;
            assert(out@ =~= start + unit@.subrange(0, k as int));
        }
        assert(unit@.subrange(0, unit@.len() as int) =~= unit@);
        t = t + 1;
        assert(out@ =~= old(out)@ + repeat(unit@, t as nat));
    }
}

/// Builds the character pool of `settings`.
pub fn build(settings: &Settings) -> (chars: Vec<u8>)
    ensures
        chars@ == charset_of(*settings),
{
    let mut chars: Vec<u8> = Vec::new();
    let lower = byte_run_vec(97, 26);
    let upper = byte_run_vec(65, 26);
    let nums = byte_run_vec(48, 10);
    push_repeated(&mut chars, &lower, settings.lowercase_char_density);
    push_repeated(&mut chars, &upper, settings.uppercase_char_density);
    push_repeated(&mut chars, &nums, settings.numeric_char_density);
    push_repeated(&mut chars, &settings.special_chars, settings.special_char_density);
    assert(chars@ =~= charset_of(*settings));
    chars
}

/// The size of the character pool of `settings`, without building it.
pub fn size(settings: &Settings) -> (n: usize)
    requires
        charset_size(*settings) <= usize::MAX,
    ensures
        n == charset_size(*settings),
        n == charset_of(*settings).len(),
{
    proof {
        lemma_build_len_is_size(*settings);
    }
    let l = settings.lowercase_char_density;
    let u = settings.uppercase_char_density;
    let d = settings.numeric_char_density;
    let s = settings.special_chars.len();
    let sd = settings.special_char_density;
    assert(0 <= 26 * l <= charset_size(*settings)) by (nonlinear_arith)
        requires
            charset_size(*settings) == 26 * l + 26 * u + 10 * d + s * sd,
    ;
    assert(0 <= 26 * u <= charset_size(*settings)) by (nonlinear_arith)
        requires
            charset_size(*settings) == 26 * l + 26 * u + 10 * d + s * sd,
    ;
    assert(0 <= 10 * d <= charset_size(*settings)) by (nonlinear_arith)
        requires
            charset_size(*settings) == 26 * l + 26 * u + 10 * d + s * sd,
    ;
    assert(0 <= s * sd <= charset_size(*settings)) by (nonlinear_arith)
        requires
            charset_size(*settings) == 26 * l + 26 * u + 10 * d + s * sd,
    ;
    26 * l + 26 * u + 10 * d + s * sd
}

/// Shuffles `chars` in place with the single random word `rng`: for each
/// position `i` from the last down to 1, exchange it with position
/// `rng % (i + 1)`.
pub fn shuffle(chars: &mut Vec<u8>, rng: u64)
    ensures
        final(chars)@ == shuffled(old(chars)@, rng),
        final(chars)@.to_multiset() == old(chars)@.to_multiset(),
        final(chars)@.len() == old(chars)@.len(),
{
    proof {
        lemma_shuffle_permutes(old(chars)@, rng);
    }
    let n = chars.len();
    if n < 2 {
        return;
    }
    let mut i: usize = n - 1;
    while i > 0
        invariant
            i < n,
            chars@.len() == n,
            n == old(chars)@.len(),
            shuffle_from(chars@, rng, (i + 1) as nat) == shuffled(old(chars)@, rng),
        decreases i,
    {
        let j = (rng % (i as u64 + 1)) as usize;
        let a = chars[i];
        let b = chars[j];
        chars.set(i, b);
        chars.set(j, a);
        i = i - 1;
    }
}

/// The character picked from `chars` by the random word `rng`.
pub fn random_byte(chars: &Vec<u8>, rng: u64) -> (c: u8)
    requires
        chars@.len() > 0,
    ensures
        c == pick(chars@, rng),
{
    chars[(rng % (chars.len() as u64)) as usize]
}

/// Generates one password of `length` characters into `buf`: one word of
/// `rand` shuffles `chars` in place, then each character is picked from the
/// shuffled pool by a further word. The old contents of `buf` are zeroed
/// before it is refilled. Word `k` of this call is taken with the hardware
/// counter value `readings[k]`; `seed_reading` serves a seed sample.
pub fn generate_from_charset(
    chars: &mut Vec<u8>,
    length: usize,
    buf: &mut Vec<u8>,
    rand: &mut Generator,
    seed_reading: u64,
    readings: &[u64],
)
    requires
        old(rand).wf(),
        length == 0 || old(chars)@.len() > 0,
        readings@.len() >= length + 1,
    ensures
        final(rand).wf(),
        (final(rand)@, final(chars)@, final(buf)@) == password_step(
            old(rand)@,
            old(chars)@,
            length as nat,
            seed_reading,
            readings@,
        ),
        final(chars)@.len() == old(chars)@.len(),
{
    let r = rand.get(seed_reading, readings[0]);
    shuffle(chars, r);
    wipe_vec(buf);
    let ghost g1 = rand@;
    let ghost rest = readings@.drop_first();
    let ghost mut ws: Seq<u64> = Seq::empty();
    let mut k: usize = 0;
    while k < length
        invariant
            k <= length,
            rand.wf(),
            length == 0 || chars@.len() > 0,
            readings@.len() >= length + 1,
            rest == readings@.drop_first(),
            (rand@, ws) == words_from(g1, seed_reading, rest, k as nat),
            ws.len() == k,
            buf@ == Seq::new(k as nat, |i: int| pick(chars@, ws[i])),
        decreases length - k,
    {
        let ghost before = rand@;
        let w = rand.get(seed_reading, readings[k + 1]);
        proof {
            assert(rest[k as int] == readings@[k + 1]);
            assert((rand@, w) == get_step(before, seed_reading, rest[k as int]));
            ws = ws.push(w);
            assert(words_from(g1, seed_reading, rest, (k + 1) as nat) == (rand@, ws));
        }
        let ghost prev_buf = buf@;
        let c = random_byte(chars, w);
        buf.push(c);
        k = k + 1;
        assert(buf@ =~= Seq::new(k as nat, |i: int| pick(chars@, ws[i])));
    }
}

/// Generates `count` passwords for `settings`, each followed by a newline.
/// The pool is built once and shuffled further by each password. Each
/// password takes `pass_length + 1` hardware counter values from `readings`,
/// in order.
pub fn generate_batch(
    settings: &Settings,
    count: usize,
    rand: &mut Generator,
    seed_reading: u64,
    readings: &[u64],
) -> (out: Vec<u8>)
    requires
        old(rand).wf(),
        count == 0 || settings.pass_length == 0 || charset_of(*settings).len() > 0,
        readings@.len() >= count * (settings.pass_length + 1),
    ensures
        final(rand).wf(),
        ({
            let (g, _c, o) = batch_from(
                old(rand)@,
                charset_of(*settings),
                settings.pass_length as nat,
                seed_reading,
                readings@,
                count as nat,
            );
            final(rand)@ == g && out@ == o
        }),
{
    let mut chars = build(settings);
    let mut out: Vec<u8> = Vec::new();
    let mut buf: Vec<u8> = Vec::new();
    let length = settings.pass_length;
    let total = readings.len();
    let ghost g0 = old(rand)@;
    let ghost c0 = charset_of(*settings);
    let mut n: usize = 0;
    let mut offset: usize = 0;
    while n < count
        invariant
            n <= count,
            rand.wf(),
            count == 0 || length == 0 || charset_of(*settings).len() > 0,
            length == settings.pass_length,
            total == readings@.len(),
            total >= count * (length + 1),
            offset == n * (length + 1),
            c0 == charset_of(*settings),
            chars@.len() == c0.len(),
            (rand@, chars@, out@) == batch_from(
                g0,
                c0,
                length as nat,
                seed_reading,
                readings@,
                n as nat,
            ),
        decreases count - n,
    {
        assert(offset + length + 1 <= total) by (nonlinear_arith)
            requires
                offset == n * (length + 1),
                n < count,
                total >= count * (length + 1),
        ;
        let ghost before = (rand@, chars@, out@);
        let these = slice_subrange(readings, offset, offset + length + 1);
        generate_from_charset(&mut chars, length, &mut buf, rand, seed_reading, these);
        let ghost pw = buf@;
        push_all(&mut out, &buf);
        out.push(10u8);
        proof {
            lemma_batch_step(g0, c0, length as nat, seed_reading, readings@, n as nat);
            assert(out@ == before.2 + pw.push(10u8));
        }
        assert(offset + length + 1 == (n + 1) * (length + 1)) by (nonlinear_arith)
            requires
                offset == n * (length + 1),
        ;
        offset = offset + length + 1;
        n = n + 1;
    }
    wipe_vec(&mut buf);
    out
}

/// Appends the bytes of `b` to `out`.
fn push_all(out: &mut Vec<u8>, b: &Vec<u8>)
    ensures
        final(out)@ == old(out)@ + b@,
{
    let mut k: usize = 0;
    while k < b.len()
        invariant
            k <= b@.len(),
            out@ == old(out)@ + b@.subrange(0, k as int),
        decreases b@.len() - k,
    {
        out.push(b[k]);
        k = k + 1;
        assert(out@ =~= old(out)@ + b@.subrange(0, k as int));
    }
    assert(b@.subrange(0, b@.len() as int) =~= b@);
}

proof fn lemma_batch_step(
    g: GeneratorView,
    chars: Seq<u8>,
    length: nat,
    seed_reading: u64,
    readings: Seq<u64>,
    n: nat,
)
    ensures
        ({
            let (g1, c1, out) = batch_from(g, chars, length, seed_reading, readings, n);
            let start = (n * (length + 1)) as int;
            let (g2, c2, pw) = password_step(
                g1,
                c1,
                length,
                seed_reading,
                readings.subrange(start, start + length + 1),
            );
            batch_from(g, chars, length, seed_reading, readings, n + 1) == (
                g2,
                c2,
                out + pw.push(10u8),
            )
        }),
{
    assert((n + 1 - 1) as nat == n);
}

} // verus!
