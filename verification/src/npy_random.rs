//! NumPy-compatible random stream: `SeedSequence` entropy mixing and the PCG64
//! (XSL-RR 128/64) bit generator used by `default_rng(int)`.

use vstd::prelude::*;

verus! {

/// numpy SeedSequence hashmix constants (`bit_generator.pyx`).
pub const XSHIFT: u32 = 16;
pub const MULT_A: u32 = 0x931e_8875;
pub const MULT_B: u32 = 0x58f3_8ded;
pub const MIX_MULT_L: u32 = 0xca01_f9dd;
pub const MIX_MULT_R: u32 = 0x4973_f715;
pub const INIT_A: u32 = 0x43b0_d7e5;
pub const INIT_B: u32 = 0x8b51_f9dd;

/// The PCG64 LCG multiplier.
pub const PCG_MULT: u128 = 0x2360_ed05_1fc6_5da4_4385_df64_9fcc_f645;

// ---------------------------------------------------------------------------
// Specification of the SeedSequence entropy mixing
// ---------------------------------------------------------------------------

/// The little-endian 32-bit words of a non-negative integer, at least one word
/// (numpy `_int_to_uint32_array`): `0` is `[0]`, otherwise no trailing zero word.
pub open spec fn le_words(v: nat) -> Seq<u32>
    decreases v,
{
    if v < 0x1_0000_0000 {
        seq![v as u32]
    } else {
        seq![(v % 0x1_0000_0000) as u32] + le_words(v / 0x1_0000_0000)
    }
}

/// The integer that a little-endian word sequence denotes.
pub open spec fn le_value(words: Seq<u32>) -> nat
    decreases words.len(),
{
    if words.len() == 0 {
        0
    } else {
        words[0] as nat + 0x1_0000_0000 * le_value(words.subrange(1, words.len() as int))
    }
}

/// numpy `hashmix` output for `value` under the hash constant `hc`.
pub open spec fn hashmix_value(value: u32, hc: u32) -> u32 {
    let v = (value ^ hc).wrapping_mul(hc.wrapping_mul(MULT_A));
    v ^ (v >> 16u32)
}

/// The hash constant after one `hashmix` call.
pub open spec fn hashmix_next(hc: u32) -> u32 {
    hc.wrapping_mul(MULT_A)
}

/// numpy `mix`.
pub open spec fn mix_value(x: u32, y: u32) -> u32 {
    let r = MIX_MULT_L.wrapping_mul(x).wrapping_sub(MIX_MULT_R.wrapping_mul(y));
    r ^ (r >> 16u32)
}

/// Entropy word `i`, zero past the end (numpy zero-pads short entropy).
pub open spec fn entropy_word(e: Seq<u32>, i: int) -> u32 {
    if 0 <= i < e.len() {
        e[i]
    } else {
        0
    }
}

/// Pool prefix and hash constant after the first `i` pool-fill calls.
pub open spec fn fill_state(e: Seq<u32>, i: nat) -> (Seq<u32>, u32)
    decreases i,
{
    if i == 0 {
        (Seq::empty(), INIT_A)
    } else {
        let (p, hc) = fill_state(e, (i - 1) as nat);
        (p.push(hashmix_value(entropy_word(e, i - 1), hc)), hashmix_next(hc))
    }
}

/// Pool and hash constant after the first `t` of the 16 (source, destination)
/// pairs of the all-pairs mixing round; a pair with source == destination does nothing.
pub open spec fn mix_rounds(p: Seq<u32>, hc: u32, t: nat) -> (Seq<u32>, u32)
    decreases t,
{
    if t == 0 {
        (p, hc)
    } else {
        let (q, h) = mix_rounds(p, hc, (t - 1) as nat);
        let src = (t - 1) / 4;
        let dst = (t - 1) % 4;
        if src != dst {
            (q.update(dst, mix_value(q[dst], hashmix_value(q[src], h))), hashmix_next(h))
        } else {
            (q, h)
        }
    }
}

/// Pool and hash constant after the first `t` absorption steps of the entropy
/// words past the pool size: step `t` mixes word `4 + t / 4` into pool word `t % 4`.
pub open spec fn absorb_rounds(e: Seq<u32>, p: Seq<u32>, hc: u32, t: nat) -> (Seq<u32>, u32)
    decreases t,
{
    if t == 0 {
        (p, hc)
    } else {
        let (q, h) = absorb_rounds(e, p, hc, (t - 1) as nat);
        let w = e[4 + (t - 1) / 4];
        let dst = (t - 1) % 4;
        (q.update(dst, mix_value(q[dst], hashmix_value(w, h))), hashmix_next(h))
    }
}

/// Number of absorption steps for entropy `e`.
pub open spec fn absorb_steps(e: Seq<u32>) -> nat {
    if e.len() > 4 {
        ((e.len() - 4) * 4) as nat
    } else {
        0
    }
}

/// numpy `SeedSequence.mix_entropy` with pool size 4.
pub open spec fn mixed_pool(e: Seq<u32>) -> Seq<u32> {
    let (p0, h0) = fill_state(e, 4);
    let (p1, h1) = mix_rounds(p0, h0, 16);
    absorb_rounds(e, p1, h1, absorb_steps(e)).0
}

/// The hash constant `generate_state` uses for output word `i`.
pub open spec fn gen_hash_const(i: nat) -> u32
    decreases i,
{
    if i == 0 {
        INIT_B
    } else {
        gen_hash_const((i - 1) as nat).wrapping_mul(MULT_B)
    }
}

/// Word `i` of the `generate_state` output stream of `pool`.
pub open spec fn state_word(pool: Seq<u32>, i: nat) -> u32 {
    let v = (pool[(i % 4) as int] ^ gen_hash_const(i)).wrapping_mul(gen_hash_const(i + 1));
    v ^ (v >> 16u32)
}

/// The first `n` words of the `generate_state` stream of `pool`.
pub open spec fn generated_words(pool: Seq<u32>, n: nat) -> Seq<u32> {
    Seq::new(n, |i: int| state_word(pool, i as nat))
}

/// Two 32-bit words packed little-endian into one 64-bit word (low word first).
pub open spec fn pack_pair(lo: u32, hi: u32) -> u64 {
    (lo as int + hi as int * 0x1_0000_0000) as u64
}

/// The first `n` 64-bit words of `generate_state(_, uint64)`.
pub open spec fn packed_words(pool: Seq<u32>, n: nat) -> Seq<u64> {
    Seq::new(
        n,
        |i: int| pack_pair(state_word(pool, (2 * i) as nat), state_word(pool, (2 * i + 1) as nat)),
    )
}

// ---------------------------------------------------------------------------
// SeedSequence
// ---------------------------------------------------------------------------

/// numpy SeedSequence for the `default_rng(int)` case: the integer's
/// little-endian 32-bit words mixed into a pool of 4 words.
pub struct SeedSequence {
    pool: [u32; 4],
}

impl View for SeedSequence {
    type V = Seq<u32>;

    closed spec fn view(&self) -> Seq<u32> {
        self.pool@
    }
}

impl SeedSequence {
    /// `SeedSequence(entropy=<nonneg int>)`.
    pub fn new(entropy: u128) -> (ss: Self)
        ensures
            ss@ == mixed_pool(le_words(entropy as nat)),
    {
        let assembled = int_to_uint32_array(entropy);
        let pool = mix_entropy(&assembled);
        SeedSequence { pool }
    }

    /// `generate_state(n_words, np.uint32)`: the hashmix output stream.
    pub fn generate_state(&self, n_words: usize) -> (state: Vec<u32>)
        ensures
            state@ == generated_words(self@, n_words as nat),
    {
        let mut state: Vec<u32> = Vec::new();
        let mut hash_const: u32 = INIT_B;
        let mut i: usize = 0;
        while i < n_words
            invariant
                i <= n_words,
                hash_const == gen_hash_const(i as nat),
                state@ == generated_words(self@, i as nat),
                self@ == self.pool@,
            decreases n_words - i,
        {
            let mut data_val = self.pool[i % 4];
            data_val = data_val ^ hash_const;
            hash_const = hash_const.wrapping_mul(MULT_B);
            data_val = data_val.wrapping_mul(hash_const);
            data_val = data_val ^ (data_val >> XSHIFT);
            state.push(data_val);
            proof {
                assert(hash_const == gen_hash_const((i + 1) as nat));
                assert(state@ =~= generated_words(self@, (i + 1) as nat));
            }
            i = i + 1;
        }
        state
    }

    /// `generate_state(n64, np.uint64)`: `2 * n64` 32-bit words packed pairwise
    /// little-endian (low word first).
    pub fn generate_state_u64(&self, n64: usize) -> (out: Vec<u64>)
        requires
            n64 <= usize::MAX / 2,
        ensures
            out@ == packed_words(self@, n64 as nat),
    {
        let words = self.generate_state(n64 * 2);
        let mut out: Vec<u64> = Vec::new();
        let mut i: usize = 0;
        while i < n64
            invariant
                i <= n64,
                n64 <= usize::MAX / 2,
                words@ == generated_words(self@, (n64 * 2) as nat),
                out@ == packed_words(self@, i as nat),
            decreases n64 - i,
        {
            let lo = words[2 * i];
            let hi = words[2 * i + 1];
            let w = (lo as u64) | ((hi as u64) << 32u64);
            proof {
                lemma_pack_pair_bits(lo, hi);
            }
            out.push(w);
            proof {
                assert(out@ =~= packed_words(self@, (i + 1) as nat));
            }
            i = i + 1;
        }
        out
    }

    /// The mixed entropy pool.
    pub fn pool(&self) -> (p: [u32; 4])
        ensures
            p@ == self@,
    {
        self.pool
    }
}

proof fn lemma_pack_pair_bits(lo: u32, hi: u32)
    ensures
        (lo as u64) | ((hi as u64) << 32u64) == pack_pair(lo, hi),
{
    assert((lo as u64) | ((hi as u64) << 32u64) == (lo as u64) + (hi as u64) * 0x1_0000_0000u64)
        by (bit_vector);
}

proof fn lemma_low_word(v: u128)
    ensures
        (v & 0xffff_ffffu128) as u32 == (v as nat % 0x1_0000_0000) as u32,
        v & 0xffff_ffffu128 == v % 0x1_0000_0000,
        v >> 32u128 == v / 0x1_0000_0000,
{
    assert(v & 0xffff_ffffu128 == v % 0x1_0000_0000) by (bit_vector);
    assert(v >> 32u128 == v / 0x1_0000_0000) by (bit_vector);
}

/// numpy `_int_to_uint32_array`: little-endian 32-bit words of `v`, at least one.
fn int_to_uint32_array(v: u128) -> (out: Vec<u32>)
    ensures
        out@ == le_words(v as nat),
{
    let mut out: Vec<u32> = Vec::new();
    if v == 0 {
        out.push(0);
        assert(out@ =~= le_words(0));
        return out;
    }
    let ghost v0 = v;
    let mut v = v;
    while v != 0
        invariant
            v != 0 ==> out@ + le_words(v as nat) == le_words(v0 as nat),
            v == 0 ==> out@ == le_words(v0 as nat),
        decreases v,
    {
        proof {
            lemma_low_word(v);
        }
        let w = (v & 0xffff_ffff) as u32;
        let ghost prev = out@;
        let ghost cur = v;
        out.push(w);
        v = v >> 32;
        proof {
            if cur < 0x1_0000_0000 {
                assert(le_words(cur as nat) =~= seq![cur as u32]);
                assert(out@ =~= prev + le_words(cur as nat));
            } else {
                assert(le_words(cur as nat) =~= seq![(cur as nat % 0x1_0000_0000) as u32] + le_words(v as nat));
                assert(out@ + le_words(v as nat) =~= prev + le_words(cur as nat));
            }
        }
    }
    out
}

/// numpy `hashmix`: hash `value` and advance the hash constant.
fn hashmix(value: u32, hash_const: &mut u32) -> (out: u32)
    ensures
        out == hashmix_value(value, *old(hash_const)),
        *final(hash_const) == hashmix_next(*old(hash_const)),
{
    let mut v = value ^ *hash_const;
    *hash_const = hash_const.wrapping_mul(MULT_A);
    v = v.wrapping_mul(*hash_const);
    v ^ (v >> XSHIFT)
}

/// numpy `mix`.
fn mix(x: u32, y: u32) -> (r: u32)
    ensures
        r == mix_value(x, y),
{
    let mut result = MIX_MULT_L.wrapping_mul(x).wrapping_sub(MIX_MULT_R.wrapping_mul(y));
    result = result ^ (result >> XSHIFT);
    result
}

proof fn lemma_fill_state_len(e: Seq<u32>, i: nat)
    ensures
        fill_state(e, i).0.len() == i,
    decreases i,
{
    if i > 0 {
        lemma_fill_state_len(e, (i - 1) as nat);
    }
}

proof fn lemma_mix_rounds_len(p: Seq<u32>, hc: u32, t: nat)
    requires
        p.len() == 4,
    ensures
        mix_rounds(p, hc, t).0.len() == 4,
    decreases t,
{
    if t > 0 {
        lemma_mix_rounds_len(p, hc, (t - 1) as nat);
    }
}

proof fn lemma_absorb_rounds_len(e: Seq<u32>, p: Seq<u32>, hc: u32, t: nat)
    requires
        p.len() == 4,
    ensures
        absorb_rounds(e, p, hc, t).0.len() == 4,
    decreases t,
{
    if t > 0 {
        lemma_absorb_rounds_len(e, p, hc, (t - 1) as nat);
    }
}

/// numpy `SeedSequence.mix_entropy` with pool size 4: fill the pool from the
/// entropy (zero-padded), mix all pool words together, then absorb the
/// remaining entropy words into every pool word.
fn mix_entropy(entropy: &Vec<u32>) -> (pool: [u32; 4])
    ensures
        pool@ == mixed_pool(entropy@),
{
    let ghost e = entropy@;
    let mut pool: Vec<u32> = Vec::new();
    let mut hash_const: u32 = INIT_A;
    let mut i: usize = 0;
    while i < 4
        invariant
            i <= 4,
            e == entropy@,
            (pool@, hash_const) == fill_state(e, i as nat),
        decreases 4 - i,
    {
        let w = if i < entropy.len() {
            entropy[i]
        } else {
            0
        };
        let h = hashmix(w, &mut hash_const);
        pool.push(h);
        proof {
            assert(w == entropy_word(e, i as int));
            assert(pool@ =~= fill_state(e, (i + 1) as nat).0);
        }
        i = i + 1;
    }
    let ghost p0 = pool@;
    let ghost h0 = hash_const;
    proof {
        lemma_fill_state_len(e, 4);
        assert((p0, h0) == fill_state(e, 4));
    }

    let mut i_src: usize = 0;
    while i_src < 4
        invariant
            i_src <= 4,
            p0.len() == 4,
            (pool@, hash_const) == mix_rounds(p0, h0, (i_src * 4) as nat),
        decreases 4 - i_src,
    {
        let mut i_dst: usize = 0;
        while i_dst < 4
            invariant
                i_src < 4,
                i_dst <= 4,
                p0.len() == 4,
                (pool@, hash_const) == mix_rounds(p0, h0, (i_src * 4 + i_dst) as nat),
            decreases 4 - i_dst,
        {
            let ghost t = (i_src * 4 + i_dst) as nat;
            proof {
                lemma_mix_rounds_len(p0, h0, t);
                assert(t / 4 == i_src as nat);
                assert(t % 4 == i_dst as nat);
            }
            if i_src != i_dst {
                let h = hashmix(pool[i_src], &mut hash_const);
                let m = mix(pool[i_dst], h);
                pool.set(i_dst, m);
            }
            proof {
                assert(pool@ =~= mix_rounds(p0, h0, t + 1).0);
            }
            i_dst = i_dst + 1;
        }
        i_src = i_src + 1;
    }
    let ghost p1 = pool@;
    let ghost h1 = hash_const;
    proof {
        lemma_mix_rounds_len(p0, h0, 16);
    }

    let mut j: usize = 4;
    while j < entropy.len()
        invariant
            4 <= j,
            e == entropy@,
            p1.len() == 4,
            j <= e.len() || j == 4,
            (pool@, hash_const) == absorb_rounds(e, p1, h1, ((j - 4) * 4) as nat),
        decreases entropy.len() - j,
    {
        let word = entropy[j];
        let mut i_dst: usize = 0;
        while i_dst < 4
            invariant
                4 <= j < e.len(),
                e == entropy@,
                word == e[j as int],
                i_dst <= 4,
                p1.len() == 4,
                (pool@, hash_const) == absorb_rounds(e, p1, h1, ((j - 4) * 4 + i_dst) as nat),
            decreases 4 - i_dst,
        {
            let ghost t = ((j - 4) * 4 + i_dst) as nat;
            proof {
                lemma_absorb_rounds_len(e, p1, h1, t);
                assert(t / 4 == (j - 4) as nat);
                assert(t % 4 == i_dst as nat);
            }
            let h = hashmix(word, &mut hash_const);
            let m = mix(pool[i_dst], h);
            pool.set(i_dst, m);
            proof {
                assert(pool@ =~= absorb_rounds(e, p1, h1, t + 1).0);
            }
            i_dst = i_dst + 1;
        }
        j = j + 1;
    }
    proof {
        lemma_absorb_rounds_len(e, p1, h1, absorb_steps(e));
        assert((pool@, hash_const) == absorb_rounds(e, p1, h1, absorb_steps(e)));
    }
    let out = [pool[0], pool[1], pool[2], pool[3]];
    assert(out@ =~= pool@);
    out
}

// ---------------------------------------------------------------------------
// PCG64
// ---------------------------------------------------------------------------

/// One PCG64 LCG step.
pub open spec fn pcg_step(state: u128, inc: u128) -> u128 {
    state.wrapping_mul(PCG_MULT).wrapping_add(inc)
}

/// `u64::rotate_right` for a rotation below 64.
pub open spec fn rotr64(x: u64, r: u32) -> u64 {
    if r == 0 {
        x
    } else {
        (x >> r) | (x << (64 - r) as u32)
    }
}

/// pcg_output_xsl_rr_128_64: xor the two 64-bit halves and rotate right by the
/// top 6 bits of the state.
pub open spec fn pcg_output(state: u128) -> u64 {
    rotr64(((state >> 64u32) as u64) ^ (state as u64), (state >> 122u32) as u32)
}

/// A 128-bit word from its high and low 64-bit halves.
pub open spec fn join_halves(hi: u64, lo: u64) -> u128 {
    (hi as int * 0x1_0000_0000_0000_0000 + lo as int) as u128
}

/// pcg_setseq_128_srandom_r: `inc = (seq << 1) | 1`; `state = 0`; step;
/// `state += init_state`; step. Returns `(state, inc)`.
pub open spec fn pcg_seeded(init_state: u128, init_seq: u128) -> (u128, u128) {
    let inc = (init_seq << 1u32) | 1u128;
    let s1 = pcg_step(0, inc);
    (pcg_step(s1.wrapping_add(init_state), inc), inc)
}

/// The four 64-bit seeding words of `default_rng(seed)`.
pub open spec fn seed_words(seed: u128) -> Seq<u64> {
    packed_words(mixed_pool(le_words(seed as nat)), 4)
}

/// `(state, inc)` of `PCG64(SeedSequence(seed))`.
pub open spec fn pcg_from_seed(seed: u128) -> (u128, u128) {
    let w = seed_words(seed);
    pcg_seeded(join_halves(w[0], w[1]), join_halves(w[2], w[3]))
}

/// numpy PCG64 (XSL-RR 128/64): 128-bit state and increment.
pub struct Pcg64 {
    state: u128,
    inc: u128,
}

impl View for Pcg64 {
    type V = (u128, u128);

    /// `(state, inc)`.
    closed spec fn view(&self) -> (u128, u128) {
        (self.state, self.inc)
    }
}

proof fn lemma_join_halves_bits(hi: u64, lo: u64)
    ensures
        ((hi as u128) << 64u32) | (lo as u128) == join_halves(hi, lo),
{
    assert(((hi as u128) << 64u32) | (lo as u128) == (hi as u128) * 0x1_0000_0000_0000_0000u128
        + (lo as u128)) by (bit_vector);
}

proof fn lemma_rotation_below_64(state: u128)
    ensures
        ((state >> 122u32) as u32) < 64,
{
    assert(((state >> 122u32) as u32) < 64) by (bit_vector);
}

/// `x.rotate_right(r)` for `r < 64`.
fn rotate_right_u64(x: u64, r: u32) -> (y: u64)
    requires
        r < 64,
    ensures
        y == rotr64(x, r),
{
    if r == 0 {
        x
    } else {
        (x >> r) | (x << (64 - r))
    }
}

impl Pcg64 {
    /// `default_rng(seed)`: PCG64 seeded from `SeedSequence(seed)`'s four 64-bit
    /// words (`state = words[0..1]`, `seq = words[2..3]`, high word first).
    pub fn from_seed_int(seed: u128) -> (rng: Self)
        ensures
            rng@ == pcg_from_seed(seed),
    {
        let words = SeedSequence::new(seed).generate_state_u64(4);
        proof {
            lemma_join_halves_bits(words[0], words[1]);
            lemma_join_halves_bits(words[2], words[3]);
        }
        let init_state = ((words[0] as u128) << 64u32) | (words[1] as u128);
        let init_seq = ((words[2] as u128) << 64u32) | (words[3] as u128);
        Self::srandom(init_state, init_seq)
    }

    /// pcg_setseq_128_srandom_r.
    fn srandom(init_state: u128, init_seq: u128) -> (rng: Self)
        ensures
            rng@ == pcg_seeded(init_state, init_seq),
    {
        let inc = (init_seq << 1u32) | 1;
        let mut rng = Pcg64 { state: 0, inc };
        rng.step();
        rng.state = rng.state.wrapping_add(init_state);
        rng.step();
        rng
    }

    /// One LCG step.
    fn step(&mut self)
        ensures
            final(self)@ == (pcg_step(old(self)@.0, old(self)@.1), old(self)@.1),
    {
        self.state = self.state.wrapping_mul(PCG_MULT).wrapping_add(self.inc);
    }

    /// Fold a 128-bit state to the 64-bit output.
    fn output(state: u128) -> (r: u64)
        ensures
            r == pcg_output(state),
    {
        let hi = (state >> 64u32) as u64;
        let lo = state as u64;
        proof {
            lemma_rotation_below_64(state);
        }
        let rot = (state >> 122u32) as u32;
        let xored = hi ^ lo;
        rotate_right_u64(xored, rot)
    }

    /// Next 64-bit output: step the state, then emit the new state's output.
    pub fn next_u64(&mut self) -> (r: u64)
        ensures
            final(self)@ == (pcg_step(old(self)@.0, old(self)@.1), old(self)@.1),
            r == pcg_output(final(self)@.0),
    {
        self.step();
        Pcg64::output(self.state)
    }
}

/// numpy `Generator` over PCG64.
pub struct Generator {
    rng: Pcg64,
}

impl View for Generator {
    type V = (u128, u128);

    /// `(state, inc)` of the underlying PCG64.
    closed spec fn view(&self) -> (u128, u128) {
        self.rng@
    }
}

impl Generator {
    /// `np.random.default_rng(seed)`.
    pub fn from_seed_int(seed: u128) -> (g: Self)
        ensures
            g@ == pcg_from_seed(seed),
    {
        Generator { rng: Pcg64::from_seed_int(seed) }
    }

    /// The next raw 64-bit draw of the bit generator (`bit_generator.random_raw()`);
    /// every floating-point draw is built from these.
    pub fn next_u64(&mut self) -> (r: u64)
        ensures
            final(self)@ == (pcg_step(old(self)@.0, old(self)@.1), old(self)@.1),
            r == pcg_output(final(self)@.0),
    {
        self.rng.next_u64()
    }
}

// ---------------------------------------------------------------------------
// Laws
// ---------------------------------------------------------------------------

/// `2^(32 k)`.
pub open spec fn word_base_pow(k: nat) -> nat
    decreases k,
{
    if k == 0 {
        1
    } else {
        0x1_0000_0000 * word_base_pow((k - 1) as nat)
    }
}

/// The entropy words of an integer denote that integer, are as few as possible
/// (the last word is nonzero unless the integer is zero, which is the single
/// word `[0]`), and an integer below `2^(32 k)` has at most `k` words.
pub proof fn lemma_le_words_round_trip(v: nat, k: nat)
    ensures
        le_value(le_words(v)) == v,
        le_words(v).len() >= 1,
        le_words(v).last() != 0 || v == 0,
        v == 0 ==> le_words(v) == seq![0u32],
        k >= 1 && v < word_base_pow(k) ==> le_words(v).len() <= k,
    decreases v,
{
    if v < 0x1_0000_0000 {
        let w = le_words(v);
        assert(w.subrange(1, w.len() as int) =~= Seq::<u32>::empty());
        assert(le_value(Seq::<u32>::empty()) == 0);
    } else {
        let q = v / 0x1_0000_0000;
        let r = v % 0x1_0000_0000;
        assert(q < v);
        lemma_le_words_round_trip(q, (k - 1) as nat);
        let w = le_words(v);
        assert(w.subrange(1, w.len() as int) =~= le_words(q));
        assert(v == r + 0x1_0000_0000 * q) by (nonlinear_arith)
            requires
                q == v / 0x1_0000_0000,
                r == v % 0x1_0000_0000,
        ;
        if k >= 1 && v < word_base_pow(k) {
            if k == 1 {
                assert(word_base_pow(1) == 0x1_0000_0000) by {
                    assert(word_base_pow(0) == 1);
                }
            } else {
                assert(q < word_base_pow((k - 1) as nat)) by (nonlinear_arith)
                    requires
                        q == v / 0x1_0000_0000,
                        v < word_base_pow(k),
                        word_base_pow(k) == 0x1_0000_0000 * word_base_pow((k - 1) as nat),
                ;
            }
        }
    }
}

/// The `generate_state` stream does not depend on how many words are asked for:
/// the first `m` of `n >= m` words are the `m`-word stream.
pub proof fn lemma_generated_words_prefix(pool: Seq<u32>, m: nat, n: nat)
    requires
        m <= n,
    ensures
        generated_words(pool, n).subrange(0, m as int) == generated_words(pool, m),
{
    assert(generated_words(pool, n).subrange(0, m as int) =~= generated_words(pool, m));
}

/// Each 64-bit seeding word splits back into the two 32-bit stream words it
/// packs: low half word `2 i`, high half word `2 i + 1`.
pub proof fn lemma_packed_words_split(pool: Seq<u32>, n: nat, i: int)
    requires
        0 <= i < n,
    ensures
        packed_words(pool, n)[i] as int % 0x1_0000_0000 == generated_words(pool, 2 * n)[2 * i] as int,
        packed_words(pool, n)[i] as int / 0x1_0000_0000 == generated_words(pool, 2 * n)[2 * i + 1] as int,
{
    let lo = state_word(pool, (2 * i) as nat);
    let hi = state_word(pool, (2 * i + 1) as nat);
    assert(lo as int + hi as int * 0x1_0000_0000 <= u64::MAX) by (nonlinear_arith)
        requires
            lo <= u32::MAX,
            hi <= u32::MAX,
    ;
    let x = lo as int + hi as int * 0x1_0000_0000;
    assert(x % 0x1_0000_0000 == lo as int && x / 0x1_0000_0000 == hi as int) by (nonlinear_arith)
        requires
            x == lo as int + hi as int * 0x1_0000_0000,
            0 <= lo <= u32::MAX,
            0 <= hi,
    ;
}

/// Entropy shorter than the pool is zero-padded: appending zero words up to the
/// pool size does not change the mixed pool.
pub proof fn lemma_short_entropy_zero_padding(e: Seq<u32>, zeros: nat)
    requires
        e.len() + zeros <= 4,
    ensures
        mixed_pool(e + Seq::new(zeros, |i: int| 0u32)) == mixed_pool(e),
{
    let padded = e + Seq::new(zeros, |i: int| 0u32);
    assert forall|i: int| 0 <= i < 4 implies entropy_word(padded, i) == entropy_word(e, i) by {
    }
    lemma_fill_state_same_words(padded, e, 4);
    assert(absorb_steps(padded) == 0);
    assert(absorb_steps(e) == 0);
}

proof fn lemma_fill_state_same_words(a: Seq<u32>, b: Seq<u32>, i: nat)
    requires
        forall|j: int| 0 <= j < i ==> entropy_word(a, j) == entropy_word(b, j),
    ensures
        fill_state(a, i) == fill_state(b, i),
    decreases i,
{
    if i > 0 {
        lemma_fill_state_same_words(a, b, (i - 1) as nat);
    }
}

/// PCG64 is always seeded with an odd increment (`(seq << 1) | 1`), as the LCG
/// needs for its full period.
pub proof fn lemma_pcg_increment_odd(init_state: u128, init_seq: u128, seed: u128)
    ensures
        pcg_seeded(init_state, init_seq).1 % 2 == 1,
        pcg_from_seed(seed).1 % 2 == 1,
{
    assert(((init_seq << 1u32) | 1u128) % 2 == 1) by (bit_vector);
    let w = seed_words(seed);
    let q = join_halves(w[2], w[3]);
    assert(((q << 1u32) | 1u128) % 2 == 1) by (bit_vector);
}

} // verus!
