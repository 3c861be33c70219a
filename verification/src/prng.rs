//! Deterministic PRNG: same seed, same chaos sequence, reproducible bugs.
//!
//! The generator is the ChaCha20 keystream keyed by the seed. Its state is
//! held as plain values (the seed and the number of draws made so far); the
//! keystream itself is computed by `rand_chacha`, 32 draws at a time.
use vstd::prelude::*;
use rand::Rng;
use rand::SeedableRng;
use rand_chacha::ChaCha20Rng;

verus! {

/// The 32 consecutive `u64` draws of the ChaCha20 keystream whose key holds
/// `seed` in little-endian order in its first 8 bytes (the other 24 bytes are
/// zero), starting at 32-bit word `word_pos` of stream 0.
pub uninterp spec fn chacha20_u64_block(seed: u64, word_pos: u128) -> Seq<u64>;

/// Reads 32 `u64` values of the ChaCha20 keystream: builds the key with
/// `ChaCha20Rng::from_seed`, seeks with `ChaCha20Rng::set_word_pos` and fills
/// a 32-element array with `rand::Rng::fill`. The contract claims that the
/// result is the named keystream block for these arguments and has 32 items.
#[verifier::external_body]
fn chacha20_block(seed: u64, word_pos: u128) -> (block: Vec<u64>)
    ensures
        block@ == chacha20_u64_block(seed, word_pos),
        block@.len() == 32,
{
    let mut key = [0u8; 32];
    key[..8].copy_from_slice(&seed.to_le_bytes());
    let mut rng = ChaCha20Rng::from_seed(key);
    rng.set_word_pos(word_pos);
    let mut block = [0u64; 32];
    rng.fill(&mut block[..]);
    block.to_vec()
}

/// Draw number `index` (counting from 0) of the generator seeded with `seed`.
pub open spec fn draw_value(seed: u64, index: nat) -> u64 {
    chacha20_u64_block(seed, ((index - index % 32) * 2) as u128)[(index % 32) as int]
}

/// The mathematical state of a generator: its seed and how many draws it made.
pub struct RngState {
    pub seed: u64,
    pub operations: nat,
}

impl RngState {
    /// A fresh generator for `seed`.
    pub open spec fn fresh(seed: u64) -> RngState {
        RngState { seed, operations: 0 }
    }

    /// One raw draw: the value and the state after it.
    pub open spec fn next(self) -> (RngState, u64) {
        (RngState { seed: self.seed, operations: self.operations + 1 }, draw_value(self.seed, self.operations))
    }

    /// A fair coin: true when the draw is even.
    pub open spec fn next_bool(self) -> (RngState, bool) {
        (self.next().0, self.next().1 % 2 == 0)
    }

    /// True when the draw is below `threshold` (probability `threshold / 2^64`).
    pub open spec fn chance(self, threshold: u64) -> (RngState, bool) {
        (self.next().0, self.next().1 < threshold)
    }

    /// A value in `[min, max]`; no draw is made when `min >= max`.
    pub open spec fn range(self, min: u64, max: u64) -> (RngState, u64) {
        if min >= max {
            (self, min)
        } else {
            (self.next().0, range_from_draw(min, max, self.next().1))
        }
    }

    /// A child generator seeded with the next draw.
    pub open spec fn fork(self) -> (RngState, RngState) {
        (self.next().0, RngState::fresh(self.next().1))
    }

    /// Fisher-Yates over the positions `1..=i` of `s`, from `i` down to 1.
    pub open spec fn shuffle_from<T>(self, s: Seq<T>, i: nat) -> (RngState, Seq<T>)
        decreases i,
    {
        if i == 0 {
            (self, s)
        } else {
            let (r, j) = self.range(0, i as u64);
            r.shuffle_from(swap_spec(s, i as int, j as int), (i - 1) as nat)
        }
    }

    /// Fisher-Yates shuffle of the whole of `s`.
    pub open spec fn shuffle<T>(self, s: Seq<T>) -> (RngState, Seq<T>) {
        if s.len() == 0 {
            (self, s)
        } else {
            self.shuffle_from(s, (s.len() - 1) as nat)
        }
    }

    /// Whether `draws` more draws fit in the `u64` counter.
    pub open spec fn has_room(self, draws: nat) -> bool {
        self.operations + draws <= u64::MAX
    }
}

/// Fisher-Yates from position `i` makes exactly `i` draws and keeps the length.
pub proof fn lemma_shuffle_draws<T>(r: RngState, s: Seq<T>, i: nat)
    requires
        i < s.len(),
        i <= u64::MAX,
    ensures
        r.shuffle_from(s, i).0 == (RngState { seed: r.seed, operations: r.operations + i }),
        r.shuffle_from(s, i).1.len() == s.len(),
    decreases i,
{
    if i > 0 {
        let (r2, j) = r.range(0, i as u64);
        lemma_shuffle_draws(r2, swap_spec(s, i as int, j as int), (i - 1) as nat);
    }
}

/// A range draw stays in `[min, max]`, makes one draw when `min < max` and
/// none otherwise, and keeps the seed.
pub proof fn lemma_range(r: RngState, min: u64, max: u64)
    ensures
        min <= max ==> min <= r.range(min, max).1 <= max,
        min >= max ==> r.range(min, max).1 == min,
        r.range(min, max).0.seed == r.seed,
        r.range(min, max).0.operations == r.operations + if min < max { 1int } else { 0int },
{
    if min < max {
        let d = r.next().1;
        vstd::arithmetic::div_mod::lemma_mod_bound(d as int, (max - min + 1) as int);
    }
}

/// The next `n` raw draws of generator state `r`, in order.
pub open spec fn draws(r: RngState, n: nat) -> Seq<u64>
    decreases n,
{
    if n == 0 {
        Seq::empty()
    } else {
        seq![r.next().1] + draws(r.next().0, (n - 1) as nat)
    }
}

/// Same seed, same sequence: from any point, a generator's draws depend on
/// nothing but its seed and how many draws it made; a fresh generator for
/// `seed` draws `draw_value(seed, 0)`, `draw_value(seed, 1)`, and so on.
pub proof fn law_same_seed_same_sequence(seed: u64, made: nat, n: nat)
    ensures
        draws(RngState { seed, operations: made }, n) == Seq::new(
            n,
            |i: int| draw_value(seed, made + i as nat),
        ),
    decreases n,
{
    if n > 0 {
        law_same_seed_same_sequence(seed, made + 1, (n - 1) as nat);
        assert(draws(RngState { seed, operations: made }, n) =~= Seq::new(
            n,
            |i: int| draw_value(seed, made + i as nat),
        ));
    }
}

/// Exchanging two items keeps the items.
proof fn lemma_swap_keeps_items<T>(s: Seq<T>, i: int, j: int)
    requires
        0 <= i < s.len(),
        0 <= j < s.len(),
    ensures
        swap_spec(s, i, j).to_multiset() == s.to_multiset(),
{
    broadcast use vstd::seq_lib::to_multiset_update;
    broadcast use vstd::multiset::group_multiset_axioms;
    broadcast use vstd::seq_lib::group_to_multiset_ensures;

    let m = s.to_multiset();
    let s1 = s.update(i, s[j]);
    assert(s1[j] == s[j]);
    assert(s.contains(s[i]));
    assert(m.count(s[i]) > 0);
    assert(s1.to_multiset() == m.insert(s[j]).remove(s[i]));
    assert(swap_spec(s, i, j).to_multiset() == s1.to_multiset().insert(s[i]).remove(s[j]));
    assert(m.insert(s[j]).remove(s[i]).insert(s[i]).remove(s[j]) =~= m);
}

/// Fisher-Yates from position `i` keeps the items.
proof fn lemma_shuffle_from_keeps_items<T>(r: RngState, s: Seq<T>, i: nat)
    requires
        i < s.len(),
    ensures
        r.shuffle_from(s, i).1.to_multiset() == s.to_multiset(),
    decreases i,
{
    if i > 0 {
        let (r2, j) = r.range(0, i as u64);
        lemma_range(r, 0, i as u64);
        lemma_swap_keeps_items(s, i as int, j as int);
        lemma_shuffle_from_keeps_items(r2, swap_spec(s, i as int, j as int), (i - 1) as nat);
    }
}

/// A shuffle is a permutation: it keeps every item, as often as it occurred.
pub proof fn law_shuffle_permutes<T>(r: RngState, s: Seq<T>)
    ensures
        r.shuffle(s).1.to_multiset() == s.to_multiset(),
{
    if s.len() > 0 {
        lemma_shuffle_from_keeps_items(r, s, (s.len() - 1) as nat);
    }
}

/// `s` with the items at `i` and `j` exchanged.
pub open spec fn swap_spec<T>(s: Seq<T>, i: int, j: int) -> Seq<T> {
    s.update(i, s[j]).update(j, s[i])
}

/// The value in `[min, max]` that a raw draw maps to.
pub open spec fn range_from_draw(min: u64, max: u64, draw: u64) -> u64 {
    (min + (draw as int) % ((max - min + 1) as int)) as u64
}

/// Maps a raw draw to a value in the inclusive range `[min, max]`: `min` itself
/// when `min >= max`, else `min + draw mod (max - min + 1)`.
pub fn value_in_range(min: u64, max: u64, draw: u64) -> (v: u64)
    requires
        min >= max || max - min < u64::MAX,
    ensures
        min >= max ==> v == min,
        min < max ==> v == range_from_draw(min, max, draw),
        min < max ==> min <= v <= max,
{
    if min >= max {
        return min;
    }
    let span = max - min + 1;
    let off = draw % span;
    min + off
}

/// Deterministic PRNG over the ChaCha20 keystream.
///
/// Its view is the seed and the number of draws made so far; the 32 draws
/// around the current position are kept in a cache.
pub struct DeterministicRng {
    seed: u64,
    operations: u64,
    block: Vec<u64>,
    block_start: u64,
}

impl View for DeterministicRng {
    type V = RngState;

    closed spec fn view(&self) -> RngState {
        RngState { seed: self.seed, operations: self.operations as nat }
    }
}

impl DeterministicRng {
    #[verifier::type_invariant]
    closed spec fn cache_matches(self) -> bool {
        self.block@.len() == 32 ==> self.block@ == chacha20_u64_block(
            self.seed,
            (self.block_start * 2) as u128,
        )
    }

    /// A fresh generator for `seed`.
    pub fn new(seed: u64) -> (rng: Self)
        ensures
            rng@ == RngState::fresh(seed),
    {
        DeterministicRng { seed, operations: 0, block: Vec::new(), block_start: 0 }
    }

    pub fn seed(&self) -> (s: u64)
        ensures
            s == self@.seed,
    {
        self.seed
    }

    pub fn operations(&self) -> (n: u64)
        ensures
            n == self@.operations,
    {
        self.operations
    }

    /// The next raw draw.
    pub fn next_u64(&mut self) -> (v: u64)
        requires
            old(self)@.has_room(1),
        ensures
            (final(self)@, v) == old(self)@.next(),
    {
        proof {
            use_type_invariant(&*self);
        }
        let ops = self.operations;
        let start = ops - ops % 32;
        if self.block.len() != 32 || self.block_start != start {
            let block = chacha20_block(self.seed, (start as u128) * 2);
            *self = DeterministicRng { seed: self.seed, operations: ops, block, block_start: start };
        }
        let v = self.block[(ops - start) as usize];
        self.operations = ops + 1;
        v
    }

    /// A fair coin flip.
    pub fn next_bool(&mut self) -> (b: bool)
        requires
            old(self)@.has_room(1),
        ensures
            (final(self)@, b) == old(self)@.next_bool(),
    {
        let v = self.next_u64();
        v % 2 == 0
    }

    /// True with probability `threshold / 2^64`: a probability `p` in `[0, 1]`
    /// corresponds to the threshold `p * 2^64`, truncated.
    pub fn chance(&mut self, threshold: u64) -> (b: bool)
        requires
            old(self)@.has_room(1),
        ensures
            (final(self)@, b) == old(self)@.chance(threshold),
    {
        self.next_u64() < threshold
    }

    /// A value in the inclusive range `[min, max]` (`min` when `min >= max`).
    pub fn range(&mut self, min: u64, max: u64) -> (v: u64)
        requires
            old(self)@.has_room(1),
            min >= max || max - min < u64::MAX,
        ensures
            (final(self)@, v) == old(self)@.range(min, max),
            min <= max ==> min <= v <= max,
    {
        if min >= max {
            return min;
        }
        let d = self.next_u64();
        value_in_range(min, max, d)
    }

    /// A random element of a non-empty slice.
    pub fn pick<'a, T>(&mut self, items: &'a [T]) -> (item: &'a T)
        requires
            old(self)@.has_room(1),
            items@.len() > 0,
        ensures
            (final(self)@, *item) == ({
                let (r, i) = old(self)@.range(0, (items@.len() - 1) as u64);
                (r, items@[i as int])
            }),
    {
        let last = (items.len() - 1) as u64;
        let idx = self.range(0, last) as usize;
        &items[idx]
    }

    /// Shuffles `items` in place (Fisher-Yates).
    pub fn shuffle<T>(&mut self, items: &mut Vec<T>)
        requires
            old(self)@.has_room(old(items)@.len()),
        ensures
            (final(self)@, final(items)@) == old(self)@.shuffle(old(items)@),
            final(items)@.len() == old(items)@.len(),
            final(self)@.seed == old(self)@.seed,
            final(self)@.operations == old(self)@.operations + (if old(items)@.len() == 0 {
                0
            } else {
                old(items)@.len() - 1
            }),
    {
        proof {
            if items@.len() > 0 {
                lemma_shuffle_draws(self@, items@, (items@.len() - 1) as nat);
            }
        }
        let len = items.len();
        if len == 0 {
            return;
        }
        let mut i = len - 1;
        while i > 0
            invariant
                i < len,
                items@.len() == len,
                self@.has_room(i as nat),
                self@.shuffle_from(items@, i as nat) == old(self)@.shuffle(old(items)@),
            decreases i,
        {
            let j = self.range(0, i as u64) as usize;
            swap_items(items, i, j);
            i = i - 1;
        }
    }

    /// A child generator seeded with the next draw.
    pub fn fork(&mut self) -> (child: Self)
        requires
            old(self)@.has_room(1),
        ensures
            (final(self)@, child@) == old(self)@.fork(),
    {
        let child_seed = self.next_u64();
        DeterministicRng::new(child_seed)
    }
}

/// Exchanges the items at `i` and `j` (with `j <= i`).
fn swap_items<T>(items: &mut Vec<T>, i: usize, j: usize)
    requires
        j <= i < old(items)@.len(),
    ensures
        final(items)@ == swap_spec(old(items)@, i as int, j as int),
{
    if i == j {
        assert(swap_spec(items@, i as int, j as int) =~= items@);
        return;
    }
    let ghost s = items@;
    let x = items.remove(i);
    let y = items.remove(j);
    items.insert(j, x);
    items.insert(i, y);
    assert(items@ =~= swap_spec(s, i as int, j as int));
}

} // verus!
