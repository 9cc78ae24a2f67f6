//! The particle store: how it is seeded, how it lies in a buffer, and what
//! a compute step must leave alone.
//!
//! A storage buffer holds one record per particle, in seeding order. A
//! record is ten 32-bit words, each the bit pattern of one scalar: position
//! `x`, `y`, `z`, velocity `vx`, `vy`, `vz`, mass, category code,
//! accumulated delay, active flag. The uniform buffer holds the parameter
//! record: time seed, mode code, and two words of padding.

use vstd::prelude::*;
use crate::particle::{zero, Category, Draw, Mode, Particle, SimulationParameters};
use crate::scalar::Scalar;

verus! {

/// Words in one particle record.
pub const RECORD_WORDS: usize = 10;

/// Words in the parameter record.
pub const PARAMETER_WORDS: usize = 4;

/// Bytes one particle record takes in a storage buffer.
pub const RECORD_BYTES: u64 = 40;

/// Bytes the parameter record takes in a uniform buffer.
pub const PARAMETER_BYTES: u64 = 16;

/// Fills the store of a pass: one particle for every draw, in the order of
/// the draws, and the parameters the pass starts with.
pub fn initialize(draws: &Vec<Draw>, mode: Mode) -> (store: (Vec<Particle>, SimulationParameters))
    ensures
        store.0@.len() == draws@.len(),
        forall|i: int| 0 <= i < draws@.len() ==> #[trigger] store.0@[i] == Particle::seeded(draws@[i]),
        store.1.time_seed == zero(),
        store.1.mode_code == mode.code(),
{
    let mut particles: Vec<Particle> = Vec::with_capacity(draws.len());
    let mut i: usize = 0;
    while i < draws.len()
        invariant
            i <= draws.len(),
            particles@.len() == i,
            forall|k: int| 0 <= k < i ==> #[trigger] particles@[k] == Particle::seeded(draws@[k]),
        decreases draws.len() - i,
    {
        let draw = draws[i];
        particles.push(Particle::initial(draw.x, draw.y, draw.z, Category::from_coin(draw.heads)));
        i += 1;
    }
    (particles, SimulationParameters::new(mode))
}

/// What the compute kernel must keep: the store holds as many particles
/// after a step as before it, and each keeps its category code and its
/// mass. Position, velocity, delay and activity are the kernel's to change.
pub open spec fn same_population(before: Seq<Particle>, after: Seq<Particle>) -> bool {
    &&& after.len() == before.len()
    &&& forall|i: int|
        0 <= i < before.len() ==> (#[trigger] after[i]).category_code == before[i].category_code
            && after[i].mass == before[i].mass
}

/// Whether `after` holds the population of `before`: the same number of
/// particles, each with the category code and the mass it had.
pub fn population_kept(before: &Vec<Particle>, after: &Vec<Particle>) -> (kept: bool)
    ensures
        kept == same_population(before@, after@),
{
    if before.len() != after.len() {
        return false;
    }
    let mut i: usize = 0;
    while i < before.len()
        invariant
            i <= before.len(),
            before.len() == after.len(),
            forall|k: int|
                0 <= k < i ==> (#[trigger] after@[k]).category_code == before@[k].category_code
                    && after@[k].mass == before@[k].mass,
        decreases before.len() - i,
    {
        if after[i].category_code.bits != before[i].category_code.bits || after[i].mass.bits
            != before[i].mass.bits {
            return false;
        }
        i += 1;
    }
    true
}

/// Bytes a buffer needs to hold `count` particle records.
pub fn storage_bytes(count: u32) -> (bytes: u64)
    ensures
        bytes == count * RECORD_BYTES,
{
    let n: u64 = count as u64;
    n * RECORD_BYTES
}

/// The ten words of one record.
pub open spec fn record_words(p: Particle) -> Seq<u32> {
    seq![
        p.x.bits,
        p.y.bits,
        p.z.bits,
        p.vx.bits,
        p.vy.bits,
        p.vz.bits,
        p.mass.bits,
        p.category_code.bits,
        p.accumulated_delay.bits,
        p.active_flag.bits,
    ]
}

/// The particle whose record starts at word `10 * index` of `words`.
pub open spec fn record_at(words: Seq<u32>, index: int) -> Particle {
    let at = RECORD_WORDS * index;
    Particle {
        x: Scalar { bits: words[at] },
        y: Scalar { bits: words[at + 1] },
        z: Scalar { bits: words[at + 2] },
        vx: Scalar { bits: words[at + 3] },
        vy: Scalar { bits: words[at + 4] },
        vz: Scalar { bits: words[at + 5] },
        mass: Scalar { bits: words[at + 6] },
        category_code: Scalar { bits: words[at + 7] },
        accumulated_delay: Scalar { bits: words[at + 8] },
        active_flag: Scalar { bits: words[at + 9] },
    }
}

/// The words of a whole store: the records of its particles, one after
/// another.
pub open spec fn buffer_words(particles: Seq<Particle>) -> Seq<u32> {
    Seq::new(
        (RECORD_WORDS as nat) * particles.len(),
        |i: int| record_words(particles[i / (RECORD_WORDS as int)])[i % (RECORD_WORDS as int)],
    )
}

/// The words of the parameter record.
pub open spec fn parameter_record(parameters: SimulationParameters) -> Seq<u32> {
    seq![parameters.time_seed.bits, parameters.mode_code.bits, 0u32, 0u32]
}

/// Lays a store out as the words of a storage buffer.
pub fn store_words(particles: &Vec<Particle>) -> (words: Vec<u32>)
    ensures
        words@ == buffer_words(particles@),
{
    let mut words: Vec<u32> = Vec::new();
    let mut i: usize = 0;
    while i < particles.len()
        invariant
            i <= particles.len(),
            words@ == buffer_words(particles@.take(i as int)),
        decreases particles.len() - i,
    {
        let p = particles[i];
        let ghost before = words@;
        words.push(p.x.bits);
        words.push(p.y.bits);
        words.push(p.z.bits);
        words.push(p.vx.bits);
        words.push(p.vy.bits);
        words.push(p.vz.bits);
        words.push(p.mass.bits);
        words.push(p.category_code.bits);
        words.push(p.accumulated_delay.bits);
        words.push(p.active_flag.bits);
        proof {
            assert(words@ =~= before + record_words(p));
            lemma_buffer_words_grow(particles@.take(i as int), p);
            assert(particles@.take(i + 1) =~= particles@.take(i as int).push(p));
        }
        i += 1;
    }
    proof {
        assert(particles@.take(particles.len() as int) == particles@);
    }
    words
}

/// Reads a snapshot: the particles whose records `words` holds, in stored
/// order, or `None` if the words do not make up whole records.
pub fn snapshot_particles(words: &[u32]) -> (particles: Option<Vec<Particle>>)
    ensures
        match particles {
            Some(read) => {
                &&& words@.len() == RECORD_WORDS * read@.len()
                &&& forall|k: int| 0 <= k < read@.len() ==> #[trigger] read@[k] == record_at(words@, k)
            },
            None => words@.len() % (RECORD_WORDS as nat) != 0,
        },
{
    if words.len() % RECORD_WORDS != 0 {
        return None;
    }
    let count: usize = words.len() / RECORD_WORDS;
    let mut read: Vec<Particle> = Vec::with_capacity(count);
    let mut k: usize = 0;
    while k < count
        invariant
            k <= count,
            words@.len() == 10 * count <= usize::MAX,
            read@.len() == k,
            forall|j: int| 0 <= j < k ==> #[trigger] read@[j] == record_at(words@, j),
        decreases count - k,
    {
        let at: usize = 10 * k;
        read.push(
            Particle {
                x: Scalar { bits: words[at] },
                y: Scalar { bits: words[at + 1] },
                z: Scalar { bits: words[at + 2] },
                vx: Scalar { bits: words[at + 3] },
                vy: Scalar { bits: words[at + 4] },
                vz: Scalar { bits: words[at + 5] },
                mass: Scalar { bits: words[at + 6] },
                category_code: Scalar { bits: words[at + 7] },
                accumulated_delay: Scalar { bits: words[at + 8] },
                active_flag: Scalar { bits: words[at + 9] },
            },
        );
        k += 1;
    }
    Some(read)
}

/// Lays the parameter record out as the words of a uniform buffer.
pub fn parameter_words(parameters: &SimulationParameters) -> (words: [u32; 4])
    ensures
        words@ == parameter_record(*parameters),
{
    let words: [u32; 4] = [parameters.time_seed.bits, parameters.mode_code.bits, 0, 0];
    assert(words@ =~= parameter_record(*parameters));
    words
}

/// One more particle adds its record at the end of the buffer.
proof fn lemma_buffer_words_grow(particles: Seq<Particle>, p: Particle)
    ensures
        buffer_words(particles.push(p)) == buffer_words(particles) + record_words(p),
{
    let grown = buffer_words(particles.push(p));
    let joined = buffer_words(particles) + record_words(p);
    assert(grown.len() == joined.len());
    assert forall|i: int| 0 <= i < grown.len() implies grown[i] == joined[i] by {
        let n = particles.len() as int;
        if i < RECORD_WORDS * n {
            assert(i / (RECORD_WORDS as int) < n);
        } else {
            assert(i / (RECORD_WORDS as int) == n);
            assert(i % (RECORD_WORDS as int) == i - RECORD_WORDS * n);
        }
    }
    assert(grown =~= joined);
}

/// A store read back from its own words is the store itself: every
/// particle at the index it was written at.
pub proof fn lemma_layout_round_trip(particles: Seq<Particle>, k: int)
    requires
        0 <= k < particles.len(),
    ensures
        buffer_words(particles).len() == RECORD_WORDS * particles.len(),
        record_at(buffer_words(particles), k) == particles[k],
{
    let words = buffer_words(particles);
    let at = RECORD_WORDS * k;
    assert forall|j: int| 0 <= j < RECORD_WORDS implies #[trigger] words[at + j] == record_words(
        particles[k],
    )[j] by {
        assert((at + j) / (RECORD_WORDS as int) == k);
        assert((at + j) % (RECORD_WORDS as int) == j);
    }
    assert(words[at + 0] == particles[k].x.bits);
    assert(words[at + 1] == particles[k].y.bits);
    assert(words[at + 2] == particles[k].z.bits);
    assert(words[at + 3] == particles[k].vx.bits);
    assert(words[at + 4] == particles[k].vy.bits);
    assert(words[at + 5] == particles[k].vz.bits);
    assert(words[at + 6] == particles[k].mass.bits);
    assert(words[at + 7] == particles[k].category_code.bits);
    assert(words[at + 8] == particles[k].accumulated_delay.bits);
    assert(words[at + 9] == particles[k].active_flag.bits);
}

/// The population of a pass never changes: if every state of the store
/// keeps the population of the state before it, then every state holds as
/// many particles as were seeded, and the particle at each index has the
/// category it was seeded with.
pub proof fn lemma_population_is_invariant(states: Seq<Seq<Particle>>, k: int)
    requires
        forall|j: int| 0 <= j < states.len() - 1 ==> same_population(states[j], #[trigger] states[j + 1]),
        0 <= k < states.len(),
    ensures
        same_population(states[0], states[k]),
        states[k].len() == states[0].len(),
        forall|i: int| 0 <= i < states[0].len() ==> (#[trigger] states[k][i]).kind() == states[0][i].kind(),
    decreases k,
{
    if k > 0 {
        lemma_population_is_invariant(states, k - 1);
        assert(same_population(states[k - 1], states[k - 1 + 1]));
    }
}

} // verus!
