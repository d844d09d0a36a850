//! The training configuration: how many epochs to run, how records are
//! batched and shuffled, and the step size of the optimizer.
//!
//! The configuration is loaded once, immutable thereafter, and handed to
//! the numeric backend with every training round, so that identical
//! `(seed, dataset, configuration)` reproduce identical runs. The learning
//! rate is held in micro-units (millionths), so the whole record is made
//! of plain integers and round-trips losslessly.

use vstd::prelude::*;
use crate::model::ModelConfig;

verus! {

/// The default number of epochs per training round.
pub const DEFAULT_NUM_EPOCHS: usize = 20;

/// The default number of records per training batch.
pub const DEFAULT_BATCH_SIZE: usize = 64;

/// The default number of workers building batches.
pub const DEFAULT_NUM_WORKERS: usize = 4;

/// The default seed for the deterministic shuffle.
pub const DEFAULT_SEED: u64 = 42;

/// The default learning rate, in millionths: 10000 stands for 0.01.
pub const DEFAULT_LEARNING_RATE_MICROS: u64 = 10000;

/// The default first moment decay of the optimizer, in millionths:
/// 900000 stands for 0.9.
pub const DEFAULT_BETA_1_MICROS: u64 = 900000;

/// The default second moment decay of the optimizer, in millionths:
/// 999000 stands for 0.999.
pub const DEFAULT_BETA_2_MICROS: u64 = 999000;

/// The default numerical-stability term of the optimizer, in billionths:
/// 10000 stands for 0.00001.
pub const DEFAULT_EPSILON_NANOS: u64 = 10000;

/// The optimizer's own parameters, held in plain integer units so the
/// whole configuration round-trips losslessly.
#[derive(Clone, Copy, Debug, PartialEq, Eq, Structural)]
pub struct AdamParams {
    /// First moment decay, in millionths.
    pub beta_1_micros: u64,
    /// Second moment decay, in millionths.
    pub beta_2_micros: u64,
    /// Numerical-stability term, in billionths.
    pub epsilon_nanos: u64,
}

/// The optimizer parameters with every field at its default.
pub open spec fn default_adam() -> AdamParams {
    AdamParams {
        beta_1_micros: DEFAULT_BETA_1_MICROS,
        beta_2_micros: DEFAULT_BETA_2_MICROS,
        epsilon_nanos: DEFAULT_EPSILON_NANOS,
    }
}

/// Everything one training round is parameterized by.
#[derive(Clone, Copy, Debug, PartialEq, Eq, Structural)]
pub struct TrainingConfig {
    pub model: ModelConfig,
    pub num_epochs: usize,
    pub batch_size: usize,
    pub num_workers: usize,
    pub seed: u64,
    /// Step size of the optimizer, in millionths.
    pub learning_rate_micros: u64,
    pub optimizer: AdamParams,
}

/// The configuration with every field at its default, for the given model
/// shape.
pub open spec fn default_config(model: ModelConfig) -> TrainingConfig {
    TrainingConfig {
        model,
        num_epochs: DEFAULT_NUM_EPOCHS as usize,
        batch_size: DEFAULT_BATCH_SIZE as usize,
        num_workers: DEFAULT_NUM_WORKERS as usize,
        seed: DEFAULT_SEED,
        learning_rate_micros: DEFAULT_LEARNING_RATE_MICROS,
        optimizer: default_adam(),
    }
}

impl TrainingConfig {
    /// A configuration for the given model shape with the default epoch
    /// count, batch size, worker count, seed and learning rate.
    pub fn new(model: ModelConfig) -> (r: TrainingConfig)
        ensures
            r == default_config(model),
    {
        TrainingConfig {
            model,
            num_epochs: DEFAULT_NUM_EPOCHS,
            batch_size: DEFAULT_BATCH_SIZE,
            num_workers: DEFAULT_NUM_WORKERS,
            seed: DEFAULT_SEED,
            learning_rate_micros: DEFAULT_LEARNING_RATE_MICROS,
            optimizer: AdamParams {
                beta_1_micros: DEFAULT_BETA_1_MICROS,
                beta_2_micros: DEFAULT_BETA_2_MICROS,
                epsilon_nanos: DEFAULT_EPSILON_NANOS,
            },
        }
    }
}

/// The multiplier of the mixing generator behind the deterministic
/// shuffle.
pub const MIX_MULTIPLIER: u64 = 6364136223846793005;

/// The increment of the mixing generator behind the deterministic
/// shuffle.
pub const MIX_INCREMENT: u64 = 1442695040888963407;

/// One step of the mixing generator: a fixed function of the previous
/// state alone, so the whole shuffle is a function of the seed.
#[verifier::opaque]
pub open spec fn next_state(s: u64) -> u64 {
    vstd::wrapping::u64_specs::wrapping_add(
        vstd::wrapping::u64_specs::wrapping_mul(s, MIX_MULTIPLIER),
        MIX_INCREMENT,
    )
}

/// The state the shuffle of one epoch starts from.
#[verifier::opaque]
pub open spec fn epoch_state(seed: u64, epoch: int) -> u64 {
    vstd::wrapping::u64_specs::wrapping_add(seed, epoch as u64)
}

/// The record indices `0, 1, .., n-1` in order.
pub open spec fn index_seq(n: nat) -> Seq<usize> {
    Seq::new(n, |i: int| i as usize)
}

/// `s` with the entries at `i` and `j` exchanged.
pub open spec fn swap_at(s: Seq<usize>, i: int, j: int) -> Seq<usize> {
    s.update(i, s[j]).update(j, s[i])
}

/// The tail of the shuffle: positions `i` down to `1`, each exchanged
/// with a position drawn from the mixing generator.
pub open spec fn shuffle_from(s: Seq<usize>, state: u64, i: int) -> Seq<usize>
    decreases i,
{
    if i <= 0 {
        s
    } else {
        let st = next_state(state);
        let j = ((st >> 33u64) as int) % (i + 1);
        shuffle_from(swap_at(s, i, j), st, i - 1)
    }
}

/// The record order of epoch `epoch`: the indices `0 .. n` shuffled,
/// determined by `seed` and `epoch` alone.
pub open spec fn epoch_order_spec(seed: u64, epoch: int, n: nat) -> Seq<usize> {
    shuffle_from(index_seq(n), epoch_state(seed, epoch), n as int - 1)
}

/// `s` cut into consecutive chunks of `bs`, the last chunk possibly
/// shorter.
pub open spec fn chunks_spec(s: Seq<usize>, bs: int) -> Seq<Seq<usize>>
    decreases s.len(),
{
    if bs < 1 || s.len() == 0 {
        Seq::empty()
    } else if s.len() <= bs {
        seq![s]
    } else {
        seq![s.take(bs)] + chunks_spec(s.skip(bs), bs)
    }
}

/// The batches of a whole training round, epoch after epoch.
pub open spec fn schedule_spec(seed: u64, n: nat, bs: int, epochs: int) -> Seq<Seq<usize>>
    decreases epochs,
{
    if epochs <= 0 {
        Seq::empty()
    } else {
        schedule_spec(seed, n, bs, epochs - 1) + chunks_spec(
            epoch_order_spec(seed, epochs - 1, n),
            bs,
        )
    }
}

/// Exchanging two entries never changes which records a sequence holds.
proof fn lemma_swap_preserves_multiset(s: Seq<usize>, i: int, j: int)
    requires
        0 <= i < s.len(),
        0 <= j < s.len(),
    ensures
        swap_at(s, i, j).to_multiset() == s.to_multiset(),
{
    broadcast use vstd::seq_lib::group_to_multiset_ensures;
    broadcast use vstd::seq_lib::to_multiset_update;

    if i == j {
        assert(swap_at(s, i, j) =~= s);
    } else {
        let s1 = s.update(i, s[j]);
        assert(s1.to_multiset() == s.to_multiset().insert(s[j]).remove(s[i]));
        assert(s1[j] == s[j]);
        assert(swap_at(s, i, j).to_multiset() == s1.to_multiset().insert(s[i]).remove(s[j]));
        assert(s.contains(s[i]));
        assert(s.contains(s[j]));
        assert(swap_at(s, i, j).to_multiset() =~= s.to_multiset());
    }
}

/// The shuffle only reorders: its result holds exactly the records the
/// input held.
proof fn lemma_shuffle_from_multiset(s: Seq<usize>, state: u64, i: int)
    requires
        i < s.len(),
    ensures
        shuffle_from(s, state, i).to_multiset() == s.to_multiset(),
        shuffle_from(s, state, i).len() == s.len(),
    decreases i,
{
    if i > 0 {
        let st = next_state(state);
        let j = ((st >> 33u64) as int) % (i + 1);
        lemma_swap_preserves_multiset(s, i, j);
        lemma_shuffle_from_multiset(swap_at(s, i, j), st, i - 1);
    }
}

/// Every epoch's order is a permutation of the record indices: each of
/// `0 .. n` appears exactly once, whatever the seed.
#[verifier::rlimit(50)]
pub proof fn lemma_epoch_order_permutes(seed: u64, epoch: int, n: nat)
    ensures
        epoch_order_spec(seed, epoch, n).to_multiset() == index_seq(n).to_multiset(),
        epoch_order_spec(seed, epoch, n).len() == n,
{
    lemma_shuffle_from_multiset(index_seq(n), epoch_state(seed, epoch), n as int - 1);
}

/// The chunks of one epoch flatten back to the epoch's order: batching
/// drops nothing, repeats nothing, and keeps the order.
pub proof fn lemma_chunks_flatten(s: Seq<usize>, bs: int)
    requires
        bs >= 1,
    ensures
        chunks_spec(s, bs).flatten() == s,
    decreases s.len(),
{
    if s.len() == 0 {
        assert(chunks_spec(s, bs).flatten() =~= s);
    } else if s.len() <= bs {
        assert(chunks_spec(s, bs) =~= seq![s]);
        assert(seq![s].flatten() =~= s) by {
            assert(seq![s].drop_first() =~= Seq::<Seq<usize>>::empty());
            assert(Seq::<Seq<usize>>::empty().flatten() =~= Seq::<usize>::empty());
        }
    } else {
        lemma_chunks_flatten(s.skip(bs), bs);
        let c = chunks_spec(s, bs);
        assert(c.drop_first() =~= chunks_spec(s.skip(bs), bs));
        assert(c.flatten() == c.first() + c.drop_first().flatten());
        assert(s.take(bs) + s.skip(bs) =~= s);
    }
}

/// One training round partitions each epoch's records into batches:
/// flattened back together, the batches of an epoch hold each of the `n`
/// record indices exactly once.
pub proof fn lemma_epoch_partitions(seed: u64, epoch: int, n: nat, bs: int)
    requires
        bs >= 1,
    ensures
        chunks_spec(epoch_order_spec(seed, epoch, n), bs).flatten().to_multiset() == index_seq(
            n,
        ).to_multiset(),
{
    lemma_chunks_flatten(epoch_order_spec(seed, epoch, n), bs);
    lemma_epoch_order_permutes(seed, epoch, n);
}

/// The record order of one epoch: a permutation of `0 .. n` determined by
/// `seed` and `epoch` alone.
#[verifier::rlimit(50)]
pub fn epoch_order(seed: u64, epoch: usize, n: usize) -> (r: Vec<usize>)
    ensures
        r@ == epoch_order_spec(seed, epoch as int, n as nat),
        r@.to_multiset() == index_seq(n as nat).to_multiset(),
        r@.len() == n,
{
    let mut order: Vec<usize> = Vec::new();
    let mut k: usize = 0;
    while k < n
        invariant
            k <= n,
            order@.len() == k,
            forall|m: int| 0 <= m < k ==> order@[m] == m as usize,
        decreases n - k,
    {
        order.push(k);
        k = k + 1;
    }
    proof {
        assert(order@ =~= index_seq(n as nat));
    }
    let mut state: u64 = seed.wrapping_add(epoch as u64);
    proof {
        reveal(epoch_state);
        assert(state == epoch_state(seed, epoch as int));
    }
    if n == 0 {
        return order;
    }
    let mut i: usize = n - 1;
    while i >= 1
        invariant
            i < n,
            order@.len() == n,
            shuffle_from(order@, state, i as int) == epoch_order_spec(
                seed,
                epoch as int,
                n as nat,
            ),
            order@.to_multiset() == index_seq(n as nat).to_multiset(),
        decreases i,
    {
        let ghost prev_state = state;
        state = state.wrapping_mul(MIX_MULTIPLIER).wrapping_add(MIX_INCREMENT);
        proof {
            reveal(next_state);
            assert(state == next_state(prev_state));
        }
        let shifted = state >> 33u64;
        proof {
            assert(shifted < 0x80000000u64) by (bit_vector)
                requires
                    shifted == state >> 33u64,
            ;
        }
        let j = (shifted as usize) % (i + 1);
        let ghost before = order@;
        let oi = order[i];
        let oj = order[j];
        order.set(i, oj);
        order.set(j, oi);
        proof {
            assert(order@ == swap_at(before, i as int, j as int));
            assert(j as int == ((state >> 33u64) as int) % (i as int + 1));
            assert(shuffle_from(before, prev_state, i as int) == shuffle_from(
                order@,
                state,
                i as int - 1,
            ));
            lemma_swap_preserves_multiset(before, i as int, j as int);
        }
        i = i - 1;
    }
    order
}

/// The batches of a whole training round, epoch after epoch: for each of
/// `num_epochs` epochs, a permutation of `0 .. n` determined by `seed`
/// alone, cut into consecutive chunks of `batch_size`. The backend is fed
/// the records of each chunk in this exact order.
#[verifier::rlimit(50)]
pub fn batch_schedule(seed: u64, n: usize, batch_size: usize, num_epochs: usize) -> (r: Vec<
    Vec<usize>,
>)
    requires
        batch_size >= 1,
    ensures
        r@.map_values(|b: Vec<usize>| b@) == schedule_spec(
            seed,
            n as nat,
            batch_size as int,
            num_epochs as int,
        ),
{
    let mut schedule: Vec<Vec<usize>> = Vec::new();
    let mut epoch: usize = 0;
    while epoch < num_epochs
        invariant
            epoch <= num_epochs,
            batch_size >= 1,
            schedule@.map_values(|b: Vec<usize>| b@) == schedule_spec(
                seed,
                n as nat,
                batch_size as int,
                epoch as int,
            ),
        decreases num_epochs - epoch,
    {
        let order = epoch_order(seed, epoch, n);
        let ghost prefix = schedule_spec(seed, n as nat, batch_size as int, epoch as int);
        let ghost mut done: Seq<Seq<usize>> = Seq::empty();
        proof {
            assert(order@.skip(0) =~= order@);
            assert(Seq::<Seq<usize>>::empty() + chunks_spec(order@, batch_size as int) =~~= chunks_spec(
                order@,
                batch_size as int,
            ));
        }
        let mut pos: usize = 0;
        while pos < n
            invariant
                pos <= n,
                batch_size >= 1,
                order@ == epoch_order_spec(seed, epoch as int, n as nat),
                order@.len() == n,
                schedule@.map_values(|b: Vec<usize>| b@) == prefix + done,
                done + chunks_spec(order@.skip(pos as int), batch_size as int) == chunks_spec(
                    order@,
                    batch_size as int,
                ),
            decreases n - pos,
        {
            let take = if n - pos < batch_size {
                n - pos
            } else {
                batch_size
            };
            let mut chunk: Vec<usize> = Vec::new();
            let mut k: usize = 0;
            while k < take
                invariant
                    k <= take,
                    pos + take <= n,
                    order@.len() == n,
                    chunk@.len() == k,
                    forall|m: int| 0 <= m < k ==> chunk@[m] == order@[pos + m],
                decreases take - k,
            {
                chunk.push(order[pos + k]);
                k = k + 1;
            }
            proof {
                let rest = order@.skip(pos as int);
                if rest.len() <= batch_size {
                    assert(chunk@ =~= rest);
                    assert(chunks_spec(rest, batch_size as int) =~~= seq![chunk@]);
                } else {
                    assert(chunk@ =~= rest.take(batch_size as int));
                    assert(rest.skip(batch_size as int) =~= order@.skip(
                        pos as int + take as int,
                    ));
                    assert(chunks_spec(rest, batch_size as int) =~~= seq![chunk@]
                        + chunks_spec(
                        order@.skip(pos as int + take as int),
                        batch_size as int,
                    ));
                }
            }
            let ghost old_sched = schedule@.map_values(|b: Vec<usize>| b@);
            schedule.push(chunk);
            proof {
                done = done + seq![chunk@];
                assert(schedule@.map_values(|b: Vec<usize>| b@) =~~= old_sched + seq![chunk@]);
                assert(old_sched + seq![chunk@] =~~= prefix + done);
                assert(done + chunks_spec(
                    order@.skip(pos as int + take as int),
                    batch_size as int,
                ) =~~= chunks_spec(order@, batch_size as int));
                if order@.skip(pos as int).len() <= batch_size {
                    assert(order@.skip(pos as int + take as int) =~= Seq::<usize>::empty());
                }
            }
            pos = pos + take;
        }
        proof {
            assert(order@.skip(n as int) =~= Seq::<usize>::empty());
            assert(done + chunks_spec(Seq::<usize>::empty(), batch_size as int) =~~= done);
            assert(schedule@.map_values(|b: Vec<usize>| b@) =~~= schedule_spec(
                seed,
                n as nat,
                batch_size as int,
                epoch as int + 1,
            ));
        }
        epoch = epoch + 1;
    }
    schedule
}

impl Default for TrainingConfig {
    /// The default configuration trains a regressor over 64 feature slots
    /// with one scalar output.
    fn default() -> (r: TrainingConfig)
        ensures
            r == default_config(ModelConfig { input_size: 64, output_size: 1 }),
    {
        TrainingConfig::new(ModelConfig { input_size: 64, output_size: 1 })
    }
}

} // verus!
