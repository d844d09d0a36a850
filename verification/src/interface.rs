//! The storage facade: the single entry point the block-device transport
//! drives.
//!
//! The facade owns the bookkeeping for one shared regressor version. Reads
//! are served against the current version; a write retrains the regressor
//! against the base corpus with the written range overlaid, and on success
//! the new version is installed atomically — on failure the old version
//! stays current and the error is surfaced, never swallowed.
//!
//! The numeric backend stands outside the library: the facade hands it
//! model-ready batches and a training corpus as plain values, and takes its
//! raw outputs back as plain values. Every decision around those exchanges
//! is made — and verified — here.

use vstd::prelude::*;
use crate::batcher::{Batch, InternalBatcher};
use crate::dataloader::{CustomDataset, DataItem, Overlay};
use crate::encoder::{clamp_prediction, decode_spec, encode_spec};
use crate::trainer::TrainingConfig;
use crate::model::ModelConfig;

verus! {

/// Everything that can go wrong on the read and write paths.
#[derive(Clone, Copy, Debug, PartialEq, Eq, Structural)]
pub enum NNError {
    /// An address or value fell out of the representable range.
    EncodingError,
    /// Training was invoked with zero records.
    EmptyDatasetError,
    /// Inference was requested before any model was initialized or loaded.
    ModelUnavailableError,
    /// The checkpoint store failed to read or write.
    CheckpointError,
    /// A non-finite loss was detected; the run was aborted rather than
    /// installing a corrupted version.
    TrainingDivergedError,
}

/// Where the facade stands: serving reads, or retraining after a write.
#[derive(Clone, Copy, Debug, PartialEq, Eq, Structural)]
pub enum FacadeState {
    Idle,
    Training,
}

/// The facade over one shared regressor version.
#[derive(Clone, Copy, Debug, PartialEq, Eq, Structural)]
pub struct TheNetwork {
    /// Parameters of every training round; immutable after construction.
    pub training_config: TrainingConfig,
    /// The number of records in the training corpus.
    pub max_size: usize,
    /// Whether a model version has been initialized or loaded.
    pub model_ready: bool,
    /// The current version: bumped exactly when a new model is installed.
    pub model_version: u64,
    /// Idle between requests, Training inside a write.
    pub state: FacadeState,
}

/// Everything the numeric backend needs for one training round, as plain
/// values: the inference batch that regenerates the base corpus, the write
/// window to overlay, and the configuration of the round.
#[derive(Debug)]
pub struct TrainPlan {
    pub rebuild_batch: Batch,
    pub overlay_offset: usize,
    pub overlay_values: Vec<u8>,
    pub config: TrainingConfig,
}

/// Whether every address `offset .. offset + len` is representable.
pub open spec fn read_ok(offset: u64, len: nat) -> bool {
    offset + len <= u64::MAX + 1
}

/// The encoded rows of a read request: row `i` encodes address
/// `offset + i`.
pub open spec fn read_rows(offset: u64, len: nat) -> Seq<Seq<u8>> {
    Seq::new(len, |i: int| encode_spec((offset + i) as u64))
}

/// The placeholder targets of an inference batch: one zero per row.
pub open spec fn zero_targets(len: nat) -> Seq<u8> {
    Seq::new(len, |i: int| 0u8)
}

/// The bytes a vector of raw model outputs decodes to, in order.
pub open spec fn decoded_predictions(raw: Seq<i64>) -> Seq<u8> {
    Seq::new(raw.len(), |i: int| clamp_prediction(raw[i]))
}

/// What a successful training plan holds, given the facade and the write.
pub open spec fn is_train_plan(n: TheNetwork, values: Seq<u8>, offset: u64, p: TrainPlan) -> bool {
    &&& p.config == n.training_config
    &&& p.rebuild_batch.wf()
    &&& p.rebuild_batch.rows() == read_rows(0, n.max_size as nat)
    &&& p.rebuild_batch.targets@ == zero_targets(n.max_size as nat)
    &&& p.overlay_offset == offset
    &&& p.overlay_values@ == values
}

impl TheNetwork {
    /// Whether a write of `len` bytes at `offset` falls inside the corpus.
    pub open spec fn write_ok(self, offset: u64, len: nat) -> bool {
        offset + len <= self.max_size
    }

    /// A facade with the default configuration — a regressor over 64
    /// feature slots with one scalar output — an empty corpus, and no model
    /// version yet.
    pub fn init() -> (r: TheNetwork)
        ensures
            r == (TheNetwork {
                training_config: crate::trainer::default_config(
                    ModelConfig { input_size: 64, output_size: 1 },
                ),
                max_size: 0,
                model_ready: false,
                model_version: 0,
                state: FacadeState::Idle,
            }),
    {
        TheNetwork {
            training_config: TrainingConfig::new(ModelConfig::new(64, 1)),
            max_size: 0,
            model_ready: false,
            model_version: 0,
            state: FacadeState::Idle,
        }
    }

    /// A facade like `init`, but over a corpus of `max_size` records.
    pub fn init_with_size(max_size: usize) -> (r: TheNetwork)
        ensures
            r == (TheNetwork { max_size, ..TheNetwork::init_spec() }),
    {
        TheNetwork { max_size, ..TheNetwork::init() }
    }

    /// The facade `init` constructs.
    pub open spec fn init_spec() -> TheNetwork {
        TheNetwork {
            training_config: crate::trainer::default_config(
                ModelConfig { input_size: 64, output_size: 1 },
            ),
            max_size: 0,
            model_ready: false,
            model_version: 0,
            state: FacadeState::Idle,
        }
    }

    /// Record that the backend initialized or loaded a model: the facade
    /// becomes ready and the version is bumped.
    pub fn model_installed(&mut self)
        requires
            old(self).model_version < u64::MAX,
        ensures
            *final(self) == (TheNetwork {
                model_ready: true,
                model_version: (old(self).model_version + 1) as u64,
                ..*old(self)
            }),
    {
        self.model_ready = true;
        self.model_version = self.model_version + 1;
    }

    /// Build the inference batch for a read of `len` bytes at `offset`:
    /// row `i` encodes address `offset + i`, in order. Fails with
    /// `ModelUnavailableError` before any model is installed, and with
    /// `EncodingError` when an address would overflow the address space;
    /// succeeds exactly otherwise.
    pub fn read_request(&self, len: usize, offset: u64) -> (r: Result<Batch, NNError>)
        ensures
            !self.model_ready ==> (r matches Err(e) && e == NNError::ModelUnavailableError),
            self.model_ready && !read_ok(offset, len as nat) ==> (r matches Err(e) && e
                == NNError::EncodingError),
            self.model_ready && read_ok(offset, len as nat) ==> (r matches Ok(b) && b.wf()
                && b.rows() == read_rows(offset, len as nat) && b.targets@ == zero_targets(
                len as nat,
            )),
    {
        if !self.model_ready {
            return Err(NNError::ModelUnavailableError);
        }
        if len > 0 && offset > u64::MAX - ((len - 1) as u64) {
            return Err(NNError::EncodingError);
        }
        let mut items: Vec<DataItem> = Vec::new();
        let mut i: usize = 0;
        while i < len
            invariant
                i <= len,
                read_ok(offset, len as nat),
                items@.len() == i,
                forall|j: int|
                    0 <= j < i ==> #[trigger] items@[j] == (DataItem {
                        address: (offset + j) as u64,
                        value: 0u8,
                    }),
            decreases len - i,
        {
            items.push(DataItem { address: offset + (i as u64), value: 0 });
            i = i + 1;
        }
        let batcher = InternalBatcher::new();
        let b = batcher.batch(&items);
        proof {
            assert(b.rows() =~~= read_rows(offset, len as nat));
            assert(b.targets@ =~= zero_targets(len as nat));
        }
        Ok(b)
    }

    /// Serve a read: decode raw model output `i` into `buf[i]`, in order,
    /// never permuted. The validation mirrors `read_request`, and on any
    /// error the buffer is left unchanged.
    pub fn read_at(&self, buf: &mut Vec<u8>, offset: u64, raw: &Vec<i64>) -> (r: Result<
        (),
        NNError,
    >)
        requires
            raw@.len() == old(buf)@.len(),
        ensures
            !self.model_ready ==> (r matches Err(e) && e == NNError::ModelUnavailableError
                && final(buf)@ == old(buf)@),
            self.model_ready && !read_ok(offset, old(buf)@.len()) ==> (r matches Err(e) && e
                == NNError::EncodingError && final(buf)@ == old(buf)@),
            self.model_ready && read_ok(offset, old(buf)@.len()) ==> (r matches Ok(u)
                && final(buf)@ == decoded_predictions(raw@)),
    {
        if !self.model_ready {
            return Err(NNError::ModelUnavailableError);
        }
        let len = buf.len();
        if len > 0 && offset > u64::MAX - ((len - 1) as u64) {
            return Err(NNError::EncodingError);
        }
        let mut i: usize = 0;
        while i < len
            invariant
                i <= len,
                buf@.len() == len,
                raw@.len() == len,
                forall|j: int| 0 <= j < i ==> buf@[j] == clamp_prediction(raw@[j]),
                forall|j: int| i <= j < len ==> buf@[j] == old(buf)@[j],
            decreases len - i,
        {
            let v = crate::encoder::decode_prediction(raw[i]);
            buf.set(i, v);
            i = i + 1;
        }
        proof {
            assert(buf@ =~= decoded_predictions(raw@));
        }
        Ok(())
    }

    /// Plan one training round for a write of `buf` at `offset`: the
    /// inference batch that regenerates the base corpus over all of
    /// `0 .. max_size`, the write window, and the configuration of the
    /// round. Fails with `ModelUnavailableError` before any model is
    /// installed, with `EmptyDatasetError` on an empty corpus, and with
    /// `EncodingError` when the window reaches past the corpus; succeeds
    /// exactly otherwise.
    pub fn train(&self, buf: &Vec<u8>, offset: u64) -> (r: Result<TrainPlan, NNError>)
        ensures
            !self.model_ready ==> (r matches Err(e) && e == NNError::ModelUnavailableError),
            self.model_ready && self.max_size == 0 ==> (r matches Err(e) && e
                == NNError::EmptyDatasetError),
            self.model_ready && self.max_size > 0 && !self.write_ok(offset, buf@.len()) ==> (
            r matches Err(e) && e == NNError::EncodingError),
            self.model_ready && self.max_size > 0 && self.write_ok(offset, buf@.len()) ==> (
            r matches Ok(p) && is_train_plan(*self, buf@, offset, p)),
    {
        if !self.model_ready {
            return Err(NNError::ModelUnavailableError);
        }
        if self.max_size == 0 {
            return Err(NNError::EmptyDatasetError);
        }
        if offset > self.max_size as u64 || buf.len() as u64 > self.max_size as u64 - offset {
            return Err(NNError::EncodingError);
        }
        let rebuild_batch = match self.read_request(self.max_size, 0) {
            Ok(b) => b,
            Err(e) => {
                proof {
                    assert(read_ok(0, self.max_size as nat));
                }
                return Err(e);
            },
        };
        let mut overlay_values: Vec<u8> = Vec::new();
        let mut i: usize = 0;
        while i < buf.len()
            invariant
                i <= buf@.len(),
                overlay_values@.len() == i,
                forall|j: int| 0 <= j < i ==> overlay_values@[j] == buf@[j],
            decreases buf@.len() - i,
        {
            overlay_values.push(buf[i]);
            i = i + 1;
        }
        proof {
            assert(overlay_values@ =~= buf@);
        }
        Ok(
            TrainPlan {
                rebuild_batch,
                overlay_offset: offset as usize,
                overlay_values,
                config: self.training_config,
            },
        )
    }

    /// Assemble the corpus one training round fits against: the model's own
    /// raw predictions over `0 .. max_size` become the base, with the write
    /// window overlaid on top. The validation mirrors `train`.
    pub fn training_dataset(&self, predictions: &Vec<i64>, buf: &Vec<u8>, offset: u64) -> (r:
        Result<CustomDataset, NNError>)
        requires
            predictions@.len() == self.max_size,
        ensures
            !self.model_ready ==> (r matches Err(e) && e == NNError::ModelUnavailableError),
            self.model_ready && self.max_size == 0 ==> (r matches Err(e) && e
                == NNError::EmptyDatasetError),
            self.model_ready && self.max_size > 0 && !self.write_ok(offset, buf@.len()) ==> (
            r matches Err(e) && e == NNError::EncodingError),
            self.model_ready && self.max_size > 0 && self.write_ok(offset, buf@.len()) ==> (
            r matches Ok(d) && d.wf() && d.spec_len() == self.max_size && forall|i: int|
                0 <= i < self.max_size ==> #[trigger] d.record_at(i) == (DataItem {
                    address: i as u64,
                    value: if offset <= i < offset + buf@.len() {
                        buf@[i - offset]
                    } else {
                        clamp_prediction(predictions@[i])
                    },
                })),
    {
        if !self.model_ready {
            return Err(NNError::ModelUnavailableError);
        }
        if self.max_size == 0 {
            return Err(NNError::EmptyDatasetError);
        }
        if offset > self.max_size as u64 || buf.len() as u64 > self.max_size as u64 - offset {
            return Err(NNError::EncodingError);
        }
        let mut overlay_values: Vec<u8> = Vec::new();
        let mut i: usize = 0;
        while i < buf.len()
            invariant
                i <= buf@.len(),
                overlay_values@.len() == i,
                forall|j: int| 0 <= j < i ==> overlay_values@[j] == buf@[j],
            decreases buf@.len() - i,
        {
            overlay_values.push(buf[i]);
            i = i + 1;
        }
        proof {
            assert(overlay_values@ =~= buf@);
        }
        let skeleton = CustomDataset {
            base: Vec::new(),
            overlay: Overlay::Window { offset: offset as usize, values: overlay_values },
        };
        let d = CustomDataset::retrain(skeleton, predictions);
        Ok(d)
    }

    /// Enter the exclusive training section of a write. The facade must be
    /// idle; nothing else changes.
    pub fn begin_write(&mut self)
        requires
            old(self).state is Idle,
        ensures
            *final(self) == (TheNetwork { state: FacadeState::Training, ..*old(self) }),
    {
        self.state = FacadeState::Training;
    }

    /// Install the retrained model: the swap is all-or-nothing, and a read
    /// that starts after it observes the new version. The version is
    /// bumped exactly here.
    pub fn commit_write(&mut self)
        requires
            old(self).state is Training,
            old(self).model_version < u64::MAX,
        ensures
            *final(self) == (TheNetwork {
                state: FacadeState::Idle,
                model_ready: true,
                model_version: (old(self).model_version + 1) as u64,
                ..*old(self)
            }),
    {
        self.state = FacadeState::Idle;
        self.model_ready = true;
        self.model_version = self.model_version + 1;
    }

    /// Surface a failed training round: the version is unchanged — prior
    /// reads are unaffected — and the error is returned to the caller
    /// as it came, never swallowed.
    pub fn abort_write(&mut self, err: NNError) -> (r: NNError)
        requires
            old(self).state is Training,
        ensures
            *final(self) == (TheNetwork { state: FacadeState::Idle, ..*old(self) }),
            r == err,
    {
        self.state = FacadeState::Idle;
        err
    }
}

/// The size the facade reports to the transport: the storage surface is a
/// dense function over the whole address space, not an allocated array, so
/// it reports the maximal representable signed size.
pub fn device_size() -> (r: i64)
    ensures
        r == i64::MAX,
{
    i64::MAX
}

/// A failed write leaves no trace: entering the training section and
/// aborting it restores the facade exactly — the old version stays
/// current, and prior reads are unaffected.
pub proof fn lemma_aborted_write_restores_the_facade(
    n0: TheNetwork,
    n1: TheNetwork,
    n2: TheNetwork,
)
    requires
        n0.state is Idle,
        n1 == (TheNetwork { state: FacadeState::Training, ..n0 }),
        n2 == (TheNetwork { state: FacadeState::Idle, ..n1 }),
    ensures
        n2 == n0,
{
}

/// A committed write changes exactly one thing about the facade: the
/// version is bumped, so a read that starts after the write observes the
/// new version; the configuration and the corpus are untouched.
pub proof fn lemma_committed_write_installs_one_version(
    n0: TheNetwork,
    n1: TheNetwork,
    n2: TheNetwork,
)
    requires
        n0.state is Idle,
        n0.model_version < u64::MAX,
        n1 == (TheNetwork { state: FacadeState::Training, ..n0 }),
        n2 == (TheNetwork {
            state: FacadeState::Idle,
            model_ready: true,
            model_version: (n1.model_version + 1) as u64,
            ..n1
        }),
    ensures
        n2.model_version == n0.model_version + 1,
        n2.state == n0.state,
        n2.training_config == n0.training_config,
        n2.max_size == n0.max_size,
{
}

/// Batch order preservation, read back through the decoder: row `i` of a
/// read request's batch decodes to address `offset + i` — predictions come
/// back in buffer order, never permuted.
pub proof fn lemma_read_rows_decode(offset: u64, len: nat, i: int)
    requires
        read_ok(offset, len),
        0 <= i < len,
    ensures
        decode_spec(read_rows(offset, len)[i]) == offset + i,
{
    crate::encoder::lemma_encode_decode_roundtrip((offset + i) as u64);
}

/// The read path in one statement, for every address range that fits the
/// 64-bit address space: row `i` of the read batch asks the backend for
/// address `offset + i`, and buffer byte `i` is the clamped raw output
/// `i` — the prediction for `offset + i`, never permuted.
pub proof fn lemma_read_order(offset: u64, len: nat, raw: Seq<i64>, out: Seq<u8>, i: int)
    requires
        read_ok(offset, len),
        0 <= i < len,
        raw.len() == len,
        out == decoded_predictions(raw),
    ensures
        decode_spec(read_rows(offset, len)[i]) == offset + i,
        out[i] == clamp_prediction(raw[i]),
{
    lemma_read_rows_decode(offset, len, i);
}

/// Idempotent read: two read requests for the same range hand the backend
/// identical batches, and identical raw outputs decode to identical bytes.
/// With the backend's forward pass a pure function of its parameters and
/// input, consecutive reads against the same unmodified version return
/// identical data.
pub proof fn lemma_idempotent_read(
    b1: Batch,
    b2: Batch,
    offset: u64,
    len: nat,
    raw: Seq<i64>,
    out1: Seq<u8>,
    out2: Seq<u8>,
)
    requires
        b1.rows() == read_rows(offset, len),
        b2.rows() == read_rows(offset, len),
        b1.targets@ == zero_targets(len),
        b2.targets@ == zero_targets(len),
        out1 == decoded_predictions(raw),
        out2 == decoded_predictions(raw),
    ensures
        b1.rows() == b2.rows(),
        b1.targets@ == b2.targets@,
        out1 == out2,
{
}

/// Training determinism, as far as the library decides it: two training
/// rounds planned from the same facade and the same write hand the backend
/// the same rebuild batch, the same window and the same configuration —
/// seed included, and with it the whole record order of the round, which
/// `crate::trainer::batch_schedule` fixes as a function of the seed. What
/// remains outside this statement is only the numeric backend's own
/// arithmetic.
pub proof fn lemma_training_determinism(
    n: TheNetwork,
    values: Seq<u8>,
    offset: u64,
    p1: TrainPlan,
    p2: TrainPlan,
)
    requires
        is_train_plan(n, values, offset, p1),
        is_train_plan(n, values, offset, p2),
    ensures
        p1.config == p2.config,
        p1.config.seed == n.training_config.seed,
        p1.rebuild_batch.rows() == p2.rebuild_batch.rows(),
        p1.overlay_offset == p2.overlay_offset,
        p1.overlay_values@ == p2.overlay_values@,
{
}

} // verus!
