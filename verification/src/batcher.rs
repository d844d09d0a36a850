//! Batch construction: grouping records into model-ready rows.
//!
//! A batch holds one encoded address row and one target value per record,
//! in the order the records were given — the read path relies on row `i`
//! answering for record `i`, never permuted and never deduplicated.

use vstd::prelude::*;
use crate::dataloader::DataItem;
use crate::encoder::encode_spec;

verus! {

/// Builds batches of encoded rows from records.
pub struct InternalBatcher {}

impl InternalBatcher {
    pub fn new() -> (r: InternalBatcher) {
        InternalBatcher {  }
    }

    /// Group `items` into a batch: row `i` encodes the address of item `i`,
    /// target `i` is its value. Order is preserved exactly; the empty input
    /// gives the empty batch.
    pub fn batch(&self, items: &Vec<DataItem>) -> (b: Batch)
        ensures
            b.wf(),
            b.addresses@.len() == items@.len(),
            b.targets@.len() == items@.len(),
            forall|i: int|
                0 <= i < items@.len() ==> (#[trigger] b.addresses@[i])@ == encode_spec(
                    items@[i].address,
                ),
            forall|i: int| 0 <= i < items@.len() ==> b.targets@[i] == items@[i].value,
    {
        let mut addresses: Vec<Vec<u8>> = Vec::new();
        let mut targets: Vec<u8> = Vec::new();
        let mut i: usize = 0;
        while i < items.len()
            invariant
                i <= items@.len(),
                addresses@.len() == i,
                targets@.len() == i,
                forall|j: int|
                    0 <= j < i ==> (#[trigger] addresses@[j])@ == encode_spec(items@[j].address),
                forall|j: int| 0 <= j < i ==> targets@[j] == items@[j].value,
            decreases items@.len() - i,
        {
            addresses.push(crate::encoder::encode_address(items[i].address));
            targets.push(items[i].value);
            i = i + 1;
        }
        Batch { addresses, targets }
    }
}

/// One model-ready batch: encoded address rows and the target value for
/// each row.
#[derive(Debug)]
pub struct Batch {
    pub addresses: Vec<Vec<u8>>,
    pub targets: Vec<u8>,
}

impl Batch {
    /// The rows of the batch as mathematical sequences.
    pub open spec fn rows(self) -> Seq<Seq<u8>> {
        self.addresses@.map_values(|row: Vec<u8>| row@)
    }

    /// A batch is well formed when it has one target per row and every row
    /// has the full 64 feature slots.
    pub open spec fn wf(self) -> bool {
        &&& self.addresses@.len() == self.targets@.len()
        &&& forall|i: int|
            0 <= i < self.addresses@.len() ==> (#[trigger] self.addresses@[i])@.len() == 64
    }

    /// The number of records in the batch.
    pub fn len(&self) -> (r: usize)
        ensures
            r == self.addresses@.len(),
    {
        self.addresses.len()
    }
}

} // verus!
