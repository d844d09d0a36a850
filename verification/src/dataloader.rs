//! The overlay dataset: an immutable base corpus of records plus an
//! optional contiguous overwrite window that shadows it.
//!
//! The logical record at index `i` is the overlay value at `i` when `i`
//! falls inside the window, and the base record otherwise. The window, when
//! present, lies within `[0, len)`, and the base record at index `i` always
//! carries address `i`.

use vstd::prelude::*;
use crate::encoder::clamp_prediction;

verus! {

/// One learned (address, value) pair: the model's input domain is the
/// address, its target the stored byte.
#[derive(Clone, Copy, Debug, PartialEq, Eq, Structural)]
pub struct DataItem {
    pub address: u64,
    pub value: u8,
}

/// A pending write: a contiguous run of byte values that shadows the base
/// corpus starting at `offset`.
pub enum Overlay {
    Absent,
    Window { offset: usize, values: Vec<u8> },
}

/// An immutable base corpus of records with an optional overwrite window
/// laid over it.
pub struct CustomDataset {
    pub base: Vec<DataItem>,
    pub overlay: Overlay,
}

impl CustomDataset {
    /// The number of logical records.
    pub open spec fn spec_len(self) -> nat {
        self.base@.len()
    }

    /// The logical record at index `i`: the overlay always wins over the
    /// base at overlapping indices.
    pub open spec fn record_at(self, i: int) -> DataItem {
        match self.overlay {
            Overlay::Absent => self.base@[i],
            Overlay::Window { offset, values } => if offset <= i < offset + values@.len() {
                DataItem { address: i as u64, value: values@[i - offset] }
            } else {
                self.base@[i]
            },
        }
    }

    /// Well-formedness: the base record at index `i` carries address `i`,
    /// and the window, if present, lies within `[0, len)`.
    pub open spec fn wf(self) -> bool {
        &&& forall|i: int|
            0 <= i < self.base@.len() ==> (#[trigger] self.base@[i]).address == i as u64
        &&& match self.overlay {
            Overlay::Absent => true,
            Overlay::Window { offset, values } => offset + values@.len() <= self.base@.len(),
        }
    }

    /// The logical record at `index`, or nothing when `index` is out of
    /// `[0, len)`.
    pub fn get(&self, index: usize) -> (r: Option<DataItem>)
        requires
            self.wf(),
        ensures
            index < self.spec_len() ==> r == Some(self.record_at(index as int)),
            index >= self.spec_len() ==> r is None,
    {
        if index >= self.base.len() {
            return None;
        }
        match &self.overlay {
            Overlay::Absent => Some(self.base[index]),
            Overlay::Window { offset, values } => {
                if index >= *offset && index - *offset < values.len() {
                    Some(DataItem { address: index as u64, value: values[index - *offset] })
                } else {
                    Some(self.base[index])
                }
            },
        }
    }

    /// The number of logical records.
    pub fn len(&self) -> (r: usize)
        ensures
            r == self.spec_len(),
    {
        self.base.len()
    }

    /// A fresh corpus of `max_size` records, every address mapped to the
    /// value 0, with no overwrite window.
    pub fn new(max_size: usize) -> (r: CustomDataset)
        ensures
            r.wf(),
            r.spec_len() == max_size,
            r.overlay is Absent,
            forall|i: int|
                0 <= i < max_size ==> r.record_at(i) == (DataItem {
                    address: i as u64,
                    value: 0u8,
                }),
    {
        let mut base: Vec<DataItem> = Vec::new();
        let mut i: usize = 0;
        while i < max_size
            invariant
                i <= max_size,
                base@.len() == i,
                forall|j: int|
                    0 <= j < i ==> base@[j] == (DataItem { address: j as u64, value: 0u8 }),
            decreases max_size - i,
        {
            base.push(DataItem { address: i as u64, value: 0 });
            i = i + 1;
        }
        CustomDataset { base, overlay: Overlay::Absent }
    }

    /// A corpus whose record at index `i` carries address `i` and the given
    /// value at `i`, with no overwrite window.
    pub fn from_values(values: &Vec<u8>) -> (r: CustomDataset)
        ensures
            r.wf(),
            r.spec_len() == values@.len(),
            r.overlay is Absent,
            forall|i: int|
                0 <= i < values@.len() ==> r.record_at(i) == (DataItem {
                    address: i as u64,
                    value: values@[i],
                }),
    {
        let mut base: Vec<DataItem> = Vec::new();
        let mut i: usize = 0;
        while i < values.len()
            invariant
                i <= values@.len(),
                base@.len() == i,
                forall|j: int|
                    0 <= j < i ==> base@[j] == (DataItem { address: j as u64, value: values@[j] }),
            decreases values@.len() - i,
        {
            base.push(DataItem { address: i as u64, value: values[i] });
            i = i + 1;
        }
        CustomDataset { base, overlay: Overlay::Absent }
    }

    /// Lay a pending write over this corpus: records in
    /// `[offset, offset + values.len())` will read back the written bytes.
    /// Nothing is returned when the window would reach past the corpus.
    pub fn overlaid(self, offset: usize, values: Vec<u8>) -> (r: Option<CustomDataset>)
        requires
            self.wf(),
        ensures
            offset + values@.len() <= self.spec_len() ==> (r matches Some(d) && d == (
            CustomDataset { base: self.base, overlay: Overlay::Window { offset, values } })),
            offset + values@.len() > self.spec_len() ==> r is None,
    {
        if values.len() <= self.base.len() && offset <= self.base.len() - values.len() {
            Some(CustomDataset { base: self.base, overlay: Overlay::Window { offset, values } })
        } else {
            None
        }
    }

    /// Regenerate the base corpus from the model's own raw predictions over
    /// addresses `0 .. predictions.len()`, keeping the pending write window:
    /// the previous model's knowledge becomes the new base truth that the
    /// overlay is applied on top of.
    pub fn retrain(c_dataset: CustomDataset, predictions: &Vec<i64>) -> (r: CustomDataset)
        requires
            match c_dataset.overlay {
                Overlay::Absent => true,
                Overlay::Window { offset, values } => offset + values@.len()
                    <= predictions@.len(),
            },
        ensures
            r.wf(),
            r.spec_len() == predictions@.len(),
            r.overlay == c_dataset.overlay,
            forall|i: int|
                0 <= i < predictions@.len() ==> r.base@[i] == (DataItem {
                    address: i as u64,
                    value: clamp_prediction(predictions@[i]),
                }),
    {
        let mut base: Vec<DataItem> = Vec::new();
        let mut i: usize = 0;
        while i < predictions.len()
            invariant
                i <= predictions@.len(),
                base@.len() == i,
                forall|j: int|
                    0 <= j < i ==> base@[j] == (DataItem {
                        address: j as u64,
                        value: clamp_prediction(predictions@[j]),
                    }),
            decreases predictions@.len() - i,
        {
            base.push(
                DataItem {
                    address: i as u64,
                    value: crate::encoder::decode_prediction(predictions[i]),
                },
            );
            i = i + 1;
        }
        CustomDataset { base, overlay: c_dataset.overlay }
    }
}

/// Whether `b` is the code of a decimal digit.
pub open spec fn is_ascii_digit(b: u8) -> bool {
    48 <= b <= 57
}

/// Whether every byte of `s` is a decimal digit.
pub open spec fn all_digits(s: Seq<u8>) -> bool {
    forall|i: int| 0 <= i < s.len() ==> is_ascii_digit(#[trigger] s[i])
}

/// The numeric value of a string of decimal digits, most significant
/// first.
pub open spec fn digits_value(s: Seq<u8>) -> int
    decreases s.len(),
{
    if s.len() == 0 {
        0
    } else {
        digits_value(s.drop_last()) * 10 + (s.last() - 48)
    }
}

/// The digits of a stored value: everything after an optional leading
/// plus sign (byte 43).
pub open spec fn digits_part(s: Seq<u8>) -> Seq<u8> {
    if s.len() > 0 && s[0] == 43 {
        s.subrange(1, s.len() as int)
    } else {
        s
    }
}

/// Whether `s` parses as a stored byte: at least one digit after the
/// optional sign, nothing but digits, and a value within a byte.
pub open spec fn parses_as_byte(s: Seq<u8>) -> bool {
    &&& digits_part(s).len() > 0
    &&& all_digits(digits_part(s))
    &&& digits_value(digits_part(s)) <= 255
}

/// The stored value one line of the corpus file denotes: its parsed byte,
/// or 0 when the line does not parse as one.
pub open spec fn parsed_value(s: Seq<u8>) -> u8 {
    if parses_as_byte(s) {
        digits_value(digits_part(s)) as u8
    } else {
        0u8
    }
}

/// A string of digits has a nonnegative value.
pub proof fn lemma_digits_value_nonneg(s: Seq<u8>)
    requires
        all_digits(s),
    ensures
        digits_value(s) >= 0,
    decreases s.len(),
{
    if s.len() > 0 {
        assert(all_digits(s.drop_last())) by {
            assert(forall|i: int|
                0 <= i < s.len() - 1 ==> #[trigger] s.drop_last()[i] == s[i]);
        }
        lemma_digits_value_nonneg(s.drop_last());
    }
}

/// Appending digits never shrinks the value: once a prefix exceeds a
/// bound, the whole string does.
pub proof fn lemma_digits_value_grows(s: Seq<u8>, j: int)
    requires
        0 <= j <= s.len(),
        all_digits(s),
    ensures
        digits_value(s) >= digits_value(s.subrange(0, j)),
    decreases s.len() - j,
{
    if j == s.len() {
        assert(s.subrange(0, j) =~= s);
    } else {
        assert(s.subrange(0, j + 1).drop_last() =~= s.subrange(0, j));
        assert(all_digits(s.subrange(0, j))) by {
            assert(forall|i: int|
                0 <= i < j ==> #[trigger] s.subrange(0, j)[i] == s[i]);
        }
        lemma_digits_value_nonneg(s.subrange(0, j));
        assert(digits_value(s.subrange(0, j + 1)) >= digits_value(s.subrange(0, j)));
        lemma_digits_value_grows(s, j + 1);
    }
}

/// Parse one line of the corpus file as a stored byte: an optional plus
/// sign, then decimal digits. A line that is empty, holds anything but
/// digits, or exceeds a byte gives the default value 0.
pub fn parse_stored_value(line: &Vec<u8>) -> (r: u8)
    ensures
        r == parsed_value(line@),
{
    let ghost s = line@;
    let start: usize = if line.len() > 0 && line[0] == 43 {
        1
    } else {
        0
    };
    proof {
        assert(digits_part(s) =~= s.subrange(start as int, s.len() as int));
    }
    if line.len() == start {
        return 0;
    }
    let mut acc: u32 = 0;
    let mut i: usize = start;
    while i < line.len()
        invariant
            start <= i <= s.len(),
            s == line@,
            digits_part(s) =~= s.subrange(start as int, s.len() as int),
            all_digits(s.subrange(start as int, i as int)),
            acc == digits_value(s.subrange(start as int, i as int)),
            acc <= 255,
        decreases s.len() - i,
    {
        let c = line[i];
        if c < 48 || c > 57 {
            proof {
                assert(!is_ascii_digit(digits_part(s)[i - start]));
            }
            return 0;
        }
        proof {
            assert(s.subrange(start as int, i + 1).drop_last() =~= s.subrange(
                start as int,
                i as int,
            ));
            assert(all_digits(s.subrange(start as int, i + 1))) by {
                assert(forall|k: int|
                    0 <= k < i + 1 - start ==> #[trigger] s.subrange(start as int, i + 1)[k]
                        == s[start + k]);
            }
        }
        acc = acc * 10 + ((c - 48) as u32);
        if acc > 255 {
            proof {
                if all_digits(digits_part(s)) {
                    assert(s.subrange(start as int, s.len() as int).subrange(0, i + 1 - start)
                        =~= s.subrange(start as int, i + 1));
                    lemma_digits_value_grows(digits_part(s), i + 1 - start);
                }
            }
            return 0;
        }
        i = i + 1;
    }
    proof {
        assert(s.subrange(start as int, s.len() as int) =~= s.subrange(start as int, i as int));
    }
    acc as u8
}

/// Overlay precedence: inside the window the logical record reads the
/// written byte; outside it, the base record. This is the law the write
/// path rests on.
pub proof fn lemma_overlay_precedence(d: CustomDataset, o: usize, v: Seq<u8>, i: int)
    requires
        d.wf(),
        d.overlay matches Overlay::Window { offset, values } && offset == o && values@ == v,
        0 <= i < d.spec_len(),
    ensures
        o <= i < o + v.len() ==> d.record_at(i).value == v[i - o],
        !(o <= i < o + v.len()) ==> d.record_at(i) == d.base@[i],
{
}

} // verus!
