//! The checkpoint record of a training configuration: a plain text form
//! that round-trips losslessly.
//!
//! The ten integer fields of the configuration are written as decimal
//! numbers, one per line. Parsing an arbitrary byte string yields the
//! configuration exactly when the string holds ten lines of digits whose
//! values fit their fields; parsing what `render_config` wrote always
//! yields the configuration it was given. The store that keeps the bytes
//! is outside the library.

use vstd::prelude::*;
use crate::dataloader::{all_digits, digits_value, is_ascii_digit, lemma_digits_value_grows,
    lemma_digits_value_nonneg};
use crate::model::ModelConfig;
use crate::trainer::{AdamParams, TrainingConfig};

verus! {

/// The decimal digits of `v`, most significant first.
pub open spec fn u64_digits(v: u64) -> Seq<u8>
    decreases v,
{
    if v < 10 {
        seq![(v + 48) as u8]
    } else {
        u64_digits(v / 10) + seq![((v % 10) + 48) as u8]
    }
}

/// The decimal digits of a number denote the number, and nothing in them
/// is a line break.
pub proof fn lemma_u64_digits(v: u64)
    ensures
        u64_digits(v).len() >= 1,
        all_digits(u64_digits(v)),
        digits_value(u64_digits(v)) == v,
    decreases v,
{
    if v < 10 {
        assert(u64_digits(v).drop_last() =~= Seq::<u8>::empty());
        assert(((v + 48) as u8) == v + 48);
        assert(u64_digits(v).last() == (v + 48) as u8);
        assert(digits_value(u64_digits(v)) == digits_value(Seq::<u8>::empty()) * 10 + ((v + 48)
            - 48));
    } else {
        lemma_u64_digits(v / 10);
        let d = u64_digits(v / 10);
        let t = (((v % 10) + 48) as u8);
        assert(t == (v % 10) + 48);
        assert((d + seq![t]).drop_last() =~= d);
        assert((d + seq![t]).last() == t);
        assert(digits_value(d + seq![t]) == digits_value(d) * 10 + (t - 48));
        assert(digits_value(d) * 10 + (v % 10) == (v / 10) * 10 + (v % 10));
        assert(all_digits(d + seq![t])) by {
            assert(forall|i: int|
                0 <= i < d.len() ==> (d + seq![t])[i] == d[i]);
        }
    }
}

/// The length of the first line of `s`: the bytes before the first line
/// break.
pub open spec fn seg_len(s: Seq<u8>) -> nat
    decreases s.len(),
{
    if s.len() == 0 {
        0
    } else if s[0] == 10 {
        0
    } else {
        1 + seg_len(s.drop_first())
    }
}

/// `s` cut at its line breaks: the lines of `s`, an empty `s` being one
/// empty line.
pub open spec fn split_lines(s: Seq<u8>) -> Seq<Seq<u8>>
    decreases s.len(),
{
    let l = seg_len(s) as int;
    if l >= s.len() {
        seq![s]
    } else {
        seq![s.take(l)] + split_lines(s.skip(l + 1))
    }
}

/// The first line of `s` ends exactly at the first line break (or at the
/// end of `s`).
pub proof fn lemma_seg_len_is(s: Seq<u8>, k: int)
    requires
        0 <= k <= s.len(),
        forall|i: int| 0 <= i < k ==> s[i] != 10,
        k == s.len() || s[k] == 10,
    ensures
        seg_len(s) == k,
    decreases k,
{
    if k > 0 {
        assert(forall|i: int| 0 <= i < k - 1 ==> s.drop_first()[i] == s[i + 1]);
        lemma_seg_len_is(s.drop_first(), k - 1);
    }
}

/// Splitting a line, a break and a rest gives the line, then the lines of
/// the rest.
pub proof fn lemma_split_prepend(seg: Seq<u8>, rest: Seq<u8>)
    requires
        forall|i: int| 0 <= i < seg.len() ==> seg[i] != 10,
    ensures
        split_lines(seg + seq![10u8] + rest) == seq![seg] + split_lines(rest),
{
    let s = seg + seq![10u8] + rest;
    assert(forall|i: int| 0 <= i < seg.len() ==> s[i] == seg[i]);
    assert(s[seg.len() as int] == 10);
    lemma_seg_len_is(s, seg.len() as int);
    assert(s.take(seg.len() as int) =~= seg);
    assert(s.skip(seg.len() as int + 1) =~= rest);
}

/// Lines joined by single line breaks.
pub open spec fn join_lines(ls: Seq<Seq<u8>>) -> Seq<u8>
    decreases ls.len(),
{
    if ls.len() == 0 {
        Seq::empty()
    } else if ls.len() == 1 {
        ls[0]
    } else {
        ls[0] + seq![10u8] + join_lines(ls.drop_first())
    }
}

/// Splitting joined break-free lines gives the lines back.
pub proof fn lemma_split_join(ls: Seq<Seq<u8>>)
    requires
        ls.len() >= 1,
        forall|k: int, i: int|
            0 <= k < ls.len() && 0 <= i < ls[k].len() ==> #[trigger] ls[k][i] != 10,
    ensures
        split_lines(join_lines(ls)) == ls,
    decreases ls.len(),
{
    if ls.len() == 1 {
        lemma_seg_len_is(ls[0], ls[0].len() as int);
        assert(split_lines(join_lines(ls)) =~~= ls);
    } else {
        let rest = ls.drop_first();
        assert(forall|k: int, i: int|
            0 <= k < rest.len() && 0 <= i < rest[k].len() ==> #[trigger] rest[k][i] == ls[k
                + 1][i]);
        lemma_split_join(rest);
        lemma_split_prepend(ls[0], join_lines(rest));
        assert(seq![ls[0]] + rest =~~= ls);
    }
}

/// Whether `s` is the decimal form of a 64-bit number: at least one
/// digit, nothing but digits, and a value that fits.
pub open spec fn parses_as_u64(s: Seq<u8>) -> bool {
    &&& s.len() > 0
    &&& all_digits(s)
    &&& digits_value(s) <= u64::MAX
}

/// The ten fields of a configuration, in the order they are written.
pub open spec fn field_values(c: TrainingConfig) -> Seq<u64> {
    seq![
        c.model.input_size as u64,
        c.model.output_size as u64,
        c.num_epochs as u64,
        c.batch_size as u64,
        c.num_workers as u64,
        c.seed,
        c.learning_rate_micros,
        c.optimizer.beta_1_micros,
        c.optimizer.beta_2_micros,
        c.optimizer.epsilon_nanos,
    ]
}

/// The rendered form of a configuration: its ten fields as decimal
/// numbers, one per line.
pub open spec fn render_spec(c: TrainingConfig) -> Seq<u8> {
    join_lines(field_values(c).map_values(|v: u64| u64_digits(v)))
}

/// The configuration a byte string denotes: its ten lines read as the
/// ten fields, or nothing when a line is missing, is not a number, or
/// does not fit its field.
pub open spec fn parse_spec(s: Seq<u8>) -> Option<TrainingConfig> {
    let segs = split_lines(s);
    if segs.len() == 10 && (forall|k: int| 0 <= k < 10 ==> parses_as_u64(#[trigger] segs[k]))
        && digits_value(segs[0]) <= usize::MAX && digits_value(segs[1]) <= usize::MAX
        && digits_value(segs[2]) <= usize::MAX && digits_value(segs[3]) <= usize::MAX
        && digits_value(segs[4]) <= usize::MAX {
        Some(
            TrainingConfig {
                model: ModelConfig {
                    input_size: digits_value(segs[0]) as usize,
                    output_size: digits_value(segs[1]) as usize,
                },
                num_epochs: digits_value(segs[2]) as usize,
                batch_size: digits_value(segs[3]) as usize,
                num_workers: digits_value(segs[4]) as usize,
                seed: digits_value(segs[5]) as u64,
                learning_rate_micros: digits_value(segs[6]) as u64,
                optimizer: AdamParams {
                    beta_1_micros: digits_value(segs[7]) as u64,
                    beta_2_micros: digits_value(segs[8]) as u64,
                    epsilon_nanos: digits_value(segs[9]) as u64,
                },
            },
        )
    } else {
        None
    }
}

/// No decimal digit is a line break.
proof fn lemma_digits_no_newline(v: u64)
    ensures
        forall|i: int| 0 <= i < u64_digits(v).len() ==> u64_digits(v)[i] != 10,
{
    lemma_u64_digits(v);
    assert forall|i: int| 0 <= i < u64_digits(v).len() implies u64_digits(v)[i] != 10 by {
        assert(is_ascii_digit(u64_digits(v)[i]));
    }
}

/// The checkpoint record round-trips: parsing what `render_config` wrote
/// for any configuration yields that configuration, losslessly.
pub proof fn lemma_config_roundtrip(c: TrainingConfig)
    ensures
        parse_spec(render_spec(c)) == Some(c),
{
    let fs = field_values(c);
    let ls = fs.map_values(|v: u64| u64_digits(v));
    assert forall|k: int, i: int|
        0 <= k < ls.len() && 0 <= i < ls[k].len() implies #[trigger] ls[k][i] != 10 by {
        lemma_digits_no_newline(fs[k]);
        assert(ls[k] == u64_digits(fs[k]));
    }
    lemma_split_join(ls);
    let segs = split_lines(render_spec(c));
    assert(segs == ls);
    assert forall|k: int| 0 <= k < 10 implies parses_as_u64(#[trigger] segs[k])
        && digits_value(segs[k]) == fs[k] by {
        lemma_u64_digits(fs[k]);
        assert(segs[k] == u64_digits(fs[k]));
    }
    assert(parse_spec(render_spec(c)) == Some(c));
}

/// Read the decimal number in `bytes[from .. to]`, or nothing when that
/// range is empty, holds a non-digit, or exceeds 64 bits.
fn parse_u64_digits(bytes: &Vec<u8>, from: usize, to: usize) -> (r: Option<u64>)
    requires
        from <= to <= bytes@.len(),
    ensures
        parses_as_u64(bytes@.subrange(from as int, to as int)) ==> r == Some(
            digits_value(bytes@.subrange(from as int, to as int)) as u64,
        ),
        !parses_as_u64(bytes@.subrange(from as int, to as int)) ==> r is None,
{
    let ghost seg = bytes@.subrange(from as int, to as int);
    if from == to {
        return None;
    }
    let mut acc: u64 = 0;
    let mut i: usize = from;
    while i < to
        invariant
            from <= i <= to <= bytes@.len(),
            seg == bytes@.subrange(from as int, to as int),
            all_digits(bytes@.subrange(from as int, i as int)),
            acc == digits_value(bytes@.subrange(from as int, i as int)),
        decreases to - i,
    {
        let c = bytes[i];
        if c < 48 || c > 57 {
            proof {
                assert(!is_ascii_digit(seg[i - from]));
            }
            return None;
        }
        let d = (c - 48) as u64;
        proof {
            vstd::arithmetic::div_mod::lemma_fundamental_div_mod((u64::MAX - d) as int, 10);
            assert(bytes@.subrange(from as int, i as int + 1).drop_last() =~= bytes@.subrange(
                from as int,
                i as int,
            ));
            assert(all_digits(bytes@.subrange(from as int, i as int + 1))) by {
                assert(forall|k: int|
                    0 <= k < i + 1 - from ==> #[trigger] bytes@.subrange(
                        from as int,
                        i as int + 1,
                    )[k] == bytes@[from + k]);
            }
        }
        if acc > (u64::MAX - d) / 10 {
            proof {
                if all_digits(seg) {
                    assert(seg.subrange(0, i as int + 1 - from) =~= bytes@.subrange(
                        from as int,
                        i as int + 1,
                    ));
                    lemma_digits_value_grows(seg, i as int + 1 - from);
                }
            }
            return None;
        }
        acc = acc * 10 + d;
        i = i + 1;
    }
    proof {
        assert(seg =~= bytes@.subrange(from as int, i as int));
    }
    Some(acc)
}

/// Read a checkpoint record back: the configuration it denotes, or
/// nothing when the bytes are not a well-formed record.
pub fn parse_config(bytes: &Vec<u8>) -> (r: Option<TrainingConfig>)
    ensures
        r == parse_spec(bytes@),
{
    let ghost s = bytes@;
    let n = bytes.len();
    let mut vals: Vec<u64> = Vec::new();
    let ghost mut done: Seq<Seq<u8>> = Seq::empty();
    let mut pos: usize = 0;
    let mut finished = false;
    proof {
        assert(s.skip(0) =~= s);
        assert(Seq::<Seq<u8>>::empty() + split_lines(s) =~~= split_lines(s));
    }
    while !finished
        invariant
            s == bytes@,
            n == s.len(),
            pos <= n,
            !finished ==> split_lines(s) == done + split_lines(s.skip(pos as int)),
            finished ==> split_lines(s) == done,
            vals@.len() == done.len(),
            forall|k: int|
                0 <= k < done.len() ==> parses_as_u64(#[trigger] done[k]) && vals@[k]
                    == digits_value(done[k]),
        decreases n - pos + (if finished {
            0int
        } else {
            1int
        }),
    {
        let mut e = pos;
        while e < n && bytes[e] != 10
            invariant
                s == bytes@,
                n == s.len(),
                pos <= e <= n,
                forall|k: int| pos <= k < e ==> s[k] != 10,
            decreases n - e,
        {
            e = e + 1;
        }
        let ghost seg = s.subrange(pos as int, e as int);
        let ghost tail = s.skip(pos as int);
        proof {
            assert(forall|i: int| 0 <= i < tail.len() ==> tail[i] == s[pos + i]);
            lemma_seg_len_is(tail, e as int - pos as int);
            assert(tail.take(e as int - pos as int) =~= seg);
        }
        let v = match parse_u64_digits(bytes, pos, e) {
            Some(v) => v,
            None => {
                proof {
                    assert(split_lines(tail)[0] == seg);
                    assert(split_lines(s)[done.len() as int] == seg);
                    assert(!parses_as_u64(split_lines(s)[done.len() as int]));
                    assert(done.len() < split_lines(s).len());
                    assert(parse_spec(s) is None);
                }
                return None;
            },
        };
        vals.push(v);
        proof {
            done = done + seq![seg];
            lemma_digits_value_nonneg(seg);
            assert(parses_as_u64(seg));
            assert(v as int == digits_value(seg));
            assert(done[done.len() - 1] == seg);
        }
        if e == n {
            finished = true;
            proof {
                assert(split_lines(tail) =~~= seq![seg]);
                assert(split_lines(s) =~~= done);
            }
        } else {
            proof {
                assert(tail.skip(e as int - pos as int + 1) =~= s.skip(e as int + 1));
                assert(split_lines(tail) =~~= seq![seg] + split_lines(s.skip(e as int + 1)));
                assert(split_lines(s) =~~= done + split_lines(s.skip(e as int + 1)));
            }
            pos = e + 1;
        }
    }
    if vals.len() != 10 {
        return None;
    }
    let i0 = vals[0];
    let i1 = vals[1];
    let i2 = vals[2];
    let i3 = vals[3];
    let i4 = vals[4];
    if i0 > usize::MAX as u64 || i1 > usize::MAX as u64 || i2 > usize::MAX as u64 || i3
        > usize::MAX as u64 || i4 > usize::MAX as u64 {
        return None;
    }
    Some(
        TrainingConfig {
            model: ModelConfig { input_size: i0 as usize, output_size: i1 as usize },
            num_epochs: i2 as usize,
            batch_size: i3 as usize,
            num_workers: i4 as usize,
            seed: vals[5],
            learning_rate_micros: vals[6],
            optimizer: AdamParams {
                beta_1_micros: vals[7],
                beta_2_micros: vals[8],
                epsilon_nanos: vals[9],
            },
        },
    )
}

/// Append the decimal digits of `v`.
fn push_decimal(v: u64, out: &mut Vec<u8>)
    ensures
        final(out)@ == old(out)@ + u64_digits(v),
    decreases v,
{
    if v < 10 {
        out.push((v as u8) + 48);
        proof {
            assert(out@ =~= old(out)@ + u64_digits(v));
        }

    } else {
        push_decimal(v / 10, out);
        out.push(((v % 10) as u8) + 48);
        proof {
            assert(out@ =~= old(out)@ + u64_digits(v));
        }
    }
}

/// The rendered form written out as one flat concatenation.
#[verifier::rlimit(100)]
proof fn lemma_render_unfold(c: TrainingConfig)
    ensures
        render_spec(c) == u64_digits(c.model.input_size as u64) + seq![10u8] + u64_digits(c.model.output_size as u64)
        + seq![10u8] + u64_digits(c.num_epochs as u64) + seq![10u8] + u64_digits(
        c.batch_size as u64,
    ) + seq![10u8] + u64_digits(c.num_workers as u64) + seq![10u8] + u64_digits(c.seed)
        + seq![10u8] + u64_digits(c.learning_rate_micros) + seq![10u8] + u64_digits(
        c.optimizer.beta_1_micros,
    ) + seq![10u8] + u64_digits(c.optimizer.beta_2_micros) + seq![10u8] + u64_digits(
        c.optimizer.epsilon_nanos,
    ),
{
    let a0 = u64_digits(c.model.input_size as u64);
    let a1 = u64_digits(c.model.output_size as u64);
    let a2 = u64_digits(c.num_epochs as u64);
    let a3 = u64_digits(c.batch_size as u64);
    let a4 = u64_digits(c.num_workers as u64);
    let a5 = u64_digits(c.seed);
    let a6 = u64_digits(c.learning_rate_micros);
    let a7 = u64_digits(c.optimizer.beta_1_micros);
    let a8 = u64_digits(c.optimizer.beta_2_micros);
    let a9 = u64_digits(c.optimizer.epsilon_nanos);
    let l9 = seq![a9];
    let l8 = seq![a8, a9];
    let l7 = seq![a7, a8, a9];
    let l6 = seq![a6, a7, a8, a9];
    let l5 = seq![a5, a6, a7, a8, a9];
    let l4 = seq![a4, a5, a6, a7, a8, a9];
    let l3 = seq![a3, a4, a5, a6, a7, a8, a9];
    let l2 = seq![a2, a3, a4, a5, a6, a7, a8, a9];
    let l1 = seq![a1, a2, a3, a4, a5, a6, a7, a8, a9];
    let l0 = seq![a0, a1, a2, a3, a4, a5, a6, a7, a8, a9];
    assert(field_values(c).map_values(|v: u64| u64_digits(v)) =~~= l0);
    assert(l0.drop_first() =~~= l1);
    assert(l1.drop_first() =~~= l2);
    assert(l2.drop_first() =~~= l3);
    assert(l3.drop_first() =~~= l4);
    assert(l4.drop_first() =~~= l5);
    assert(l5.drop_first() =~~= l6);
    assert(l6.drop_first() =~~= l7);
    assert(l7.drop_first() =~~= l8);
    assert(l8.drop_first() =~~= l9);
    assert(join_lines(l9) == a9);
    let nl = seq![10u8];
    let f8 = a8 + nl + a9;
    let f7 = a7 + nl + f8;
    let f6 = a6 + nl + f7;
    let f5 = a5 + nl + f6;
    let f4 = a4 + nl + f5;
    let f3 = a3 + nl + f4;
    let f2 = a2 + nl + f3;
    let f1 = a1 + nl + f2;
    let f0 = a0 + nl + f1;
    assert(join_lines(l8) == f8);
    assert(join_lines(l7) == f7);
    assert(join_lines(l6) == f6);
    assert(join_lines(l5) == f5);
    assert(join_lines(l4) == f4);
    assert(join_lines(l3) == f3);
    assert(join_lines(l2) == f2);
    assert(join_lines(l1) == f1);
    assert(join_lines(l0) == f0);
    assert(render_spec(c) == f0);
    let g0 = a0;
    let g1 = g0 + nl + a1;
    let g2 = g1 + nl + a2;
    let g3 = g2 + nl + a3;
    let g4 = g3 + nl + a4;
    let g5 = g4 + nl + a5;
    let g6 = g5 + nl + a6;
    let g7 = g6 + nl + a7;
    let g8 = g7 + nl + a8;
    let g9 = g8 + nl + a9;
    assert(g0 + nl + f1 =~= g1 + nl + f2);
    assert(g1 + nl + f2 =~= g2 + nl + f3);
    assert(g2 + nl + f3 =~= g3 + nl + f4);
    assert(g3 + nl + f4 =~= g4 + nl + f5);
    assert(g4 + nl + f5 =~= g5 + nl + f6);
    assert(g5 + nl + f6 =~= g6 + nl + f7);
    assert(g6 + nl + f7 =~= g7 + nl + f8);
    assert(g7 + nl + f8 =~= g8 + nl + a9);
    assert(f0 == g0 + nl + f1);
    assert(g8 + nl + a9 == g9);
    assert(render_spec(c) == g9);
}

/// Write the checkpoint record of a configuration: its ten fields as
/// decimal numbers, one per line.
pub fn render_config(c: &TrainingConfig) -> (r: Vec<u8>)
    ensures
        r@ == render_spec(*c),
{
    let mut out: Vec<u8> = Vec::new();
    push_decimal(c.model.input_size as u64, &mut out);
    out.push(10);
    push_decimal(c.model.output_size as u64, &mut out);
    out.push(10);
    push_decimal(c.num_epochs as u64, &mut out);
    out.push(10);
    push_decimal(c.batch_size as u64, &mut out);
    out.push(10);
    push_decimal(c.num_workers as u64, &mut out);
    out.push(10);
    push_decimal(c.seed, &mut out);
    out.push(10);
    push_decimal(c.learning_rate_micros, &mut out);
    out.push(10);
    push_decimal(c.optimizer.beta_1_micros, &mut out);
    out.push(10);
    push_decimal(c.optimizer.beta_2_micros, &mut out);
    out.push(10);
    push_decimal(c.optimizer.epsilon_nanos, &mut out);
    proof {
        lemma_render_unfold(*c);
        assert(out@ =~= u64_digits(c.model.input_size as u64) + seq![10u8] + u64_digits(c.model.output_size as u64)
        + seq![10u8] + u64_digits(c.num_epochs as u64) + seq![10u8] + u64_digits(
        c.batch_size as u64,
    ) + seq![10u8] + u64_digits(c.num_workers as u64) + seq![10u8] + u64_digits(c.seed)
        + seq![10u8] + u64_digits(c.learning_rate_micros) + seq![10u8] + u64_digits(
        c.optimizer.beta_1_micros,
    ) + seq![10u8] + u64_digits(c.optimizer.beta_2_micros) + seq![10u8] + u64_digits(
        c.optimizer.epsilon_nanos,
    ));
    }
    out
}

} // verus!
