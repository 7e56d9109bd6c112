//! Batch decoders: one stateful pull cursor per column, invoked repeatedly
//! with a requested batch size and an inherited parent presence mask. Each
//! call accounts for exactly `batch_size` logical rows while physically
//! consuming stream values only for the rows that are present.
use vstd::prelude::*;
use std::sync::Arc;

use crate::column::{children_error, Column};
use crate::copy_values;
use crate::error::{ErrorKind, OrcError};
use crate::field::{Field, FieldType};
use crate::pull::Pull;
use crate::schema::DataType;
use crate::share;

verus! {

/// How many entries of `s` are true.
pub open spec fn count_true(s: Seq<bool>) -> int
    decreases s.len(),
{
    if s.len() == 0 {
        0
    } else {
        (if s[0] {
            1int
        } else {
            0int
        }) + count_true(s.drop_first())
    }
}

pub proof fn lemma_count_true_push(s: Seq<bool>, b: bool)
    ensures
        count_true(s.push(b)) == count_true(s) + (if b {
            1int
        } else {
            0int
        }),
    decreases s.len(),
{
    if s.len() == 0 {
        assert(s.push(b).drop_first() =~= Seq::<bool>::empty());
        assert(count_true(Seq::<bool>::empty()) == 0);
        assert(s.push(b)[0] == b);
    } else {
        lemma_count_true_push(s.drop_first(), b);
        assert(s.push(b).drop_first() =~= s.drop_first().push(b));
        assert(s.push(b)[0] == s[0]);
    }
}

pub proof fn lemma_count_true_bounds(s: Seq<bool>)
    ensures
        0 <= count_true(s) <= s.len(),
    decreases s.len(),
{
    if s.len() > 0 {
        lemma_count_true_bounds(s.drop_first());
    }
}

pub proof fn lemma_count_true_take_succ(s: Seq<bool>, i: int)
    requires
        0 <= i < s.len(),
    ensures
        count_true(s.take(i + 1)) == count_true(s.take(i)) + (if s[i] {
            1int
        } else {
            0int
        }),
{
    assert(s.take(i + 1) =~= s.take(i).push(s[i]));
    lemma_count_true_push(s.take(i), s[i]);
}

pub proof fn lemma_count_true_split(s: Seq<bool>, j: int)
    requires
        0 <= j <= s.len(),
    ensures
        count_true(s) == count_true(s.take(j)) + count_true(s.skip(j)),
    decreases j,
{
    if j == 0 {
        assert(s.take(0) =~= Seq::<bool>::empty());
        assert(s.skip(0) =~= s);
    } else {
        lemma_count_true_split(s.drop_first(), j - 1);
        assert(s.take(j).drop_first() =~= s.drop_first().take(j - 1));
        assert(s.skip(j) =~= s.drop_first().skip(j - 1));
    }
}

/// A prefix's count leaves room for position `i`'s own contribution.
pub proof fn lemma_count_true_take_bound(s: Seq<bool>, i: int)
    requires
        0 <= i < s.len(),
    ensures
        count_true(s.take(i)) + (if s[i] {
            1int
        } else {
            0int
        }) <= count_true(s),
        count_true(s.take(i)) >= 0,
{
    lemma_count_true_take_succ(s, i);
    lemma_count_true_split(s, i + 1);
    lemma_count_true_bounds(s.skip(i + 1));
    lemma_count_true_bounds(s.take(i));
}

/// Counts the present (true) entries of a mask.
pub fn count_present(v: &Vec<bool>) -> (r: usize)
    ensures
        r as int == count_true(v@),
{
    let mut i: usize = 0;
    let mut c: usize = 0;
    while i < v.len()
        invariant
            i <= v@.len(),
            c <= i,
            c as int == count_true(v@.take(i as int)),
        decreases v@.len() - i,
    {
        proof {
            lemma_count_true_take_succ(v@, i as int);
        }
        if v[i] {
            c = c + 1;
        }
        i = i + 1;
    }
    proof {
        assert(v@.take(v@.len() as int) =~= v@);
    }
    c
}

/// Redistributes one value per present slot back into a full-length sequence,
/// with `dflt` at absent slots, in original row order.
pub open spec fn scatter<T>(vals: Seq<T>, mask: Seq<bool>, dflt: T) -> Seq<T> {
    Seq::new(mask.len(), |i: int| if mask[i] {
        vals[count_true(mask.take(i))]
    } else {
        dflt
    })
}

/// Executable form of `scatter`.
pub fn scatter_exec<T: Copy>(vals: &Vec<T>, mask: &Vec<bool>, dflt: T) -> (r: Vec<T>)
    requires
        vals@.len() == count_true(mask@),
    ensures
        r@ == scatter(vals@, mask@, dflt),
        r@.len() == mask@.len(),
{
    let mut out: Vec<T> = Vec::new();
    let mut i: usize = 0;
    let mut j: usize = 0;
    while i < mask.len()
        invariant
            i <= mask@.len(),
            j <= i,
            j as int == count_true(mask@.take(i as int)),
            vals@.len() == count_true(mask@),
            out@.len() == i,
            forall|k: int| 0 <= k < i ==> out@[k] == scatter(vals@, mask@, dflt)[k],
        decreases mask@.len() - i,
    {
        proof {
            lemma_count_true_take_succ(mask@, i as int);
            lemma_count_true_take_bound(mask@, i as int);
        }
        if mask[i] {
            out.push(vals[j]);
            j = j + 1;
        } else {
            out.push(dflt);
        }
        i = i + 1;
    }
    proof {
        assert(out@ =~= scatter(vals@, mask@, dflt));
    }
    out
}

/// The total of a sequence of lengths.
pub open spec fn sum_of(s: Seq<u64>) -> int
    decreases s.len(),
{
    if s.len() == 0 {
        0
    } else {
        s[0] + sum_of(s.drop_first())
    }
}

pub proof fn lemma_sum_of_nonneg(s: Seq<u64>)
    ensures
        sum_of(s) >= 0,
    decreases s.len(),
{
    if s.len() > 0 {
        lemma_sum_of_nonneg(s.drop_first());
    }
}

pub proof fn lemma_sum_of_push(s: Seq<u64>, x: u64)
    ensures
        sum_of(s.push(x)) == sum_of(s) + x,
    decreases s.len(),
{
    if s.len() == 0 {
        assert(s.push(x).drop_first() =~= Seq::<u64>::empty());
        assert(sum_of(Seq::<u64>::empty()) == 0);
        assert(s.push(x)[0] == x);
    } else {
        lemma_sum_of_push(s.drop_first(), x);
        assert(s.push(x).drop_first() =~= s.drop_first().push(x));
        assert(s.push(x)[0] == s[0]);
    }
}

pub proof fn lemma_sum_of_take_succ(s: Seq<u64>, i: int)
    requires
        0 <= i < s.len(),
    ensures
        sum_of(s.take(i + 1)) == sum_of(s.take(i)) + s[i],
{
    assert(s.take(i + 1) =~= s.take(i).push(s[i]));
    lemma_sum_of_push(s.take(i), s[i]);
}

pub proof fn lemma_sum_of_split(s: Seq<u64>, j: int)
    requires
        0 <= j <= s.len(),
    ensures
        sum_of(s) == sum_of(s.take(j)) + sum_of(s.skip(j)),
    decreases j,
{
    if j == 0 {
        assert(s.take(0) =~= Seq::<u64>::empty());
        assert(s.skip(0) =~= s);
    } else {
        lemma_sum_of_split(s.drop_first(), j - 1);
        assert(s.take(j).drop_first() =~= s.drop_first().take(j - 1));
        assert(s.skip(j) =~= s.drop_first().skip(j - 1));
    }
}

/// Scattering lengths over a mask preserves their total: absent slots add zero.
pub proof fn lemma_sum_scatter(l: Seq<u64>, p: Seq<bool>)
    requires
        l.len() == count_true(p),
    ensures
        sum_of(scatter(l, p, 0u64)) == sum_of(l),
    decreases p.len(),
{
    if p.len() == 0 {
        assert(scatter(l, p, 0u64) =~= Seq::<u64>::empty());
        lemma_count_true_bounds(p);
        assert(l =~= Seq::<u64>::empty());
    } else {
        let p0 = p.drop_last();
        let b = p.last();
        assert(p =~= p0.push(b));
        lemma_count_true_push(p0, b);
        lemma_count_true_bounds(p0);
        let l0 = l.take(count_true(p0));
        lemma_sum_scatter(l0, p0);
        assert forall|i: int| 0 <= i < p0.len() implies scatter(l, p, 0u64)[i] == scatter(
            l0,
            p0,
            0u64,
        )[i] by {
            assert(p.take(i) =~= p0.take(i));
            if p0[i] {
                lemma_count_true_take_bound(p0, i);
            }
        }
        assert(scatter(l, p, 0u64).drop_last() =~= scatter(l0, p0, 0u64));
        assert(p.take(p.len() - 1) =~= p0);
        if b {
            let x = l[count_true(p0)];
            assert(scatter(l, p, 0u64) =~= scatter(l0, p0, 0u64).push(x));
            lemma_sum_of_push(scatter(l0, p0, 0u64), x);
            assert(l =~= l0.push(x));
            lemma_sum_of_push(l0, x);
        } else {
            assert(scatter(l, p, 0u64) =~= scatter(l0, p0, 0u64).push(0u64));
            lemma_sum_of_push(scatter(l0, p0, 0u64), 0u64);
            assert(l0 =~= l);
        }
    }
}

/// The monotone offsets of a length sequence: entry `i` is the total of the
/// first `i` lengths, so there is always one more offset than lengths.
pub open spec fn offsets_of(lengths: Seq<u64>) -> Seq<int> {
    Seq::new(lengths.len() + 1, |i: int| sum_of(lengths.take(i)))
}

/// Builds the offsets of a full-batch length sequence; offsets over absent
/// rows are flat. Fails only if the total overflows the offset type.
pub fn offsets_from_lengths(lengths: &Vec<u64>) -> (r: Result<Vec<u64>, OrcError>)
    ensures
        match r {
            Ok(off) => {
                &&& sum_of(lengths@) <= u64::MAX
                &&& off@.len() == lengths@.len() + 1
                &&& forall|i: int| 0 <= i <= lengths@.len() ==> (#[trigger] off@[i]) as int
                    == offsets_of(lengths@)[i]
            },
            Err(e) => {
                &&& sum_of(lengths@) > u64::MAX
                &&& e.kind_spec() == ErrorKind::Unexpected
            },
        },
{
    let mut off: Vec<u64> = Vec::new();
    let mut acc: u64 = 0;
    off.push(0);
    let mut i: usize = 0;
    proof {
        assert(lengths@.take(0) =~= Seq::<u64>::empty());
    }
    while i < lengths.len()
        invariant
            i <= lengths@.len(),
            acc as int == sum_of(lengths@.take(i as int)),
            off@.len() == i + 1,
            forall|j: int| 0 <= j <= i ==> (#[trigger] off@[j]) as int == sum_of(
                lengths@.take(j),
            ),
        decreases lengths@.len() - i,
    {
        proof {
            lemma_sum_of_take_succ(lengths@, i as int);
        }
        let l = lengths[i];
        if l > u64::MAX - acc {
            proof {
                lemma_sum_of_split(lengths@, i as int + 1);
                lemma_sum_of_nonneg(lengths@.skip(i as int + 1));
            }
            return Err(OrcError::Unexpected);
        }
        acc = acc + l;
        off.push(acc);
        i = i + 1;
    }
    proof {
        assert(lengths@.take(lengths@.len() as int) =~= lengths@);
    }
    Ok(off)
}

/// Rebuilds a full batch-length sequence from one pulled length per present
/// row, inserting zero at every absent row, in original row order.
pub fn populate_lengths_with_nulls(
    lengths: &Vec<u64>,
    batch_size: usize,
    present: &Option<Vec<bool>>,
) -> (r: Vec<u64>)
    requires
        match present {
            Some(p) => p@.len() == batch_size && lengths@.len() == count_true(p@),
            None => lengths@.len() == batch_size,
        },
    ensures
        r@.len() == batch_size,
        r@ == match present {
            Some(p) => scatter(lengths@, p@, 0u64),
            None => lengths@,
        },
{
    match present {
        Some(p) => scatter_exec(lengths, p, 0u64),
        None => copy_values(lengths),
    }
}

/// The parent mask as a spec value.
pub open spec fn parent_view(p: Option<&Vec<bool>>) -> Option<Seq<bool>> {
    match p {
        Some(v) => Some(v@),
        None => None,
    }
}

/// The column's own presence stream contents as a spec value.
pub open spec fn own_view(p: Option<Pull<bool>>) -> Option<Seq<bool>> {
    match p {
        Some(pl) => Some(pl.remaining()),
        None => None,
    }
}

/// Merging an own presence stream under a parent mask: a row is present only
/// where the parent says so and the own stream, consumed once per
/// parent-present row, confirms it.
pub open spec fn merged_mask(own: Seq<bool>, parent: Seq<bool>) -> Seq<bool> {
    Seq::new(parent.len(), |i: int| parent[i] && own[count_true(parent.take(i))])
}

/// The effective mask a derivation yields, when it succeeds.
pub open spec fn mask_of(own: Option<Seq<bool>>, parent: Option<Seq<bool>>, n: int) -> Option<
    Seq<bool>,
> {
    match (own, parent) {
        (Some(o), Some(par)) => Some(merged_mask(o, par)),
        (Some(o), None) => Some(o.take(n)),
        (None, Some(par)) => Some(par),
        (None, None) => None,
    }
}

/// Whether a derivation succeeds: the own stream holds enough entries.
pub open spec fn mask_ok(own: Option<Seq<bool>>, parent: Option<Seq<bool>>, n: int) -> bool {
    match (own, parent) {
        (Some(o), Some(par)) => count_true(par) <= o.len(),
        (Some(o), None) => n <= o.len(),
        _ => true,
    }
}

/// How many own-presence entries a successful derivation consumes.
pub open spec fn mask_consumed(own: Option<Seq<bool>>, parent: Option<Seq<bool>>, n: int) -> int {
    match (own, parent) {
        (Some(_), Some(par)) => count_true(par),
        (Some(_), None) => n,
        _ => 0,
    }
}

/// How many physical values a decoder must pull for a batch under a mask.
pub open spec fn present_count(mask: Option<Seq<bool>>, n: int) -> int {
    match mask {
        Some(m) => count_true(m),
        None => n,
    }
}

/// An optional mask as a spec value.
pub open spec fn opt_mask_view(m: Option<Vec<bool>>) -> Option<Seq<bool>> {
    match m {
        Some(v) => Some(v@),
        None => None,
    }
}

/// The two presence cursors relate as before/after a derivation consuming `k`.
pub open spec fn own_advanced(
    before: Option<Pull<bool>>,
    after: Option<Pull<bool>>,
    k: int,
) -> bool {
    match (before, after) {
        (Some(b), Some(a)) => a.wf() && a.remaining() == b.remaining().skip(k),
        (None, None) => true,
        _ => false,
    }
}

/// Derives the effective presence mask for one batch: positions the parent
/// marks absent are absent without consuming the own stream; where the parent
/// is present (or absent itself), the own stream decides; with neither stream
/// the batch has no mask at all.
#[verifier::loop_isolation(false)]
pub fn derive_present_vec(
    present: &mut Option<Pull<bool>>,
    parent_present: Option<&Vec<bool>>,
    batch_size: usize,
) -> (r: Result<Option<Vec<bool>>, OrcError>)
    requires
        (*old(present) matches Some(p) ==> p.wf()),
        (parent_present matches Some(pp) ==> pp@.len() == batch_size),
    ensures
        ({
            let own0 = own_view(*old(present));
            let par = parent_view(parent_present);
            &&& (r is Ok <==> mask_ok(own0, par, batch_size as int))
            &&& match r {
                Ok(m) => {
                    &&& opt_mask_view(m) == mask_of(own0, par, batch_size as int)
                    &&& (m matches Some(mv) ==> mv@.len() == batch_size)
                    &&& own_advanced(
                        *old(present),
                        *final(present),
                        mask_consumed(own0, par, batch_size as int),
                    )
                },
                Err(e) => {
                    &&& e.kind_spec() == ErrorKind::Io
                    &&& own_advanced(*old(present), *final(present), 0)
                },
            }
        }),
{
    let own = present.take();
    match own {
        Some(mut p) => {
            let ghost p0 = p;
            proof {
                assert(p0.remaining().skip(0) =~= p0.remaining());
            }
            let res: Result<Option<Vec<bool>>, OrcError> = match parent_present {
                Some(par) => {
                    let k = count_present(par);
                    match p.take_exact(k) {
                        Ok(pulled) => {
                            let mut m: Vec<bool> = Vec::new();
                            let mut i: usize = 0;
                            let mut j: usize = 0;
                            while i < batch_size
                                invariant
                                    i <= batch_size,
                                    j <= i,
                                    j as int == count_true(par@.take(i as int)),
                                    m@.len() == i,
                                    forall|t: int| 0 <= t < i ==> m@[t] == merged_mask(
                                        p0.remaining(),
                                        par@,
                                    )[t],
                                decreases batch_size - i,
                            {
                                proof {
                                    lemma_count_true_take_succ(par@, i as int);
                                    lemma_count_true_take_bound(par@, i as int);
                                }
                                if par[i] {
                                    m.push(pulled[j]);
                                    j = j + 1;
                                } else {
                                    m.push(false);
                                }
                                i = i + 1;
                            }
                            proof {
                                assert(m@ =~= merged_mask(p0.remaining(), par@));
                            }
                            Ok(Some(m))
                        },
                        Err(e) => Err(e),
                    }
                },
                None => match p.take_exact(batch_size) {
                    Ok(pulled) => Ok(Some(pulled)),
                    Err(e) => Err(e),
                },
            };
            *present = Some(p);
            res
        },
        None => match parent_present {
            Some(par) => Ok(Some(copy_values(par))),
            None => Ok(None),
        },
    }
}

/// One decoded columnar array with its optional validity mask: true entries
/// of the mask hold values, false entries are null.
#[derive(Debug)]
pub enum DecodedArray {
    Primitive { values: Vec<i64>, nulls: Option<Vec<bool>> },
    List { offsets: Vec<u64>, elements: Box<DecodedArray>, nulls: Option<Vec<bool>> },
    Mapping {
        offsets: Vec<u64>,
        keys: Box<DecodedArray>,
        vals: Box<DecodedArray>,
        nulls: Option<Vec<bool>>,
    },
    Struct { number_of_rows: usize, children: Vec<DecodedArray>, nulls: Option<Vec<bool>> },
}

impl DecodedArray {
    pub open spec fn num_rows(&self) -> int {
        match self {
            DecodedArray::Primitive { values, .. } => values@.len() as int,
            DecodedArray::List { offsets, .. } => offsets@.len() - 1,
            DecodedArray::Mapping { offsets, .. } => offsets@.len() - 1,
            DecodedArray::Struct { number_of_rows, .. } => *number_of_rows as int,
        }
    }

    pub open spec fn nulls_view(&self) -> Option<Seq<bool>> {
        match self {
            DecodedArray::Primitive { nulls, .. } => opt_mask_view(*nulls),
            DecodedArray::List { nulls, .. } => opt_mask_view(*nulls),
            DecodedArray::Mapping { nulls, .. } => opt_mask_view(*nulls),
            DecodedArray::Struct { nulls, .. } => opt_mask_view(*nulls),
        }
    }

    /// Row `i` holds a value; without a validity mask every row does.
    pub open spec fn present_at(&self, i: int) -> bool {
        match self.nulls_view() {
            Some(n) => n[i],
            None => true,
        }
    }

    /// Offsets start at zero and grow monotonically, the final offset matches
    /// the child array's length, every validity mask has one entry per row,
    /// and all of this holds recursively.
    pub open spec fn well_formed(&self) -> bool
        decreases *self,
    {
        match self {
            DecodedArray::Primitive { values, nulls } => match nulls {
                Some(n) => n@.len() == values@.len(),
                None => true,
            },
            DecodedArray::List { offsets, elements, nulls } => {
                &&& offsets@.len() >= 1
                &&& offsets@[0] == 0
                &&& forall|i: int| 0 <= i < offsets@.len() - 1 ==> (#[trigger] offsets@[i])
                    <= offsets@[i + 1]
                &&& offsets@[offsets@.len() - 1] as int == elements.num_rows()
                &&& elements.well_formed()
                &&& match nulls {
                    Some(n) => n@.len() == offsets@.len() - 1,
                    None => true,
                }
            },
            DecodedArray::Mapping { offsets, keys, vals, nulls } => {
                &&& offsets@.len() >= 1
                &&& offsets@[0] == 0
                &&& forall|i: int| 0 <= i < offsets@.len() - 1 ==> (#[trigger] offsets@[i])
                    <= offsets@[i + 1]
                &&& offsets@[offsets@.len() - 1] as int == keys.num_rows()
                &&& keys.num_rows() == vals.num_rows()
                &&& keys.well_formed()
                &&& vals.well_formed()
                &&& match nulls {
                    Some(n) => n@.len() == offsets@.len() - 1,
                    None => true,
                }
            },
            DecodedArray::Struct { number_of_rows, children, nulls } => {
                &&& arrays_wf(children@, *number_of_rows as int)
                &&& match nulls {
                    Some(n) => n@.len() == *number_of_rows,
                    None => true,
                }
            },
        }
    }
}

/// Every array of `s` is well formed and holds exactly `rows` rows.
pub open spec fn arrays_wf(s: Seq<DecodedArray>, rows: int) -> bool
    decreases s,
{
    s.len() == 0 || (s[0].well_formed() && s[0].num_rows() == rows && arrays_wf(
        s.drop_first(),
        rows,
    ))
}

pub proof fn lemma_arrays_wf(s: Seq<DecodedArray>, rows: int)
    requires
        forall|i: int| 0 <= i < s.len() ==> (#[trigger] s[i]).well_formed() && s[i].num_rows()
            == rows,
    ensures
        arrays_wf(s, rows),
    decreases s.len(),
{
    if s.len() > 0 {
        assert(s[0].well_formed() && s[0].num_rows() == rows);
        assert forall|i: int| 0 <= i < s.drop_first().len() implies (#[trigger] s.drop_first()[
            i
        ]).well_formed() && s.drop_first()[i].num_rows() == rows by {
            assert(s.drop_first()[i] == s[i + 1]);
        }
        lemma_arrays_wf(s.drop_first(), rows);
    }
}

pub open spec fn opt_pull_wf(p: Option<Pull<bool>>) -> bool {
    match p {
        Some(q) => q.wf(),
        None => true,
    }
}

/// Decodes one primitive column: an optional presence stream and a data
/// stream of typed values.
#[derive(Debug)]
pub struct PrimitiveArrayDecoder {
    pub present: Option<Pull<bool>>,
    pub data: Pull<i64>,
}

/// Decodes one dictionary-encoded column: a pre-loaded dictionary of distinct
/// values and a per-row index stream referencing it.
#[derive(Debug)]
pub struct DictionaryArrayDecoder {
    pub dictionary: Vec<i64>,
    pub indexes: Pull<u64>,
    pub present: Option<Pull<bool>>,
}

/// Decodes one list column: an inner element decoder, an optional presence
/// stream, a length stream holding one length per present row, and the
/// output element field.
#[derive(Debug)]
pub struct ListArrayDecoder {
    pub inner: Box<ArrayBatchDecoder>,
    pub present: Option<Pull<bool>>,
    pub lengths: Pull<u64>,
    pub field: Arc<Field>,
}

/// Decodes one map column: the list algorithm with a two-part child — a key
/// decoder and a value decoder, each asked for exactly the total entry count.
#[derive(Debug)]
pub struct MapArrayDecoder {
    pub keys: Box<ArrayBatchDecoder>,
    pub vals: Box<ArrayBatchDecoder>,
    pub present: Option<Pull<bool>>,
    pub lengths: Pull<u64>,
}

/// Decodes one struct column: every child decodes the same row count as the
/// struct, under the struct's derived mask.
#[derive(Debug)]
pub struct StructArrayDecoder {
    pub children: Vec<ArrayBatchDecoder>,
    pub present: Option<Pull<bool>>,
}

/// The closed set of decoder behaviors, one per ORC type category, selected
/// at construction time from the schema.
#[derive(Debug)]
pub enum ArrayBatchDecoder {
    Primitive(PrimitiveArrayDecoder),
    Dictionary(DictionaryArrayDecoder),
    List(Box<ListArrayDecoder>),
    Mapping(Box<MapArrayDecoder>),
    Struct(StructArrayDecoder),
}

/// Every pull cursor in the decoder tree is well formed.
pub open spec fn decoder_wf(d: ArrayBatchDecoder) -> bool
    decreases d,
{
    match d {
        ArrayBatchDecoder::Primitive(p) => opt_pull_wf(p.present) && p.data.wf(),
        ArrayBatchDecoder::Dictionary(d) => opt_pull_wf(d.present) && d.indexes.wf(),
        ArrayBatchDecoder::List(l) => opt_pull_wf((*l).present) && (*l).lengths.wf()
            && decoder_wf(*(*l).inner),
        ArrayBatchDecoder::Mapping(m) => opt_pull_wf((*m).present) && (*m).lengths.wf()
            && decoder_wf(*(*m).keys) && decoder_wf(*(*m).vals),
        ArrayBatchDecoder::Struct(s) => opt_pull_wf(s.present) && decoders_wf(s.children@),
    }
}

pub open spec fn decoders_wf(s: Seq<ArrayBatchDecoder>) -> bool
    decreases s,
{
    s.len() == 0 || (decoder_wf(s[0]) && decoders_wf(s.drop_first()))
}

pub proof fn lemma_decoders_wf(s: Seq<ArrayBatchDecoder>)
    requires
        forall|i: int| 0 <= i < s.len() ==> decoder_wf(#[trigger] s[i]),
    ensures
        decoders_wf(s),
    decreases s.len(),
{
    if s.len() > 0 {
        assert forall|i: int| 0 <= i < s.drop_first().len() implies decoder_wf(
            #[trigger] s.drop_first()[i],
        ) by {
            assert(s.drop_first()[i] == s[i + 1]);
        }
        lemma_decoders_wf(s.drop_first());
    }
}

pub proof fn lemma_decoders_wf_index(s: Seq<ArrayBatchDecoder>, i: int)
    requires
        decoders_wf(s),
        0 <= i < s.len(),
    ensures
        decoder_wf(s[i]),
    decreases i,
{
    if i > 0 {
        lemma_decoders_wf_index(s.drop_first(), i - 1);
    }
}

/// Success of one primitive decode: the mask derivation succeeds and the data
/// stream holds one value per present row.
pub open spec fn prim_decode_ok(p: PrimitiveArrayDecoder, n: int, par: Option<Seq<bool>>) -> bool {
    let own0 = own_view(p.present);
    &&& mask_ok(own0, par, n)
    &&& present_count(mask_of(own0, par, n), n) <= p.data.remaining().len()
}

/// What a primitive decode returns: the pulled values at present rows, zero
/// at absent rows, under the derived mask.
pub open spec fn prim_decodes_to(
    p: PrimitiveArrayDecoder,
    n: int,
    par: Option<Seq<bool>>,
    arr: DecodedArray,
) -> bool {
    let own0 = own_view(p.present);
    let mopt = mask_of(own0, par, n);
    let k = present_count(mopt, n);
    arr matches DecodedArray::Primitive { values, nulls } && values@ == (match mopt {
        Some(m) => scatter(p.data.remaining().take(k), m, 0i64),
        None => p.data.remaining().take(k),
    }) && opt_mask_view(nulls) == mopt
}

/// How a primitive decode moves its cursors: the derivation's consumption on
/// the presence stream, one data value per present row.
pub open spec fn prim_advanced(
    a: PrimitiveArrayDecoder,
    b: PrimitiveArrayDecoder,
    n: int,
    par: Option<Seq<bool>>,
) -> bool {
    let own0 = own_view(a.present);
    let k = present_count(mask_of(own0, par, n), n);
    &&& own_advanced(a.present, b.present, mask_consumed(own0, par, n))
    &&& b.data.wf()
    &&& b.data.remaining() == a.data.remaining().skip(k)
}

/// Every pulled index refers into the dictionary.
pub open spec fn dict_indexes_ok(dict: Seq<i64>, idxs: Seq<u64>) -> bool {
    forall|i: int| 0 <= i < idxs.len() ==> (#[trigger] idxs[i]) < dict.len()
}

pub open spec fn dict_decode_ok(d: DictionaryArrayDecoder, n: int, par: Option<Seq<bool>>) -> bool {
    let own0 = own_view(d.present);
    let k = present_count(mask_of(own0, par, n), n);
    &&& mask_ok(own0, par, n)
    &&& k <= d.indexes.remaining().len()
    &&& dict_indexes_ok(d.dictionary@, d.indexes.remaining().take(k))
}

pub open spec fn dict_decodes_to(
    d: DictionaryArrayDecoder,
    n: int,
    par: Option<Seq<bool>>,
    arr: DecodedArray,
) -> bool {
    let own0 = own_view(d.present);
    let mopt = mask_of(own0, par, n);
    let k = present_count(mopt, n);
    let resolved = resolve_dict(d.dictionary@, d.indexes.remaining().take(k));
    arr matches DecodedArray::Primitive { values, nulls } && values@ == (match mopt {
        Some(m) => scatter(resolved, m, 0i64),
        None => resolved,
    }) && opt_mask_view(nulls) == mopt
}

pub open spec fn dict_advanced(
    a: DictionaryArrayDecoder,
    b: DictionaryArrayDecoder,
    n: int,
    par: Option<Seq<bool>>,
) -> bool {
    let own0 = own_view(a.present);
    let k = present_count(mask_of(own0, par, n), n);
    &&& own_advanced(a.present, b.present, mask_consumed(own0, par, n))
    &&& b.indexes.wf()
    &&& b.indexes.remaining() == a.indexes.remaining().skip(k)
    &&& b.dictionary@ == a.dictionary@
}

/// A length-bearing node's own success conditions: the derivation succeeds,
/// one length per present row can be pulled, and their total fits both the
/// offset type and the address space.
pub open spec fn lengths_own_ok(
    present: Option<Pull<bool>>,
    lengths: Pull<u64>,
    n: int,
    par: Option<Seq<bool>>,
) -> bool {
    let own0 = own_view(present);
    let k = present_count(mask_of(own0, par, n), n);
    &&& mask_ok(own0, par, n)
    &&& k <= lengths.remaining().len()
    &&& sum_of(lengths.remaining().take(k)) <= u64::MAX
    &&& sum_of(lengths.remaining().take(k)) <= usize::MAX
}

/// The element count a length-bearing node hands to its children: the total
/// of the lengths pulled for this batch.
pub open spec fn lengths_total(
    present: Option<Pull<bool>>,
    lengths: Pull<u64>,
    n: int,
    par: Option<Seq<bool>>,
) -> int {
    let own0 = own_view(present);
    sum_of(lengths.remaining().take(present_count(mask_of(own0, par, n), n)))
}

/// The full batch-length sequence a length-bearing node rebuilds: the pulled
/// lengths at present rows, zero at absent rows.
pub open spec fn lengths_full(
    present: Option<Pull<bool>>,
    lengths: Pull<u64>,
    n: int,
    par: Option<Seq<bool>>,
) -> Seq<u64> {
    let own0 = own_view(present);
    let mopt = mask_of(own0, par, n);
    let pulled = lengths.remaining().take(present_count(mopt, n));
    match mopt {
        Some(m) => scatter(pulled, m, 0u64),
        None => pulled,
    }
}

/// The batch's offsets equal the running totals of `full`.
pub open spec fn offsets_match(offsets: Seq<u64>, full: Seq<u64>, n: int) -> bool {
    offsets.len() == n + 1 && forall|i: int|
        0 <= i <= n ==> (#[trigger] offsets[i]) as int == offsets_of(full)[i]
}

pub open spec fn list_decode_ok(l: ListArrayDecoder, n: int, par: Option<Seq<bool>>) -> bool
    decreases l,
{
    &&& lengths_own_ok(l.present, l.lengths, n, par)
    &&& decode_ok(*l.inner, lengths_total(l.present, l.lengths, n, par), None)
}

pub open spec fn list_decodes_to(
    l: ListArrayDecoder,
    n: int,
    par: Option<Seq<bool>>,
    arr: DecodedArray,
) -> bool
    decreases l,
{
    let mopt = mask_of(own_view(l.present), par, n);
    let total = lengths_total(l.present, l.lengths, n, par);
    arr matches DecodedArray::List { offsets, elements, nulls } && offsets_match(
        offsets@,
        lengths_full(l.present, l.lengths, n, par),
        n,
    ) && opt_mask_view(nulls) == mopt && elements.num_rows() == total && decodes_to(
        *l.inner,
        total,
        None,
        *elements,
    )
}

pub open spec fn list_advanced(
    a: ListArrayDecoder,
    b: ListArrayDecoder,
    n: int,
    par: Option<Seq<bool>>,
) -> bool
    decreases a,
{
    let own0 = own_view(a.present);
    let k = present_count(mask_of(own0, par, n), n);
    &&& own_advanced(a.present, b.present, mask_consumed(own0, par, n))
    &&& b.lengths.wf()
    &&& b.lengths.remaining() == a.lengths.remaining().skip(k)
    &&& b.field == a.field
    &&& decoder_advanced(*a.inner, *b.inner, lengths_total(a.present, a.lengths, n, par), None)
}

pub open spec fn map_decode_ok(m: MapArrayDecoder, n: int, par: Option<Seq<bool>>) -> bool
    decreases m,
{
    &&& lengths_own_ok(m.present, m.lengths, n, par)
    &&& decode_ok(*m.keys, lengths_total(m.present, m.lengths, n, par), None)
    &&& decode_ok(*m.vals, lengths_total(m.present, m.lengths, n, par), None)
}

pub open spec fn map_decodes_to(
    m: MapArrayDecoder,
    n: int,
    par: Option<Seq<bool>>,
    arr: DecodedArray,
) -> bool
    decreases m,
{
    let mopt = mask_of(own_view(m.present), par, n);
    let total = lengths_total(m.present, m.lengths, n, par);
    arr matches DecodedArray::Mapping { offsets, keys, vals, nulls } && offsets_match(
        offsets@,
        lengths_full(m.present, m.lengths, n, par),
        n,
    ) && opt_mask_view(nulls) == mopt && keys.num_rows() == total && vals.num_rows() == total
        && decodes_to(*m.keys, total, None, *keys) && decodes_to(*m.vals, total, None, *vals)
}

pub open spec fn map_advanced(
    a: MapArrayDecoder,
    b: MapArrayDecoder,
    n: int,
    par: Option<Seq<bool>>,
) -> bool
    decreases a,
{
    let own0 = own_view(a.present);
    let k = present_count(mask_of(own0, par, n), n);
    let total = lengths_total(a.present, a.lengths, n, par);
    &&& own_advanced(a.present, b.present, mask_consumed(own0, par, n))
    &&& b.lengths.wf()
    &&& b.lengths.remaining() == a.lengths.remaining().skip(k)
    &&& decoder_advanced(*a.keys, *b.keys, total, None)
    &&& decoder_advanced(*a.vals, *b.vals, total, None)
}

pub open spec fn struct_decode_ok(s: StructArrayDecoder, n: int, par: Option<Seq<bool>>) -> bool
    decreases s,
{
    let own0 = own_view(s.present);
    mask_ok(own0, par, n) && decode_children_ok(s.children@, n, mask_of(own0, par, n))
}

pub open spec fn struct_decodes_to(
    s: StructArrayDecoder,
    n: int,
    par: Option<Seq<bool>>,
    arr: DecodedArray,
) -> bool
    decreases s,
{
    let mopt = mask_of(own_view(s.present), par, n);
    arr matches DecodedArray::Struct { number_of_rows, children, nulls } && number_of_rows as int
        == n && opt_mask_view(nulls) == mopt && children_decode_to(s.children@, n, mopt, children@)
}

pub open spec fn struct_advanced(
    a: StructArrayDecoder,
    b: StructArrayDecoder,
    n: int,
    par: Option<Seq<bool>>,
) -> bool
    decreases a,
{
    let own0 = own_view(a.present);
    &&& own_advanced(a.present, b.present, mask_consumed(own0, par, n))
    &&& children_advanced(a.children@, b.children@, n, mask_of(own0, par, n))
}

/// Whether one `next_batch(n, par)` call on this decoder tree succeeds:
/// recursively, every stream in the tree holds enough consistent data for the
/// batch it will be asked for.
pub open spec fn decode_ok(d: ArrayBatchDecoder, n: int, par: Option<Seq<bool>>) -> bool
    decreases d,
{
    match d {
        ArrayBatchDecoder::Primitive(p) => prim_decode_ok(p, n, par),
        ArrayBatchDecoder::Dictionary(dd) => dict_decode_ok(dd, n, par),
        ArrayBatchDecoder::List(l) => list_decode_ok(*l, n, par),
        ArrayBatchDecoder::Mapping(m) => map_decode_ok(*m, n, par),
        ArrayBatchDecoder::Struct(s) => struct_decode_ok(s, n, par),
    }
}

pub open spec fn decode_children_ok(
    cs: Seq<ArrayBatchDecoder>,
    n: int,
    mopt: Option<Seq<bool>>,
) -> bool
    decreases cs,
{
    cs.len() == 0 || (decode_ok(cs[0], n, mopt) && decode_children_ok(cs.drop_first(), n, mopt))
}

/// What a successful `next_batch(n, par)` call returns, related recursively
/// down the decoder tree to the streams each node consumes.
pub open spec fn decodes_to(
    d: ArrayBatchDecoder,
    n: int,
    par: Option<Seq<bool>>,
    arr: DecodedArray,
) -> bool
    decreases d,
{
    match d {
        ArrayBatchDecoder::Primitive(p) => prim_decodes_to(p, n, par, arr),
        ArrayBatchDecoder::Dictionary(dd) => dict_decodes_to(dd, n, par, arr),
        ArrayBatchDecoder::List(l) => list_decodes_to(*l, n, par, arr),
        ArrayBatchDecoder::Mapping(m) => map_decodes_to(*m, n, par, arr),
        ArrayBatchDecoder::Struct(s) => struct_decodes_to(s, n, par, arr),
    }
}

pub open spec fn children_decode_to(
    cs: Seq<ArrayBatchDecoder>,
    n: int,
    mopt: Option<Seq<bool>>,
    arrs: Seq<DecodedArray>,
) -> bool
    decreases cs,
{
    cs.len() == arrs.len() && (cs.len() == 0 || (decodes_to(cs[0], n, mopt, arrs[0])
        && children_decode_to(cs.drop_first(), n, mopt, arrs.drop_first())))
}

/// How a successful call moves every cursor in the tree: each node's streams
/// advance by exactly what the batch consumed, so the next call starts at the
/// next batch's data.
pub open spec fn decoder_advanced(
    a: ArrayBatchDecoder,
    b: ArrayBatchDecoder,
    n: int,
    par: Option<Seq<bool>>,
) -> bool
    decreases a,
{
    match (a, b) {
        (ArrayBatchDecoder::Primitive(x), ArrayBatchDecoder::Primitive(y)) => prim_advanced(
            x,
            y,
            n,
            par,
        ),
        (ArrayBatchDecoder::Dictionary(x), ArrayBatchDecoder::Dictionary(y)) => dict_advanced(
            x,
            y,
            n,
            par,
        ),
        (ArrayBatchDecoder::List(x), ArrayBatchDecoder::List(y)) => list_advanced(*x, *y, n, par),
        (ArrayBatchDecoder::Mapping(x), ArrayBatchDecoder::Mapping(y)) => map_advanced(
            *x,
            *y,
            n,
            par,
        ),
        (ArrayBatchDecoder::Struct(x), ArrayBatchDecoder::Struct(y)) => struct_advanced(
            x,
            y,
            n,
            par,
        ),
        _ => false,
    }
}

pub open spec fn children_advanced(
    xs: Seq<ArrayBatchDecoder>,
    ys: Seq<ArrayBatchDecoder>,
    n: int,
    mopt: Option<Seq<bool>>,
) -> bool
    decreases xs,
{
    xs.len() == ys.len() && (xs.len() == 0 || (decoder_advanced(xs[0], ys[0], n, mopt)
        && children_advanced(xs.drop_first(), ys.drop_first(), n, mopt)))
}

pub proof fn lemma_decode_children_ok_index(
    cs: Seq<ArrayBatchDecoder>,
    n: int,
    mopt: Option<Seq<bool>>,
    i: int,
)
    requires
        decode_children_ok(cs, n, mopt),
        0 <= i < cs.len(),
    ensures
        decode_ok(cs[i], n, mopt),
    decreases i,
{
    if i > 0 {
        lemma_decode_children_ok_index(cs.drop_first(), n, mopt, i - 1);
    }
}

pub proof fn lemma_decode_children_ok_build(
    cs: Seq<ArrayBatchDecoder>,
    n: int,
    mopt: Option<Seq<bool>>,
)
    requires
        forall|i: int| 0 <= i < cs.len() ==> decode_ok(#[trigger] cs[i], n, mopt),
    ensures
        decode_children_ok(cs, n, mopt),
    decreases cs.len(),
{
    if cs.len() > 0 {
        assert forall|i: int| 0 <= i < cs.drop_first().len() implies decode_ok(
            #[trigger] cs.drop_first()[i],
            n,
            mopt,
        ) by {
            assert(cs.drop_first()[i] == cs[i + 1]);
        }
        lemma_decode_children_ok_build(cs.drop_first(), n, mopt);
    }
}

pub proof fn lemma_children_decode_to_build(
    cs: Seq<ArrayBatchDecoder>,
    n: int,
    mopt: Option<Seq<bool>>,
    arrs: Seq<DecodedArray>,
)
    requires
        cs.len() == arrs.len(),
        forall|i: int| 0 <= i < cs.len() ==> decodes_to(#[trigger] cs[i], n, mopt, arrs[i]),
    ensures
        children_decode_to(cs, n, mopt, arrs),
    decreases cs.len(),
{
    if cs.len() > 0 {
        assert forall|i: int| 0 <= i < cs.drop_first().len() implies decodes_to(
            #[trigger] cs.drop_first()[i],
            n,
            mopt,
            arrs.drop_first()[i],
        ) by {
            assert(cs.drop_first()[i] == cs[i + 1]);
            assert(arrs.drop_first()[i] == arrs[i + 1]);
        }
        lemma_children_decode_to_build(cs.drop_first(), n, mopt, arrs.drop_first());
    }
}

pub proof fn lemma_children_advanced_build(
    xs: Seq<ArrayBatchDecoder>,
    ys: Seq<ArrayBatchDecoder>,
    n: int,
    mopt: Option<Seq<bool>>,
)
    requires
        xs.len() == ys.len(),
        forall|i: int| 0 <= i < xs.len() ==> decoder_advanced(#[trigger] xs[i], ys[i], n, mopt),
    ensures
        children_advanced(xs, ys, n, mopt),
    decreases xs.len(),
{
    if xs.len() > 0 {
        assert forall|i: int| 0 <= i < xs.drop_first().len() implies decoder_advanced(
            #[trigger] xs.drop_first()[i],
            ys.drop_first()[i],
            n,
            mopt,
        ) by {
            assert(xs.drop_first()[i] == xs[i + 1]);
            assert(ys.drop_first()[i] == ys[i + 1]);
        }
        lemma_children_advanced_build(xs.drop_first(), ys.drop_first(), n, mopt);
    }
}


impl PrimitiveArrayDecoder {
    pub open spec fn wf(&self) -> bool {
        opt_pull_wf(self.present) && self.data.wf()
    }

    pub fn new(present: Option<Vec<bool>>, data: Vec<i64>) -> (r: Self)
        ensures
            r.wf(),
            own_view(r.present) == opt_mask_view(present),
            r.data.remaining() == data@,
    {
        PrimitiveArrayDecoder {
            present: match present {
                Some(v) => Some(Pull::new(v)),
                None => None,
            },
            data: Pull::new(data),
        }
    }

    /// Pulls one value per present row from the data stream, placing pulled
    /// values at present positions and zero at absent positions, with the
    /// derived mask as the validity buffer.
    pub fn next_batch(&mut self, batch_size: usize, parent_present: Option<&Vec<bool>>) -> (r:
        Result<DecodedArray, OrcError>)
        requires
            old(self).wf(),
            (parent_present matches Some(pp) ==> pp@.len() == batch_size),
        ensures
            final(self).wf(),
            (r is Ok <==> prim_decode_ok(
                *old(self),
                batch_size as int,
                parent_view(parent_present),
            )),
            match r {
                Ok(arr) => {
                    &&& prim_decodes_to(
                        *old(self),
                        batch_size as int,
                        parent_view(parent_present),
                        arr,
                    )
                    &&& prim_advanced(
                        *old(self),
                        *final(self),
                        batch_size as int,
                        parent_view(parent_present),
                    )
                    &&& arr.well_formed()
                    &&& arr.num_rows() == batch_size
                    &&& (parent_view(parent_present) matches Some(pm) ==> forall|i: int|
                        0 <= i < batch_size && !pm[i] ==> !arr.present_at(i))
                },
                Err(e) => e.kind_spec() == ErrorKind::Io,
            },
    {
        let mask = match derive_present_vec(&mut self.present, parent_present, batch_size) {
            Ok(m) => m,
            Err(e) => return Err(e),
        };
        let k: usize = match &mask {
            Some(m) => count_present(m),
            None => batch_size,
        };
        let vals = match self.data.take_exact(k) {
            Ok(v) => v,
            Err(e) => return Err(e),
        };
        let values = match &mask {
            Some(m) => scatter_exec(&vals, m, 0i64),
            None => vals,
        };
        Ok(DecodedArray::Primitive { values, nulls: mask })
    }
}

/// The dictionary's values at the given indices, in index-stream order.
pub open spec fn resolve_dict(dict: Seq<i64>, idxs: Seq<u64>) -> Seq<i64> {
    Seq::new(idxs.len(), |i: int| dict[idxs[i] as int])
}

impl DictionaryArrayDecoder {
    pub open spec fn wf(&self) -> bool {
        opt_pull_wf(self.present) && self.indexes.wf()
    }

    pub fn new(dictionary: Vec<i64>, indexes: Vec<u64>, present: Option<Vec<bool>>) -> (r: Self)
        ensures
            r.wf(),
            r.dictionary@ == dictionary@,
            r.indexes.remaining() == indexes@,
            own_view(r.present) == opt_mask_view(present),
    {
        DictionaryArrayDecoder {
            dictionary,
            indexes: Pull::new(indexes),
            present: match present {
                Some(v) => Some(Pull::new(v)),
                None => None,
            },
        }
    }

    /// Pulls one index per present row and resolves each against the
    /// dictionary; an index outside the dictionary is a corrupt-file error.
    #[verifier::loop_isolation(false)]
    pub fn next_batch(&mut self, batch_size: usize, parent_present: Option<&Vec<bool>>) -> (r:
        Result<DecodedArray, OrcError>)
        requires
            old(self).wf(),
            (parent_present matches Some(pp) ==> pp@.len() == batch_size),
        ensures
            final(self).wf(),
            (r is Ok <==> dict_decode_ok(
                *old(self),
                batch_size as int,
                parent_view(parent_present),
            )),
            match r {
                Ok(arr) => {
                    &&& dict_decodes_to(
                        *old(self),
                        batch_size as int,
                        parent_view(parent_present),
                        arr,
                    )
                    &&& dict_advanced(
                        *old(self),
                        *final(self),
                        batch_size as int,
                        parent_view(parent_present),
                    )
                    &&& arr.well_formed()
                    &&& arr.num_rows() == batch_size
                    &&& (parent_view(parent_present) matches Some(pm) ==> forall|i: int|
                        0 <= i < batch_size && !pm[i] ==> !arr.present_at(i))
                },
                Err(e) => ({
                    let own0 = own_view(old(self).present);
                    let par = parent_view(parent_present);
                    let k = present_count(mask_of(own0, par, batch_size as int), batch_size as int);
                    if !(mask_ok(own0, par, batch_size as int) && k <= old(
                        self,
                    ).indexes.remaining().len()) {
                        e.kind_spec() == ErrorKind::Io
                    } else {
                        e.kind_spec() == ErrorKind::Unexpected
                    }
                }),
            },
    {
        let mask = match derive_present_vec(&mut self.present, parent_present, batch_size) {
            Ok(m) => m,
            Err(e) => return Err(e),
        };
        let k: usize = match &mask {
            Some(m) => count_present(m),
            None => batch_size,
        };
        let idxs = match self.indexes.take_exact(k) {
            Ok(v) => v,
            Err(e) => return Err(e),
        };
        let mut vals: Vec<i64> = Vec::new();
        let mut i: usize = 0;
        while i < idxs.len()
            invariant
                i <= idxs@.len(),
                vals@.len() == i,
                forall|j: int| 0 <= j < i ==> (#[trigger] idxs@[j]) < self.dictionary@.len(),
                forall|j: int| 0 <= j < i ==> vals@[j] == resolve_dict(self.dictionary@, idxs@)[j],
            decreases idxs@.len() - i,
        {
            let ix = idxs[i];
            if ix >= self.dictionary.len() as u64 {
                proof {
                    assert(!((idxs@[i as int]) < self.dictionary@.len()));
                }
                return Err(OrcError::Unexpected);
            }
            vals.push(self.dictionary[ix as usize]);
            i = i + 1;
        }
        proof {
            assert(vals@ =~= resolve_dict(self.dictionary@, idxs@));
        }
        let values = match &mask {
            Some(m) => scatter_exec(&vals, m, 0i64),
            None => vals,
        };
        Ok(DecodedArray::Primitive { values, nulls: mask })
    }
}


impl ArrayBatchDecoder {
    /// Decodes the next `batch_size` logical rows of this column, consuming
    /// physical stream values only for rows the derived mask marks present,
    /// and leaving every cursor at the start of the next batch's data.
    pub fn next_batch(&mut self, batch_size: usize, parent_present: Option<&Vec<bool>>) -> (r:
        Result<DecodedArray, OrcError>)
        requires
            decoder_wf(*old(self)),
            (parent_present matches Some(pp) ==> pp@.len() == batch_size),
        ensures
            decoder_wf(*final(self)),
            (r is Ok <==> decode_ok(*old(self), batch_size as int, parent_view(parent_present))),
            match r {
                Ok(arr) => {
                    &&& arr.well_formed()
                    &&& arr.num_rows() == batch_size
                    &&& decodes_to(*old(self), batch_size as int, parent_view(parent_present), arr)
                    &&& decoder_advanced(
                        *old(self),
                        *final(self),
                        batch_size as int,
                        parent_view(parent_present),
                    )
                    &&& (parent_present matches Some(pm) ==> forall|i: int|
                        0 <= i < batch_size && !pm@[i] ==> !arr.present_at(i))
                },
                Err(e) => e.kind_spec() == ErrorKind::Io || e.kind_spec() == ErrorKind::Unexpected,
            },
        decreases *old(self),
    {
        match self {
            ArrayBatchDecoder::Primitive(p) => p.next_batch(batch_size, parent_present),
            ArrayBatchDecoder::Dictionary(d) => d.next_batch(batch_size, parent_present),
            ArrayBatchDecoder::List(l) => l.next_batch(batch_size, parent_present),
            ArrayBatchDecoder::Mapping(m) => m.next_batch(batch_size, parent_present),
            ArrayBatchDecoder::Struct(s) => s.next_batch(batch_size, parent_present),
        }
    }
}

impl ListArrayDecoder {
    pub open spec fn wf(&self) -> bool {
        opt_pull_wf(self.present) && self.lengths.wf() && decoder_wf(*self.inner)
    }

    /// Builds a list decoder for `column` from its element decoder and its
    /// decoded presence and length streams, re-deriving the single "item"
    /// child to validate congruence and obtain the element field.
    pub fn new(
        column: &Column,
        inner: ArrayBatchDecoder,
        present: Option<Vec<bool>>,
        lengths: Vec<u64>,
    ) -> (r: Result<Self, OrcError>)
        requires
            decoder_wf(inner),
        ensures
            match r {
                Ok(d) => {
                    &&& *column.data_type matches DataType::List { .. }
                    &&& children_error(*column.data_type, (*column.field).data_type) is None
                    &&& d.wf()
                    &&& *d.inner == inner
                    &&& own_view(d.present) == opt_mask_view(present)
                    &&& d.lengths.remaining() == lengths@
                    &&& ((*column.field).data_type matches FieldType::List { field } && d.field
                        == field)
                },
                Err(e) => {
                    if !(*column.data_type matches DataType::List { .. }) {
                        e.kind_spec() == ErrorKind::Unexpected
                    } else {
                        children_error(*column.data_type, (*column.field).data_type)
                            matches Some(k) && e.kind_spec() == k
                    }
                },
            },
    {
        match &*column.data_type {
            DataType::List { .. } => {},
            _ => {
                return Err(OrcError::Unexpected);
            },
        }
        let ch = match column.children() {
            Ok(c) => c,
            Err(e) => return Err(e),
        };
        let fld = share(&ch[0].field);
        Ok(
            ListArrayDecoder {
                inner: Box::new(inner),
                present: match present {
                    Some(v) => Some(Pull::new(v)),
                    None => None,
                },
                lengths: Pull::new(lengths),
                field: fld,
            },
        )
    }

    /// Decodes one batch: derives the effective mask, pulls exactly one
    /// length per present row, asks the element decoder for exactly the total
    /// of those lengths with no parent mask (a list's own nulls stop
    /// propagating here), and rebuilds full-batch offsets whose widths are
    /// zero at absent rows.
    #[verifier::loop_isolation(false)]
    pub fn next_batch(&mut self, batch_size: usize, parent_present: Option<&Vec<bool>>) -> (r:
        Result<DecodedArray, OrcError>)
        requires
            old(self).wf(),
            (parent_present matches Some(pp) ==> pp@.len() == batch_size),
        ensures
            final(self).wf(),
            (r is Ok <==> list_decode_ok(
                *old(self),
                batch_size as int,
                parent_view(parent_present),
            )),
            match r {
                Ok(arr) => {
                    &&& list_decodes_to(
                        *old(self),
                        batch_size as int,
                        parent_view(parent_present),
                        arr,
                    )
                    &&& list_advanced(
                        *old(self),
                        *final(self),
                        batch_size as int,
                        parent_view(parent_present),
                    )
                    &&& arr.well_formed()
                    &&& arr.num_rows() == batch_size
                    &&& (parent_view(parent_present) matches Some(pm) ==> forall|i: int|
                        0 <= i < batch_size && !pm[i] ==> !arr.present_at(i))
                },
                Err(e) => {
                    if !lengths_own_ok(
                        old(self).present,
                        old(self).lengths,
                        batch_size as int,
                        parent_view(parent_present),
                    ) {
                        e.kind_spec() == ErrorKind::Io
                    } else {
                        e.kind_spec() == ErrorKind::Io || e.kind_spec() == ErrorKind::Unexpected
                    }
                },
            },
        decreases *old(self),
    {
        let mask = match derive_present_vec(&mut self.present, parent_present, batch_size) {
            Ok(m) => m,
            Err(e) => return Err(e),
        };
        let k: usize = match &mask {
            Some(m) => count_present(m),
            None => batch_size,
        };
        let pulled = match self.lengths.take_exact(k) {
            Ok(v) => v,
            Err(e) => return Err(e),
        };
        let mut total: u64 = 0;
        let mut i: usize = 0;
        while i < pulled.len()
            invariant
                i <= pulled@.len(),
                total as int == sum_of(pulled@.take(i as int)),
            decreases pulled@.len() - i,
        {
            proof {
                lemma_sum_of_take_succ(pulled@, i as int);
            }
            let l = pulled[i];
            if l > u64::MAX - total {
                proof {
                    lemma_sum_of_split(pulled@, i as int + 1);
                    lemma_sum_of_nonneg(pulled@.skip(i as int + 1));
                }
                return Err(OrcError::Io);
            }
            total = total + l;
            i = i + 1;
        }
        proof {
            assert(pulled@.take(pulled@.len() as int) =~= pulled@);
        }
        if total > usize::MAX as u64 {
            return Err(OrcError::Io);
        }
        let total_rows: usize = total as usize;
        let child = match self.inner.next_batch(total_rows, None) {
            Ok(a) => a,
            Err(e) => return Err(e),
        };
        let full = populate_lengths_with_nulls(&pulled, batch_size, &mask);
        proof {
            match &mask {
                Some(m) => lemma_sum_scatter(pulled@, m@),
                None => {},
            }
        }
        let offsets = match offsets_from_lengths(&full) {
            Ok(o) => o,
            Err(e) => return Err(e),
        };
        proof {
            let fullv = full@;
            assert forall|i: int| 0 <= i < offsets@.len() - 1 implies (#[trigger] offsets@[i])
                <= offsets@[i + 1] by {
                lemma_sum_of_take_succ(fullv, i);
            }
            assert(fullv.take(fullv.len() as int) =~= fullv);
        }
        Ok(DecodedArray::List { offsets, elements: Box::new(child), nulls: mask })
    }
}

impl MapArrayDecoder {
    pub open spec fn wf(&self) -> bool {
        opt_pull_wf(self.present) && self.lengths.wf() && decoder_wf(*self.keys) && decoder_wf(
            *self.vals,
        )
    }

    /// Builds a map decoder for `column` from its key and value decoders and
    /// its decoded presence and length streams, re-deriving the "key"/"value"
    /// children to validate congruence (a sorted output map is rejected).
    pub fn new(
        column: &Column,
        keys: ArrayBatchDecoder,
        vals: ArrayBatchDecoder,
        present: Option<Vec<bool>>,
        lengths: Vec<u64>,
    ) -> (r: Result<Self, OrcError>)
        requires
            decoder_wf(keys),
            decoder_wf(vals),
        ensures
            match r {
                Ok(d) => {
                    &&& *column.data_type matches DataType::Mapping { .. }
                    &&& children_error(*column.data_type, (*column.field).data_type) is None
                    &&& d.wf()
                    &&& *d.keys == keys
                    &&& *d.vals == vals
                    &&& own_view(d.present) == opt_mask_view(present)
                    &&& d.lengths.remaining() == lengths@
                },
                Err(e) => {
                    if !(*column.data_type matches DataType::Mapping { .. }) {
                        e.kind_spec() == ErrorKind::Unexpected
                    } else {
                        children_error(*column.data_type, (*column.field).data_type)
                            matches Some(k) && e.kind_spec() == k
                    }
                },
            },
    {
        match &*column.data_type {
            DataType::Mapping { .. } => {},
            _ => {
                return Err(OrcError::Unexpected);
            },
        }
        match column.children() {
            Ok(_) => {},
            Err(e) => return Err(e),
        };
        Ok(
            MapArrayDecoder {
                keys: Box::new(keys),
                vals: Box::new(vals),
                present: match present {
                    Some(v) => Some(Pull::new(v)),
                    None => None,
                },
                lengths: Pull::new(lengths),
            },
        )
    }

    /// Decodes one batch exactly as a list does, except that both the key and
    /// the value decoder are asked for the total entry count, with no parent
    /// mask.
    #[verifier::loop_isolation(false)]
    pub fn next_batch(&mut self, batch_size: usize, parent_present: Option<&Vec<bool>>) -> (r:
        Result<DecodedArray, OrcError>)
        requires
            old(self).wf(),
            (parent_present matches Some(pp) ==> pp@.len() == batch_size),
        ensures
            final(self).wf(),
            (r is Ok <==> map_decode_ok(
                *old(self),
                batch_size as int,
                parent_view(parent_present),
            )),
            match r {
                Ok(arr) => {
                    &&& map_decodes_to(
                        *old(self),
                        batch_size as int,
                        parent_view(parent_present),
                        arr,
                    )
                    &&& map_advanced(
                        *old(self),
                        *final(self),
                        batch_size as int,
                        parent_view(parent_present),
                    )
                    &&& arr.well_formed()
                    &&& arr.num_rows() == batch_size
                    &&& (parent_view(parent_present) matches Some(pm) ==> forall|i: int|
                        0 <= i < batch_size && !pm[i] ==> !arr.present_at(i))
                },
                Err(e) => {
                    if !lengths_own_ok(
                        old(self).present,
                        old(self).lengths,
                        batch_size as int,
                        parent_view(parent_present),
                    ) {
                        e.kind_spec() == ErrorKind::Io
                    } else {
                        e.kind_spec() == ErrorKind::Io || e.kind_spec() == ErrorKind::Unexpected
                    }
                },
            },
        decreases *old(self),
    {
        let mask = match derive_present_vec(&mut self.present, parent_present, batch_size) {
            Ok(m) => m,
            Err(e) => return Err(e),
        };
        let k: usize = match &mask {
            Some(m) => count_present(m),
            None => batch_size,
        };
        let pulled = match self.lengths.take_exact(k) {
            Ok(v) => v,
            Err(e) => return Err(e),
        };
        let mut total: u64 = 0;
        let mut i: usize = 0;
        while i < pulled.len()
            invariant
                i <= pulled@.len(),
                total as int == sum_of(pulled@.take(i as int)),
            decreases pulled@.len() - i,
        {
            proof {
                lemma_sum_of_take_succ(pulled@, i as int);
            }
            let l = pulled[i];
            if l > u64::MAX - total {
                proof {
                    lemma_sum_of_split(pulled@, i as int + 1);
                    lemma_sum_of_nonneg(pulled@.skip(i as int + 1));
                }
                return Err(OrcError::Io);
            }
            total = total + l;
            i = i + 1;
        }
        proof {
            assert(pulled@.take(pulled@.len() as int) =~= pulled@);
        }
        if total > usize::MAX as u64 {
            return Err(OrcError::Io);
        }
        let total_rows: usize = total as usize;
        let keys = match self.keys.next_batch(total_rows, None) {
            Ok(a) => a,
            Err(e) => return Err(e),
        };
        let vals = match self.vals.next_batch(total_rows, None) {
            Ok(a) => a,
            Err(e) => return Err(e),
        };
        let full = populate_lengths_with_nulls(&pulled, batch_size, &mask);
        proof {
            match &mask {
                Some(m) => lemma_sum_scatter(pulled@, m@),
                None => {},
            }
        }
        let offsets = match offsets_from_lengths(&full) {
            Ok(o) => o,
            Err(e) => return Err(e),
        };
        proof {
            let fullv = full@;
            assert forall|i: int| 0 <= i < offsets@.len() - 1 implies (#[trigger] offsets@[i])
                <= offsets@[i + 1] by {
                lemma_sum_of_take_succ(fullv, i);
            }
            assert(fullv.take(fullv.len() as int) =~= fullv);
        }
        Ok(
            DecodedArray::Mapping {
                offsets,
                keys: Box::new(keys),
                vals: Box::new(vals),
                nulls: mask,
            },
        )
    }
}


impl StructArrayDecoder {
    pub open spec fn wf(&self) -> bool {
        opt_pull_wf(self.present) && decoders_wf(self.children@)
    }

    pub fn new(children: Vec<ArrayBatchDecoder>, present: Option<Vec<bool>>) -> (r: Self)
        requires
            decoders_wf(children@),
        ensures
            r.wf(),
            own_view(r.present) == opt_mask_view(present),
            r.children == children,
    {
        StructArrayDecoder {
            children,
            present: match present {
                Some(v) => Some(Pull::new(v)),
                None => None,
            },
        }
    }

    /// Decodes one batch: derives the struct's own mask and invokes every
    /// child with the same `batch_size` and that mask as the child's parent
    /// mask — children never get an independent batch size.
    #[verifier::loop_isolation(false)]
    pub fn next_batch(&mut self, batch_size: usize, parent_present: Option<&Vec<bool>>) -> (r:
        Result<DecodedArray, OrcError>)
        requires
            old(self).wf(),
            (parent_present matches Some(pp) ==> pp@.len() == batch_size),
        ensures
            final(self).wf(),
            (r is Ok <==> struct_decode_ok(
                *old(self),
                batch_size as int,
                parent_view(parent_present),
            )),
            ({
                let own0 = own_view(old(self).present);
                let par = parent_view(parent_present);
                let mopt = mask_of(own0, par, batch_size as int);
                match r {
                    Ok(arr) => {
                        &&& struct_decodes_to(*old(self), batch_size as int, par, arr)
                        &&& struct_advanced(*old(self), *final(self), batch_size as int, par)
                        &&& arr matches DecodedArray::Struct { number_of_rows, children, nulls }
                            && number_of_rows == batch_size && children@.len() == old(
                            self,
                        ).children@.len() && opt_mask_view(nulls) == mopt && (
                        mopt matches Some(mm) ==> forall|ci: int, ri: int|
                            0 <= ci < children@.len() && 0 <= ri < batch_size && !mm[ri]
                                ==> !(#[trigger] children@[ci].present_at(ri)))
                        &&& arr.well_formed()
                        &&& arr.num_rows() == batch_size
                        &&& (par matches Some(pm) ==> forall|i: int|
                            0 <= i < batch_size && !pm[i] ==> !arr.present_at(i))
                    },
                    Err(e) => {
                        if !mask_ok(own0, par, batch_size as int) {
                            e.kind_spec() == ErrorKind::Io
                        } else {
                            e.kind_spec() == ErrorKind::Io || e.kind_spec()
                                == ErrorKind::Unexpected
                        }
                    },
                }
            }),
        decreases *old(self),
    {
        let mask = match derive_present_vec(&mut self.present, parent_present, batch_size) {
            Ok(m) => m,
            Err(e) => return Err(e),
        };
        let ghost n_i = batch_size as int;
        let ghost mopt_s = mask_of(
            own_view(old(self).present),
            parent_view(parent_present),
            n_i,
        );
        proof {
            assert(opt_mask_view(mask) == mopt_s);
        }
        let mut work: Vec<ArrayBatchDecoder> = Vec::new();
        std::mem::swap(&mut work, &mut self.children);
        let ghost work0 = work@;
        let mut arrays: Vec<DecodedArray> = Vec::new();
        let mut done: Vec<ArrayBatchDecoder> = Vec::new();
        while work.len() > 0
            invariant
                work0.len() == done@.len() + work@.len(),
                work@ == work0.skip(done@.len() as int),
                decoders_wf(work0),
                (mask matches Some(mv) ==> mv@.len() == batch_size),
                arrays@.len() == done@.len(),
                decreases_to!(*old(self) => work0),
                forall|j: int| 0 <= j < done@.len() ==> decoder_wf(#[trigger] done@[j]),
                forall|j: int| 0 <= j < arrays@.len() ==> (#[trigger] arrays@[j]).well_formed()
                    && arrays@[j].num_rows() == batch_size,
                forall|j: int| 0 <= j < done@.len() ==> decode_ok(#[trigger] work0[j], n_i, mopt_s),
                forall|j: int| 0 <= j < done@.len() ==> decodes_to(
                    #[trigger] work0[j],
                    n_i,
                    mopt_s,
                    arrays@[j],
                ),
                forall|j: int| 0 <= j < done@.len() ==> decoder_advanced(
                    #[trigger] work0[j],
                    done@[j],
                    n_i,
                    mopt_s,
                ),
                (mask matches Some(mm) ==> forall|ci: int, ri: int|
                    0 <= ci < arrays@.len() && 0 <= ri < batch_size && !mm@[ri] ==> !(
                    #[trigger] arrays@[ci].present_at(ri))),
            decreases work@.len(),
        {
            let mut c = work.remove(0);
            proof {
                lemma_decoders_wf_index(work0, done@.len() as int);
                assert(work0[done@.len() as int] == c);
                assert(decreases_to!(work0 => c));
            }
            let pp: Option<&Vec<bool>> = match &mask {
                Some(m) => Some(m),
                None => None,
            };
            proof {
                assert(parent_view(pp) == mopt_s);
            }
            let a = match c.next_batch(batch_size, pp) {
                Ok(a) => a,
                Err(e) => {
                    proof {
                        assert(!decode_ok(work0[done@.len() as int], n_i, mopt_s));
                        assert(!decode_children_ok(work0, n_i, mopt_s)) by {
                            if decode_children_ok(work0, n_i, mopt_s) {
                                lemma_decode_children_ok_index(
                                    work0,
                                    n_i,
                                    mopt_s,
                                    done@.len() as int,
                                );
                            }
                        }
                    }
                    return Err(e);
                },
            };
            done.push(c);
            arrays.push(a);
            proof {
                assert(work@ =~= work0.skip(done@.len() as int));
            }
        }
        self.children = done;
        proof {
            lemma_arrays_wf(arrays@, batch_size as int);
            lemma_decoders_wf(self.children@);
            lemma_decode_children_ok_build(work0, n_i, mopt_s);
            lemma_children_decode_to_build(work0, n_i, mopt_s, arrays@);
            lemma_children_advanced_build(work0, self.children@, n_i, mopt_s);
        }
        Ok(DecodedArray::Struct { number_of_rows: batch_size, children: arrays, nulls: mask })
    }
}

/// The decoded typed streams the encoding layer yields for one column and,
/// recursively, for its children: the factory's raw material.
#[derive(Debug)]
pub enum ColumnStreams {
    Primitive { present: Option<Vec<bool>>, data: Vec<i64> },
    Dictionary { present: Option<Vec<bool>>, dictionary: Vec<i64>, indexes: Vec<u64> },
    List { present: Option<Vec<bool>>, lengths: Vec<u64>, item: Box<ColumnStreams> },
    Mapping {
        present: Option<Vec<bool>>,
        lengths: Vec<u64>,
        key: Box<ColumnStreams>,
        value: Box<ColumnStreams>,
    },
    Struct { present: Option<Vec<bool>>, children: Vec<ColumnStreams> },
}

/// Whether the logical type has children of its own.
pub open spec fn is_composite(dt: DataType) -> bool {
    ||| dt matches DataType::Struct { .. }
    ||| dt matches DataType::List { .. }
    ||| dt matches DataType::Mapping { .. }
    ||| dt matches DataType::Union { .. }
}

/// Whether decoder construction succeeds for this (logical type, output type,
/// streams) triple: the streams' shape follows the schema, and every node's
/// child derivation validates against the output field tree.
pub open spec fn factory_ok(dt: DataType, ft: FieldType, s: ColumnStreams) -> bool
    decreases s,
{
    match s {
        ColumnStreams::Primitive { .. } => !is_composite(dt),
        ColumnStreams::Dictionary { .. } => !is_composite(dt),
        ColumnStreams::List { item, .. } => {
            &&& dt matches DataType::List { .. }
            &&& children_error(dt, ft) is None
            &&& (dt matches DataType::List { child, .. } && ft matches FieldType::List { field }
                && factory_ok(*child, (*field).data_type, *item))
        },
        ColumnStreams::Mapping { key: ks, value: vs, .. } => {
            &&& dt matches DataType::Mapping { .. }
            &&& children_error(dt, ft) is None
            &&& (dt matches DataType::Mapping { key, value, .. } && ft matches FieldType::Mapping {
                entries, .. } && ((*entries).data_type matches FieldType::Struct { fields }
                && factory_ok(*key, (*fields@[0]).data_type, *ks) && factory_ok(
                *value,
                (*fields@[1]).data_type,
                *vs,
            )))
        },
        ColumnStreams::Struct { children: ss, .. } => {
            &&& dt matches DataType::Struct { .. }
            &&& children_error(dt, ft) is None
            &&& (dt matches DataType::Struct { children: kids, .. } && ft matches FieldType::Struct {
                fields } && factory_children_ok(kids@, fields@, ss@))
        },
    }
}

pub open spec fn factory_children_ok(
    kids: Seq<crate::schema::NamedColumn>,
    fs: Seq<Arc<Field>>,
    ss: Seq<ColumnStreams>,
) -> bool
    decreases ss,
{
    &&& ss.len() == kids.len()
    &&& ss.len() == fs.len()
    &&& (ss.len() == 0 || (factory_ok(*kids[0].data_type, (*fs[0]).data_type, ss[0])
        && factory_children_ok(kids.drop_first(), fs.drop_first(), ss.drop_first())))
}

/// The decoder the factory builds: one variant per schema node, each holding
/// exactly the given streams, with the output fields threaded through.
pub open spec fn built_decoder(
    dt: DataType,
    ft: FieldType,
    s: ColumnStreams,
    d: ArrayBatchDecoder,
) -> bool
    decreases s,
{
    match s {
        ColumnStreams::Primitive { present, data } => d matches ArrayBatchDecoder::Primitive(p)
            && own_view(p.present) == opt_mask_view(present) && p.data.remaining() == data@,
        ColumnStreams::Dictionary { present, dictionary, indexes } => d matches ArrayBatchDecoder::Dictionary(dd)
            && own_view(dd.present) == opt_mask_view(present) && dd.dictionary@ == dictionary@
            && dd.indexes.remaining() == indexes@,
        ColumnStreams::List { present, lengths, item } => d matches ArrayBatchDecoder::List(l)
            && own_view((*l).present) == opt_mask_view(present) && (*l).lengths.remaining()
            == lengths@ && (ft matches FieldType::List { field } && (*l).field == field) && (
        dt matches DataType::List { child, .. } && ft matches FieldType::List { field }
            && built_decoder(*child, (*field).data_type, *item, *(*l).inner)),
        ColumnStreams::Mapping { present, lengths, key: ks, value: vs } => d matches ArrayBatchDecoder::Mapping(m)
            && own_view((*m).present) == opt_mask_view(present) && (*m).lengths.remaining()
            == lengths@ && (dt matches DataType::Mapping { key, value, .. }
            && ft matches FieldType::Mapping { entries, .. } && ((*entries).data_type
            matches FieldType::Struct { fields } && built_decoder(
            *key,
            (*fields@[0]).data_type,
            *ks,
            *(*m).keys,
        ) && built_decoder(*value, (*fields@[1]).data_type, *vs, *(*m).vals))),
        ColumnStreams::Struct { present, children: ss } => d matches ArrayBatchDecoder::Struct(sd)
            && own_view(sd.present) == opt_mask_view(present) && (dt matches DataType::Struct {
            children: kids, .. } && ft matches FieldType::Struct { fields } && built_children(
            kids@,
            fields@,
            ss@,
            sd.children@,
        )),
    }
}

pub open spec fn built_children(
    kids: Seq<crate::schema::NamedColumn>,
    fs: Seq<Arc<Field>>,
    ss: Seq<ColumnStreams>,
    ds: Seq<ArrayBatchDecoder>,
) -> bool
    decreases ss,
{
    &&& ds.len() == ss.len()
    &&& ss.len() == kids.len()
    &&& ss.len() == fs.len()
    &&& (ss.len() == 0 || (built_decoder(*kids[0].data_type, (*fs[0]).data_type, ss[0], ds[0])
        && built_children(kids.drop_first(), fs.drop_first(), ss.drop_first(), ds.drop_first())))
}

pub proof fn lemma_factory_children_ok_index(
    kids: Seq<crate::schema::NamedColumn>,
    fs: Seq<Arc<Field>>,
    ss: Seq<ColumnStreams>,
    i: int,
)
    requires
        factory_children_ok(kids, fs, ss),
        0 <= i < ss.len(),
    ensures
        factory_ok(*kids[i].data_type, (*fs[i]).data_type, ss[i]),
    decreases i,
{
    if i > 0 {
        lemma_factory_children_ok_index(kids.drop_first(), fs.drop_first(), ss.drop_first(), i - 1);
    }
}

pub proof fn lemma_factory_children_ok_build(
    kids: Seq<crate::schema::NamedColumn>,
    fs: Seq<Arc<Field>>,
    ss: Seq<ColumnStreams>,
)
    requires
        ss.len() == kids.len(),
        ss.len() == fs.len(),
        forall|i: int| 0 <= i < ss.len() ==> factory_ok(
            *kids[i].data_type,
            (*fs[i]).data_type,
            #[trigger] ss[i],
        ),
    ensures
        factory_children_ok(kids, fs, ss),
    decreases ss.len(),
{
    if ss.len() > 0 {
        assert forall|i: int| 0 <= i < ss.drop_first().len() implies factory_ok(
            *kids.drop_first()[i].data_type,
            (*fs.drop_first()[i]).data_type,
            #[trigger] ss.drop_first()[i],
        ) by {
            assert(ss.drop_first()[i] == ss[i + 1]);
            assert(kids.drop_first()[i] == kids[i + 1]);
            assert(fs.drop_first()[i] == fs[i + 1]);
        }
        lemma_factory_children_ok_build(kids.drop_first(), fs.drop_first(), ss.drop_first());
    }
}

pub proof fn lemma_built_children_build(
    kids: Seq<crate::schema::NamedColumn>,
    fs: Seq<Arc<Field>>,
    ss: Seq<ColumnStreams>,
    ds: Seq<ArrayBatchDecoder>,
)
    requires
        ss.len() == kids.len(),
        ss.len() == fs.len(),
        ds.len() == ss.len(),
        forall|i: int| 0 <= i < ss.len() ==> built_decoder(
            *kids[i].data_type,
            (*fs[i]).data_type,
            #[trigger] ss[i],
            ds[i],
        ),
    ensures
        built_children(kids, fs, ss, ds),
    decreases ss.len(),
{
    if ss.len() > 0 {
        assert forall|i: int| 0 <= i < ss.drop_first().len() implies built_decoder(
            *kids.drop_first()[i].data_type,
            (*fs.drop_first()[i]).data_type,
            #[trigger] ss.drop_first()[i],
            ds.drop_first()[i],
        ) by {
            assert(ss.drop_first()[i] == ss[i + 1]);
            assert(kids.drop_first()[i] == kids[i + 1]);
            assert(fs.drop_first()[i] == fs[i + 1]);
            assert(ds.drop_first()[i] == ds[i + 1]);
        }
        lemma_built_children_build(kids.drop_first(), fs.drop_first(), ss.drop_first(), ds.drop_first());
    }
}

/// Translates the per-child facts gathered over derived child columns into
/// the kids/fields formulation of a struct node's factory predicate: the
/// derivation pins each child's type and field to the schema's.
proof fn lemma_factory_children_from_columns(
    c: Column,
    ch: Seq<Column>,
    ss: Seq<ColumnStreams>,
)
    requires
        *c.data_type matches DataType::Struct { .. },
        crate::column::children_error(*c.data_type, (*c.field).data_type) is None,
        crate::column::valid_children(c, ch),
        ss.len() == ch.len(),
        forall|j: int| 0 <= j < ss.len() ==> factory_ok(
            *ch[j].data_type,
            (*ch[j].field).data_type,
            #[trigger] ss[j],
        ),
    ensures
        (*c.data_type matches DataType::Struct { children: kids, .. } && (*c.field).data_type
            matches FieldType::Struct { fields } && factory_children_ok(kids@, fields@, ss)),
{
    match *c.data_type {
        DataType::Struct { children: kids, .. } => match (*c.field).data_type {
            FieldType::Struct { fields } => {
                assert forall|j: int| 0 <= j < ss.len() implies factory_ok(
                    *kids@[j].data_type,
                    (*fields@[j]).data_type,
                    #[trigger] ss[j],
                ) by {
                    assert(crate::column::valid_child(
                        c,
                        ch[j],
                        kids@[j].name@,
                        kids@[j].data_type,
                        fields@[j],
                    ));
                }
                lemma_factory_children_ok_build(kids@, fields@, ss);
            },
            _ => {},
        },
        _ => {},
    }
}

/// As above, for what the factory built.
proof fn lemma_built_children_from_columns(
    c: Column,
    ch: Seq<Column>,
    ss: Seq<ColumnStreams>,
    ds: Seq<ArrayBatchDecoder>,
)
    requires
        *c.data_type matches DataType::Struct { .. },
        crate::column::children_error(*c.data_type, (*c.field).data_type) is None,
        crate::column::valid_children(c, ch),
        ss.len() == ch.len(),
        ds.len() == ss.len(),
        forall|j: int| 0 <= j < ss.len() ==> built_decoder(
            *ch[j].data_type,
            (*ch[j].field).data_type,
            #[trigger] ss[j],
            ds[j],
        ),
    ensures
        (*c.data_type matches DataType::Struct { children: kids, .. } && (*c.field).data_type
            matches FieldType::Struct { fields } && built_children(kids@, fields@, ss, ds)),
{
    match *c.data_type {
        DataType::Struct { children: kids, .. } => match (*c.field).data_type {
            FieldType::Struct { fields } => {
                assert forall|j: int| 0 <= j < ss.len() implies built_decoder(
                    *kids@[j].data_type,
                    (*fields@[j]).data_type,
                    #[trigger] ss[j],
                    ds[j],
                ) by {
                    assert(crate::column::valid_child(
                        c,
                        ch[j],
                        kids@[j].name@,
                        kids@[j].data_type,
                        fields@[j],
                    ));
                }
                lemma_built_children_build(kids@, fields@, ss, ds);
            },
            _ => {},
        },
        _ => {},
    }
}

/// If one derived child's construction cannot succeed, the struct node's
/// factory predicate fails as a whole.
proof fn lemma_not_factory_children(
    c: Column,
    ch: Seq<Column>,
    ss: Seq<ColumnStreams>,
    i: int,
)
    requires
        *c.data_type matches DataType::Struct { .. },
        crate::column::valid_children(c, ch),
        ss.len() == ch.len(),
        0 <= i < ss.len(),
        !factory_ok(*ch[i].data_type, (*ch[i].field).data_type, ss[i]),
    ensures
        !(*c.data_type matches DataType::Struct { children: kids, .. } && (*c.field).data_type
            matches FieldType::Struct { fields } && factory_children_ok(kids@, fields@, ss)),
{
    match *c.data_type {
        DataType::Struct { children: kids, .. } => match (*c.field).data_type {
            FieldType::Struct { fields } => {
                if factory_children_ok(kids@, fields@, ss) {
                    lemma_factory_children_ok_index(kids@, fields@, ss, i);
                    assert(crate::column::valid_child(
                        c,
                        ch[i],
                        kids@[i].name@,
                        kids@[i].data_type,
                        fields@[i],
                    ));
                }
            },
            _ => {},
        },
        _ => {},
    }
}


/// Maps one schema node to its concrete decoder variant, recursively: the
/// factory that turns a resolved column and its decoded streams into the
/// decoder tree. The streams' shape must follow the schema, and every node is
/// re-validated against the output field tree; a union column has no batch
/// decoder here.
#[verifier::loop_isolation(false)]
pub fn array_decoder_factory(column: &Column, streams: ColumnStreams) -> (r: Result<
    ArrayBatchDecoder,
    OrcError,
>)
    ensures
        (r is Ok <==> factory_ok(*column.data_type, (*column.field).data_type, streams)),
        match r {
            Ok(d) => decoder_wf(d) && built_decoder(
                *column.data_type,
                (*column.field).data_type,
                streams,
                d,
            ),
            Err(e) => e.kind_spec() == ErrorKind::MismatchedSchema || e.kind_spec()
                == ErrorKind::UnsupportedTypeVariant || e.kind_spec() == ErrorKind::Unexpected,
        },
    decreases streams,
{
    match streams {
        ColumnStreams::Primitive { present, data } => {
            match &*column.data_type {
                DataType::Struct { .. } | DataType::List { .. } | DataType::Mapping { .. }
                    | DataType::Union { .. } => {
                    return Err(OrcError::Unexpected);
                },
                _ => {},
            }
            Ok(ArrayBatchDecoder::Primitive(PrimitiveArrayDecoder::new(present, data)))
        },
        ColumnStreams::Dictionary { present, dictionary, indexes } => {
            match &*column.data_type {
                DataType::Struct { .. } | DataType::List { .. } | DataType::Mapping { .. }
                    | DataType::Union { .. } => {
                    return Err(OrcError::Unexpected);
                },
                _ => {},
            }
            Ok(
                ArrayBatchDecoder::Dictionary(
                    DictionaryArrayDecoder::new(dictionary, indexes, present),
                ),
            )
        },
        ColumnStreams::List { present, lengths, item } => {
            match &*column.data_type {
                DataType::List { .. } => {},
                _ => {
                    return Err(OrcError::Unexpected);
                },
            }
            let ch = match column.children() {
                Ok(c) => c,
                Err(e) => return Err(e),
            };
            let inner = match array_decoder_factory(&ch[0], *item) {
                Ok(d) => d,
                Err(e) => return Err(e),
            };
            match ListArrayDecoder::new(column, inner, present, lengths) {
                Ok(d) => Ok(ArrayBatchDecoder::List(Box::new(d))),
                Err(e) => Err(e),
            }
        },
        ColumnStreams::Mapping { present, lengths, key, value } => {
            match &*column.data_type {
                DataType::Mapping { .. } => {},
                _ => {
                    return Err(OrcError::Unexpected);
                },
            }
            let ch = match column.children() {
                Ok(c) => c,
                Err(e) => return Err(e),
            };
            let kd = match array_decoder_factory(&ch[0], *key) {
                Ok(d) => d,
                Err(e) => return Err(e),
            };
            let vd = match array_decoder_factory(&ch[1], *value) {
                Ok(d) => d,
                Err(e) => return Err(e),
            };
            match MapArrayDecoder::new(column, kd, vd, present, lengths) {
                Ok(d) => Ok(ArrayBatchDecoder::Mapping(Box::new(d))),
                Err(e) => Err(e),
            }
        },
        ColumnStreams::Struct { present, children } => {
            match &*column.data_type {
                DataType::Struct { .. } => {},
                _ => {
                    return Err(OrcError::Unexpected);
                },
            }
            let ch = match column.children() {
                Ok(c) => c,
                Err(e) => return Err(e),
            };
            let mut ss = children;
            if ss.len() != ch.len() {
                proof {
                    let ghost cg = *column;
                    match *cg.data_type {
                        DataType::Struct { children: kids, .. } => match (*cg.field).data_type {
                            FieldType::Struct { fields } => {
                                assert(kids@.len() == ch@.len());
                                assert(!factory_children_ok(kids@, fields@, ss@));
                            },
                            _ => {},
                        },
                        _ => {},
                    }
                }
                return Err(OrcError::Unexpected);
            }
            let ghost ss0 = ss@;
            let mut ds: Vec<ArrayBatchDecoder> = Vec::new();
            while ss.len() > 0
                invariant
                    ss0.len() == ds@.len() + ss@.len(),
                    ss@ == ss0.skip(ds@.len() as int),
                    decreases_to!(streams => ss0),
                    forall|j: int| 0 <= j < ds@.len() ==> decoder_wf(#[trigger] ds@[j]),
                    forall|j: int| 0 <= j < ds@.len() ==> factory_ok(
                        *ch@[j].data_type,
                        (*ch@[j].field).data_type,
                        #[trigger] ss0[j],
                    ),
                    forall|j: int| 0 <= j < ds@.len() ==> built_decoder(
                        *ch@[j].data_type,
                        (*ch@[j].field).data_type,
                        #[trigger] ss0[j],
                        ds@[j],
                    ),
                decreases ss@.len(),
            {
                let i: usize = ds.len();
                let c_streams = ss.remove(0);
                proof {
                    assert(ss0[i as int] == c_streams);
                    assert(decreases_to!(ss0 => c_streams));
                }
                let d = match array_decoder_factory(&ch[i], c_streams) {
                    Ok(d) => d,
                    Err(e) => {
                        proof {
                            lemma_not_factory_children(*column, ch@, ss0, i as int);
                        }
                        return Err(e);
                    },
                };
                ds.push(d);
                proof {
                    assert(ss@ =~= ss0.skip(ds@.len() as int));
                }
            }
            proof {
                lemma_decoders_wf(ds@);
                lemma_factory_children_from_columns(*column, ch@, ss0);
                lemma_built_children_from_columns(*column, ch@, ss0, ds@);
            }
            Ok(ArrayBatchDecoder::Struct(StructArrayDecoder::new(ds, present)))
        },
    }
}


/// Law: parent absence dominates. Wherever the parent's mask is false, the
/// derived mask is false too, whatever the column's own presence stream says.
pub proof fn lemma_parent_absence_dominates(own: Seq<bool>, parent: Seq<bool>, i: int)
    requires
        0 <= i < parent.len(),
        !parent[i],
    ensures
        !merged_mask(own, parent)[i],
{
}

/// Law: for every presence mask `p` and pulled length list `l` holding one
/// length per present row, the rebuilt full-length sequence yields offsets
/// whose consecutive widths are `l`'s entries at present rows and zero at
/// absent rows, and whose final entry — the element count handed to the inner
/// decoder — is exactly the total of `l`.
pub proof fn lemma_list_offsets(p: Seq<bool>, l: Seq<u64>)
    requires
        l.len() == count_true(p),
    ensures
        ({
            let full = scatter(l, p, 0u64);
            let off = offsets_of(full);
            &&& off.len() == p.len() + 1
            &&& off[0] == 0
            &&& forall|i: int| 0 <= i < p.len() ==> #[trigger] (off[i + 1] - off[i]) == (if p[i] {
                l[count_true(p.take(i))] as int
            } else {
                0
            })
            &&& off[p.len() as int] == sum_of(l)
        }),
{
    let full = scatter(l, p, 0u64);
    assert(full.take(0) =~= Seq::<u64>::empty());
    assert forall|i: int| 0 <= i < p.len() implies #[trigger] (offsets_of(full)[i + 1]
        - offsets_of(full)[i]) == (if p[i] {
        l[count_true(p.take(i))] as int
    } else {
        0
    }) by {
        lemma_sum_of_take_succ(full, i);
    }
    lemma_sum_scatter(l, p);
    assert(full.take(p.len() as int) =~= full);
}

} // verus!
