//! Stripe assembly: given one stripe's raw index+data bytes, its decoded
//! footer and its file-tail metadata, build the top-level column list and
//! demultiplex every encoded stream into a lookup table keyed by
//! (column id, stream kind). Assembly validates that the footer's recorded
//! stream lengths exactly cover the stripe's index and data sections.
use vstd::prelude::*;
use std::sync::Arc;

use crate::column::Column;
use crate::copy_range;
use crate::copy_values;
use crate::error::{ErrorKind, OrcError};
use crate::field::Field;
use crate::proto::{ColumnStatistics, Kind, Stream, StripeFooter, StripeInformation, StripeStatistics};
use crate::schema::RootDataType;
use crate::share;

verus! {

/// The compression kinds a file may declare. The codecs themselves are
/// collaborators; an absent compression means streams hold their bytes as is.
#[derive(Clone, Copy, Debug, PartialEq, Eq, Structural)]
pub enum Compression {
    Zlib,
    Snappy,
    Lzo,
    Lz4,
    Zstd,
}

/// A fresh cursor over one stream's raw bytes, remembering the file's
/// compression setting. Cursor state is independent per call of the stream
/// map, so several consumers may re-read the same underlying bytes.
#[derive(Debug)]
pub struct Decompressor {
    pub data: Vec<u8>,
    pub compression: Option<Compression>,
}

impl Decompressor {
    pub fn new(data: Vec<u8>, compression: Option<Compression>) -> (r: Self)
        ensures
            r.data@ == data@,
            r.compression == compression,
    {
        Decompressor { data, compression }
    }

    /// The stream's bytes when the file is uncompressed; a compressed
    /// stream's bytes pass through the codec collaborator instead.
    pub fn into_bytes(self) -> (r: Vec<u8>)
        requires
            self.compression is None,
        ensures
            r@ == self.data@,
    {
        self.data
    }
}

/// Stripe metadata parsed from the file-tail metadata sections. It does not
/// hold the stripe's bytes; those are read and decoded only when required.
#[derive(Debug)]
pub struct StripeMetadata {
    /// Statistics of columns across this specific stripe.
    pub column_statistics: Vec<ColumnStatistics>,
    /// Byte offset of the start of the stripe from the start of the file.
    pub offset: u64,
    /// Byte length of the index section.
    pub index_length: u64,
    /// Byte length of the data section.
    pub data_length: u64,
    /// Byte length of the footer section.
    pub footer_length: u64,
    /// Number of rows in the stripe.
    pub number_of_rows: u64,
}

impl StripeMetadata {
    /// The stripe's sections fit the file's address space.
    pub open spec fn wf(&self) -> bool {
        self.offset + self.index_length + self.data_length + self.footer_length <= u64::MAX
    }

    /// Builds the metadata of one stripe from the file tail's entries,
    /// rejecting section lengths that would overflow the address space.
    pub fn try_new(info: &StripeInformation, stats: &StripeStatistics) -> (r: Result<
        Self,
        OrcError,
    >)
        ensures
            match r {
                Ok(m) => {
                    &&& info.offset + info.index_length + info.data_length + info.footer_length
                        <= u64::MAX
                    &&& m.wf()
                    &&& m.offset == info.offset
                    &&& m.index_length == info.index_length
                    &&& m.data_length == info.data_length
                    &&& m.footer_length == info.footer_length
                    &&& m.number_of_rows == info.number_of_rows
                    &&& m.column_statistics@ == stats.col_stats@
                },
                Err(e) => {
                    &&& info.offset + info.index_length + info.data_length + info.footer_length
                        > u64::MAX
                    &&& e.kind_spec() == ErrorKind::Unexpected
                },
            },
    {
        if info.index_length > u64::MAX - info.offset {
            return Err(OrcError::Unexpected);
        }
        let s1: u64 = info.offset + info.index_length;
        if info.data_length > u64::MAX - s1 {
            return Err(OrcError::Unexpected);
        }
        let s2: u64 = s1 + info.data_length;
        if info.footer_length > u64::MAX - s2 {
            return Err(OrcError::Unexpected);
        }
        Ok(
            StripeMetadata {
                column_statistics: copy_values(&stats.col_stats),
                offset: info.offset,
                index_length: info.index_length,
                data_length: info.data_length,
                footer_length: info.footer_length,
                number_of_rows: info.number_of_rows,
            },
        )
    }

    pub fn offset(&self) -> (r: u64)
        ensures
            r == self.offset,
    {
        self.offset
    }

    pub fn index_length(&self) -> (r: u64)
        ensures
            r == self.index_length,
    {
        self.index_length
    }

    pub fn data_length(&self) -> (r: u64)
        ensures
            r == self.data_length,
    {
        self.data_length
    }

    pub fn footer_length(&self) -> (r: u64)
        ensures
            r == self.footer_length,
    {
        self.footer_length
    }

    pub fn number_of_rows(&self) -> (r: u64)
        ensures
            r == self.number_of_rows,
    {
        self.number_of_rows
    }

    pub fn column_statistics(&self) -> (r: &Vec<ColumnStatistics>)
        ensures
            r == &self.column_statistics,
    {
        &self.column_statistics
    }

    /// Where the stripe's footer section starts: past the index and data
    /// sections.
    pub fn footer_offset(&self) -> (r: u64)
        requires
            self.wf(),
        ensures
            r == self.offset + self.index_length + self.data_length,
    {
        self.offset + self.index_length + self.data_length
    }
}

/// One demultiplexed stream: its raw bytes keyed by column id and stream kind.
#[derive(Debug)]
pub struct StreamData {
    pub column: u32,
    pub kind: Kind,
    pub data: Vec<u8>,
}

/// The immutable per-stripe lookup table from (column id, stream kind) to the
/// stream's raw bytes, shared by every decoder of the stripe.
#[derive(Debug)]
pub struct StreamMap {
    pub inner: Vec<StreamData>,
    pub compression: Option<Compression>,
}

/// The bytes recorded for `(column, kind)`: the last matching entry, since a
/// directory that repeats a key overrides its earlier entry.
pub open spec fn lookup(entries: Seq<StreamData>, column: u32, kind: Kind) -> Option<Seq<u8>>
    decreases entries.len(),
{
    if entries.len() == 0 {
        None
    } else if entries.last().column == column && entries.last().kind == kind {
        Some(entries.last().data@)
    } else {
        lookup(entries.drop_last(), column, kind)
    }
}

impl StreamMap {
    /// Looks a stream up and, when present, hands back a fresh cursor over its
    /// bytes. An absent stream is the normal case for e.g. a presence stream
    /// on a column without nulls, so this is not an error.
    #[verifier::loop_isolation(false)]
    pub fn get_opt(&self, column: &Column, kind: Kind) -> (r: Option<Decompressor>)
        requires
            (*column.data_type).column_index_spec() <= u32::MAX,
        ensures
            ({
                let looked = lookup(
                    self.inner@,
                    (*column.data_type).column_index_spec() as u32,
                    kind,
                );
                match r {
                    Some(d) => looked == Some(d.data@) && d.compression == self.compression,
                    None => looked is None,
                }
            }),
    {
        let column_id: u32 = column.column_id();
        proof {
            assert(self.inner@.take(self.inner@.len() as int) =~= self.inner@);
        }
        let mut i: usize = self.inner.len();
        while i > 0
            invariant
                i <= self.inner@.len(),
                lookup(self.inner@, column_id, kind) == lookup(
                    self.inner@.take(i as int),
                    column_id,
                    kind,
                ),
            decreases i,
        {
            let e = &self.inner[i - 1];
            proof {
                assert(self.inner@.take(i as int).last() == self.inner@[i as int - 1]);
                assert(self.inner@.take(i as int).drop_last() =~= self.inner@.take(i as int - 1));
            }
            if e.column == column_id && e.kind == kind {
                return Some(Decompressor::new(copy_values(&e.data), self.compression));
            }
            i = i - 1;
        }
        proof {
            assert(self.inner@.take(0).len() == 0);
        }
        None
    }

    /// As `get_opt`, but the stream is mandatory for the column's type, so an
    /// absent stream is an `InvalidColumn` error naming the column.
    pub fn get(&self, column: &Column, kind: Kind) -> (r: Result<Decompressor, OrcError>)
        requires
            (*column.data_type).column_index_spec() <= u32::MAX,
        ensures
            ({
                let looked = lookup(
                    self.inner@,
                    (*column.data_type).column_index_spec() as u32,
                    kind,
                );
                match r {
                    Ok(d) => looked == Some(d.data@) && d.compression == self.compression,
                    Err(e) => looked is None && e.kind_spec() == ErrorKind::InvalidColumn && (
                    e matches OrcError::InvalidColumn { name } && name@ == column.name@),
                }
            }),
    {
        match self.get_opt(column, kind) {
            Some(d) => Ok(d),
            None => Err(OrcError::InvalidColumn { name: column.name.clone() }),
        }
    }
}

/// The total of the byte lengths that a stream directory records.
pub open spec fn sum_lengths(s: Seq<Stream>) -> int
    decreases s.len(),
{
    if s.len() == 0 {
        0
    } else {
        s[0].length + sum_lengths(s.drop_first())
    }
}

pub proof fn lemma_sum_lengths_nonneg(s: Seq<Stream>)
    ensures
        sum_lengths(s) >= 0,
    decreases s.len(),
{
    if s.len() > 0 {
        lemma_sum_lengths_nonneg(s.drop_first());
    }
}

pub proof fn lemma_sum_lengths_take_succ(s: Seq<Stream>, i: int)
    requires
        0 <= i < s.len(),
    ensures
        sum_lengths(s.take(i + 1)) == sum_lengths(s.take(i)) + s[i].length,
    decreases i,
{
    if i == 0 {
        assert(s.take(1).drop_first() =~= Seq::<Stream>::empty());
        assert(s.take(0) =~= Seq::<Stream>::empty());
    } else {
        lemma_sum_lengths_take_succ(s.drop_first(), i - 1);
        assert(s.take(i + 1).drop_first() =~= s.drop_first().take(i));
        assert(s.take(i).drop_first() =~= s.drop_first().take(i - 1));
    }
}

pub proof fn lemma_sum_lengths_split(s: Seq<Stream>, j: int)
    requires
        0 <= j <= s.len(),
    ensures
        sum_lengths(s) == sum_lengths(s.take(j)) + sum_lengths(s.skip(j)),
    decreases j,
{
    if j == 0 {
        assert(s.take(0) =~= Seq::<Stream>::empty());
        assert(s.skip(0) =~= s);
    } else {
        lemma_sum_lengths_split(s.drop_first(), j - 1);
        assert(s.take(j).drop_first() =~= s.drop_first().take(j - 1));
        assert(s.skip(j) =~= s.drop_first().skip(j - 1));
    }
}

/// One assembled stripe: the decoded footer, the top-level columns, and every
/// demultiplexed stream, ready for decoder construction.
#[derive(Debug)]
pub struct Stripe {
    pub footer: Arc<StripeFooter>,
    pub columns: Vec<Column>,
    pub stripe_offset: usize,
    pub stream_map: Arc<StreamMap>,
    pub number_of_rows: usize,
}

impl Stripe {
    /// Assembles one stripe. `stripe_data` is the stripe's raw index+data byte
    /// range; the footer has already been read and decoded by the footer-wire
    /// collaborator. The top-level columns zip the projected schema with the
    /// output fields; every stream is sliced at the offset accumulated from
    /// the stripe's start. A directory whose lengths do not exactly cover the
    /// index and data sections is rejected.
    #[verifier::loop_isolation(false)]
    pub fn new(
        stripe_data: Vec<u8>,
        footer: StripeFooter,
        compression: Option<Compression>,
        projected_data_type: &RootDataType,
        fields: &Vec<Arc<Field>>,
        stripe: usize,
        info: &StripeMetadata,
    ) -> (r: Result<Self, OrcError>)
        requires
            info.wf(),
            stripe_data@.len() == info.index_length + info.data_length,
            info.number_of_rows <= usize::MAX,
        ensures
            match r {
                Ok(st) => {
                    &&& projected_data_type.children@.len() == fields@.len()
                    &&& sum_lengths(footer.streams@) == info.index_length + info.data_length
                    &&& st.footer == footer
                    &&& st.stripe_offset == stripe
                    &&& st.number_of_rows == info.number_of_rows
                    &&& (*st.stream_map).compression == compression
                    &&& st.columns@.len() == fields@.len()
                    &&& forall|i: int|
                        0 <= i < st.columns@.len() ==> {
                            let c = #[trigger] st.columns@[i];
                            &&& c.number_of_rows == info.number_of_rows
                            &&& c.footer == footer
                            &&& c.name@ == projected_data_type.children@[i].name@
                            &&& c.data_type == projected_data_type.children@[i].data_type
                            &&& c.field == fields@[i]
                        }
                    &&& (*st.stream_map).inner@.len() == footer.streams@.len()
                    &&& forall|i: int|
                        0 <= i < footer.streams@.len() ==> {
                            let e = #[trigger] (*st.stream_map).inner@[i];
                            &&& e.column == footer.streams@[i].column
                            &&& e.kind == footer.streams@[i].kind
                            &&& e.data@ == stripe_data@.subrange(
                                sum_lengths(footer.streams@.take(i)),
                                sum_lengths(footer.streams@.take(i + 1)),
                            )
                        }
                },
                Err(e) => {
                    if projected_data_type.children@.len() != fields@.len() {
                        e.kind_spec() == ErrorKind::MismatchedSchema
                    } else {
                        &&& e.kind_spec() == ErrorKind::Unexpected
                        &&& sum_lengths(footer.streams@) != info.index_length + info.data_length
                    }
                },
            },
    {
        if projected_data_type.children.len() != fields.len() {
            return Err(OrcError::MismatchedSchema);
        }
        let footer = Arc::new(footer);
        let ftr: &StripeFooter = &*footer;

        let mut columns: Vec<Column> = Vec::new();
        let mut i: usize = 0;
        while i < projected_data_type.children.len()
            invariant
                i <= projected_data_type.children@.len(),
                columns@.len() == i,
                forall|j: int|
                    0 <= j < i ==> {
                        let c = #[trigger] columns@[j];
                        &&& c.number_of_rows == info.number_of_rows
                        &&& c.footer == *footer
                        &&& c.name@ == projected_data_type.children@[j].name@
                        &&& c.data_type == projected_data_type.children@[j].data_type
                        &&& c.field == fields@[j]
                    },
            decreases projected_data_type.children@.len() - i,
        {
            let col = &projected_data_type.children[i];
            columns.push(
                Column::new(
                    col.name.as_str(),
                    &col.data_type,
                    &footer,
                    info.number_of_rows,
                    share(&fields[i]),
                ),
            );
            i = i + 1;
        }

        let total: usize = stripe_data.len();
        let mut inner: Vec<StreamData> = Vec::new();
        let mut rel: usize = 0;
        let mut si: usize = 0;
        while si < ftr.streams.len()
            invariant
                si <= ftr.streams@.len(),
                rel <= total,
                rel as int == sum_lengths(ftr.streams@.take(si as int)),
                inner@.len() == si,
                forall|j: int|
                    0 <= j < si ==> {
                        let e = #[trigger] inner@[j];
                        &&& e.column == ftr.streams@[j].column
                        &&& e.kind == ftr.streams@[j].kind
                        &&& e.data@ == stripe_data@.subrange(
                            sum_lengths(ftr.streams@.take(j)),
                            sum_lengths(ftr.streams@.take(j + 1)),
                        )
                    },
            decreases ftr.streams@.len() - si,
        {
            let stream = ftr.streams[si];
            proof {
                lemma_sum_lengths_take_succ(ftr.streams@, si as int);
            }
            if stream.length > (total - rel) as u64 {
                proof {
                    lemma_sum_lengths_split(ftr.streams@, si as int + 1);
                    lemma_sum_lengths_nonneg(ftr.streams@.skip(si as int + 1));
                }
                return Err(OrcError::Unexpected);
            }
            let length: usize = stream.length as usize;
            let data = copy_range(&stripe_data, rel, length);
            inner.push(StreamData { column: stream.column, kind: stream.kind, data });
            rel = rel + length;
            si = si + 1;
        }
        proof {
            assert(ftr.streams@.take(ftr.streams@.len() as int) =~= ftr.streams@);
        }
        if rel != total {
            return Err(OrcError::Unexpected);
        }
        Ok(
            Stripe {
                footer,
                columns,
                stripe_offset: stripe,
                stream_map: Arc::new(StreamMap { inner, compression }),
                number_of_rows: info.number_of_rows as usize,
            },
        )
    }

    pub fn footer(&self) -> (r: &Arc<StripeFooter>)
        ensures
            r == &self.footer,
    {
        &self.footer
    }

    pub fn stripe_offset(&self) -> (r: usize)
        ensures
            r == self.stripe_offset,
    {
        self.stripe_offset
    }

    pub fn stream_map(&self) -> (r: &Arc<StreamMap>)
        ensures
            r == &self.stream_map,
    {
        &self.stream_map
    }

    pub fn number_of_rows(&self) -> (r: usize)
        ensures
            r == self.number_of_rows,
    {
        self.number_of_rows
    }
}

} // verus!
