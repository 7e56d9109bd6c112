//! Plain-value models of the wire structures a stripe reader consumes: the
//! stripe footer's stream directory and column encodings, and the file-tail
//! facts about one stripe. Decoding them from their serialized protobuf form
//! is a collaborator's job; the reader trusts only what these fields say.
use vstd::prelude::*;

verus! {

/// The kind of one encoded stream within a stripe.
#[derive(Clone, Copy, Debug, PartialEq, Eq, Structural)]
pub enum Kind {
    Present,
    Data,
    Length,
    DictionaryData,
    DictionaryCount,
    Secondary,
    RowIndex,
    BloomFilter,
    BloomFilterUtf8,
}

/// One entry of the stripe footer's stream directory.
#[derive(Clone, Copy, Debug, PartialEq, Eq, Structural)]
pub struct Stream {
    /// The column the stream belongs to.
    pub column: u32,
    /// What the stream carries.
    pub kind: Kind,
    /// Its byte length within the stripe.
    pub length: u64,
}

/// How a column's values are physically encoded.
#[derive(Clone, Copy, Debug, PartialEq, Eq, Structural)]
pub enum EncodingKind {
    Direct,
    Dictionary,
    DirectV2,
    DictionaryV2,
}

/// Per-column encoding metadata from the stripe footer.
#[derive(Clone, Copy, Debug)]
pub struct ColumnEncoding {
    pub kind: EncodingKind,
    /// For dictionary encodings, the number of dictionary entries.
    pub dictionary_size: Option<u32>,
}

/// The decoded stripe footer: the stream directory and, per column, its encoding.
#[derive(Debug)]
pub struct StripeFooter {
    pub streams: Vec<Stream>,
    pub columns: Vec<ColumnEncoding>,
}

/// Per-stripe facts from the file tail: where the stripe's sections lie and
/// how many rows it holds.
#[derive(Clone, Copy, Debug)]
pub struct StripeInformation {
    pub offset: u64,
    pub index_length: u64,
    pub data_length: u64,
    pub footer_length: u64,
    pub number_of_rows: u64,
}

/// Statistics of one column across one stripe, as far as the reader keeps them.
#[derive(Clone, Copy, Debug, PartialEq, Eq, Structural)]
pub struct ColumnStatistics {
    pub number_of_values: u64,
    pub has_null: bool,
}

/// The file tail's statistics entry for one stripe.
#[derive(Debug)]
pub struct StripeStatistics {
    pub col_stats: Vec<ColumnStatistics>,
}

} // verus!
