use orc_reader::column::Column;
use orc_reader::error::ErrorKind;
use orc_reader::field::{Field, FieldType};
use orc_reader::proto::{
    ColumnStatistics, Kind, Stream, StripeFooter, StripeInformation, StripeStatistics,
};
use orc_reader::schema::{DataType, NamedColumn, RootDataType};
use orc_reader::stripe::{Compression, Decompressor, Stripe, StripeMetadata};
use std::sync::Arc;

fn info(offset: u64, index: u64, data: u64, footer: u64, rows: u64) -> StripeInformation {
    StripeInformation {
        offset,
        index_length: index,
        data_length: data,
        footer_length: footer,
        number_of_rows: rows,
    }
}

fn no_stats() -> StripeStatistics {
    StripeStatistics { col_stats: Vec::new() }
}

#[test]
fn metadata_carries_the_tail_facts() {
    let stats = StripeStatistics {
        col_stats: vec![ColumnStatistics { number_of_values: 3, has_null: true }],
    };
    let m = StripeMetadata::try_new(&info(100, 10, 20, 5, 3), &stats).unwrap();
    assert_eq!(m.offset(), 100);
    assert_eq!(m.index_length(), 10);
    assert_eq!(m.data_length(), 20);
    assert_eq!(m.footer_length(), 5);
    assert_eq!(m.number_of_rows(), 3);
    assert_eq!(m.column_statistics().len(), 1);
    assert_eq!(m.column_statistics()[0].number_of_values, 3);
    assert_eq!(m.footer_offset(), 130);
}

#[test]
fn metadata_section_overflow_is_unexpected() {
    let e = StripeMetadata::try_new(&info(u64::MAX, 1, 0, 0, 0), &no_stats()).unwrap_err();
    assert_eq!(e.kind(), ErrorKind::Unexpected);
}

fn field(name: &str, data_type: FieldType) -> Arc<Field> {
    Arc::new(Field { name: name.to_string(), data_type, nullable: true })
}

fn one_long_root() -> (RootDataType, Vec<Arc<Field>>) {
    let root = RootDataType {
        children: vec![NamedColumn {
            name: "a".to_string(),
            data_type: Arc::new(DataType::Long { column_index: 1 }),
        }],
    };
    let fields = vec![field("a", FieldType::Int64)];
    (root, fields)
}

fn footer_with(streams: Vec<Stream>) -> StripeFooter {
    StripeFooter { streams, columns: Vec::new() }
}

#[test]
fn stripe_assembly_demultiplexes_streams() {
    let (root, fields) = one_long_root();
    let footer = footer_with(vec![
        Stream { column: 1, kind: Kind::Present, length: 2 },
        Stream { column: 1, kind: Kind::Data, length: 3 },
    ]);
    let meta = StripeMetadata::try_new(&info(0, 0, 5, 9, 4), &no_stats()).unwrap();
    let st = Stripe::new(vec![10, 11, 20, 21, 22], footer, None, &root, &fields, 0, &meta)
        .unwrap();
    assert_eq!(st.stripe_offset(), 0);
    assert_eq!(st.number_of_rows(), 4);
    assert_eq!(st.columns.len(), 1);
    assert_eq!(st.columns[0].name(), "a");
    assert_eq!(st.columns[0].column_id(), 1);

    let c = &st.columns[0];
    let present = st.stream_map().get_opt(c, Kind::Present).unwrap();
    assert_eq!(present.data, vec![10, 11]);
    let data = st.stream_map().get(c, Kind::Data).unwrap();
    assert_eq!(data.data, vec![20, 21, 22]);

    // A stream that is absent is no error through get_opt, and names the
    // column through get.
    assert!(st.stream_map().get_opt(c, Kind::Length).is_none());
    let e = st.stream_map().get(c, Kind::Length).unwrap_err();
    assert_eq!(e.kind(), ErrorKind::InvalidColumn);
}

#[test]
fn stripe_assembly_rejects_inconsistent_stream_lengths() {
    // The directory records 6 bytes of streams, the sections hold only 5.
    let (root, fields) = one_long_root();
    let footer = footer_with(vec![
        Stream { column: 1, kind: Kind::Present, length: 3 },
        Stream { column: 1, kind: Kind::Data, length: 3 },
    ]);
    let meta = StripeMetadata::try_new(&info(0, 0, 5, 9, 4), &no_stats()).unwrap();
    let e = Stripe::new(vec![0, 1, 2, 3, 4], footer, None, &root, &fields, 0, &meta)
        .unwrap_err();
    assert_eq!(e.kind(), ErrorKind::Unexpected);

    // The directory may also record too little: a short directory is equally
    // inconsistent and must be detected.
    let (root, fields) = one_long_root();
    let footer = footer_with(vec![Stream { column: 1, kind: Kind::Data, length: 4 }]);
    let meta = StripeMetadata::try_new(&info(0, 0, 5, 9, 4), &no_stats()).unwrap();
    let e = Stripe::new(vec![0, 1, 2, 3, 4], footer, None, &root, &fields, 0, &meta)
        .unwrap_err();
    assert_eq!(e.kind(), ErrorKind::Unexpected);
}

#[test]
fn stripe_assembly_rejects_projection_arity_mismatch() {
    let (root, _) = one_long_root();
    let meta = StripeMetadata::try_new(&info(0, 0, 0, 0, 0), &no_stats()).unwrap();
    let e = Stripe::new(Vec::new(), footer_with(Vec::new()), None, &root, &Vec::new(), 0, &meta)
        .unwrap_err();
    assert_eq!(e.kind(), ErrorKind::MismatchedSchema);
}

#[test]
fn stream_cursors_are_independent_per_call() {
    let (root, fields) = one_long_root();
    let footer = footer_with(vec![Stream { column: 1, kind: Kind::Data, length: 2 }]);
    let meta = StripeMetadata::try_new(&info(0, 0, 2, 0, 1), &no_stats()).unwrap();
    let st = Stripe::new(vec![7, 8], footer, Some(Compression::Zlib), &root, &fields, 3, &meta)
        .unwrap();
    assert_eq!(st.stripe_offset(), 3);
    let a = st.stream_map().get_opt(&st.columns[0], Kind::Data).unwrap();
    let b = st.stream_map().get_opt(&st.columns[0], Kind::Data).unwrap();
    assert_eq!(a.data, b.data);
    assert_eq!(a.compression, Some(Compression::Zlib));
}

#[test]
fn uncompressed_cursor_yields_bytes_as_they_are() {
    let d = Decompressor::new(vec![1, 2, 3], None);
    assert_eq!(d.into_bytes(), vec![1, 2, 3]);
}

#[test]
fn footer_getter_returns_the_decoded_footer() {
    let (root, fields) = one_long_root();
    let footer = footer_with(vec![Stream { column: 1, kind: Kind::Data, length: 1 }]);
    let meta = StripeMetadata::try_new(&info(0, 0, 1, 0, 1), &no_stats()).unwrap();
    let st = Stripe::new(vec![9], footer, None, &root, &fields, 0, &meta).unwrap();
    assert_eq!(st.footer().streams.len(), 1);
    assert_eq!(st.footer().streams[0].length, 1);
    let _c: &Column = &st.columns[0];
}

#[test]
fn later_duplicate_stream_entry_wins() {
    // A directory that repeats a (column, kind) key overrides its earlier
    // entry, so a lookup returns the later entry's bytes.
    let (root, fields) = one_long_root();
    let footer = footer_with(vec![
        Stream { column: 1, kind: Kind::Data, length: 2 },
        Stream { column: 1, kind: Kind::Data, length: 3 },
    ]);
    let meta = StripeMetadata::try_new(&info(0, 0, 5, 9, 4), &no_stats()).unwrap();
    let st = Stripe::new(vec![10, 11, 20, 21, 22], footer, None, &root, &fields, 0, &meta)
        .unwrap();
    let d = st.stream_map().get_opt(&st.columns[0], Kind::Data).unwrap();
    assert_eq!(d.data, vec![20, 21, 22]);
}
