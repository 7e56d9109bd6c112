use orc_reader::column::Column;
use orc_reader::decoder::{
    array_decoder_factory, derive_present_vec, offsets_from_lengths,
    populate_lengths_with_nulls, ArrayBatchDecoder, ColumnStreams, DecodedArray,
    DictionaryArrayDecoder, ListArrayDecoder, MapArrayDecoder, PrimitiveArrayDecoder,
    StructArrayDecoder,
};
use orc_reader::error::ErrorKind;
use orc_reader::field::{Field, FieldType};
use orc_reader::proto::StripeFooter;
use orc_reader::pull::Pull;
use orc_reader::schema::DataType;
use std::sync::Arc;

fn field(name: &str, data_type: FieldType) -> Arc<Field> {
    Arc::new(Field { name: name.to_string(), data_type, nullable: true })
}

fn list_column() -> Column {
    Column::new(
        "l",
        &Arc::new(DataType::List {
            column_index: 0,
            child: Arc::new(DataType::Long { column_index: 1 }),
        }),
        &Arc::new(StripeFooter { streams: Vec::new(), columns: Vec::new() }),
        10,
        field("l", FieldType::List { field: field("item", FieldType::Int64) }),
    )
}

fn primitive(present: Option<Vec<bool>>, data: Vec<i64>) -> ArrayBatchDecoder {
    ArrayBatchDecoder::Primitive(PrimitiveArrayDecoder::new(present, data))
}

#[test]
fn derive_mask_parent_absence_dominates() {
    // The own stream would mark the middle row present, but the parent says
    // absent: the derived mask must stay false there, and the own stream is
    // only consumed for parent-present rows.
    let mut own = Some(Pull::new(vec![true, true]));
    let parent = vec![true, false, true];
    let m = derive_present_vec(&mut own, Some(&parent), 3).unwrap().unwrap();
    assert_eq!(m, vec![true, false, true]);
}

#[test]
fn derive_mask_without_own_stream_is_parent_mask() {
    let mut own: Option<Pull<bool>> = None;
    let parent = vec![false, true];
    let m = derive_present_vec(&mut own, Some(&parent), 2).unwrap().unwrap();
    assert_eq!(m, vec![false, true]);
}

#[test]
fn derive_mask_without_any_stream_is_none() {
    let mut own: Option<Pull<bool>> = None;
    assert!(derive_present_vec(&mut own, None, 4).unwrap().is_none());
}

#[test]
fn derive_mask_short_own_stream_is_io() {
    let mut own = Some(Pull::new(vec![true]));
    let e = derive_present_vec(&mut own, None, 2).unwrap_err();
    assert_eq!(e.kind(), ErrorKind::Io);
}

#[test]
fn populate_lengths_example() {
    // batch_size 3, presence [true, false, true], pulled lengths [2, 3].
    let full = populate_lengths_with_nulls(&vec![2, 3], 3, &Some(vec![true, false, true]));
    assert_eq!(full, vec![2, 0, 3]);
}

#[test]
fn offsets_example() {
    let off = offsets_from_lengths(&vec![2, 0, 3]).unwrap();
    assert_eq!(off, vec![0, 2, 2, 5]);
}

#[test]
fn offsets_overflow_is_rejected() {
    let e = offsets_from_lengths(&vec![u64::MAX, 1]).unwrap_err();
    assert_eq!(e.kind(), ErrorKind::Unexpected);
}

#[test]
fn primitive_decoder_places_values_at_present_rows() {
    let mut d = PrimitiveArrayDecoder::new(Some(vec![true, false, true]), vec![7, 8]);
    match d.next_batch(3, None).unwrap() {
        DecodedArray::Primitive { values, nulls } => {
            assert_eq!(values, vec![7, 0, 8]);
            assert_eq!(nulls, Some(vec![true, false, true]));
        },
        _ => panic!("expected a primitive array"),
    }
}

#[test]
fn primitive_decoder_short_data_is_io() {
    let mut d = PrimitiveArrayDecoder::new(None, vec![7]);
    let e = d.next_batch(2, None).unwrap_err();
    assert_eq!(e.kind(), ErrorKind::Io);
}

#[test]
fn list_decoder_pulls_lengths_only_for_present_rows() {
    // batch_size 3, presence [true, false, true], pulled lengths [2, 3]:
    // full lengths [2, 0, 3], offsets [0, 2, 2, 5], element decoder asked for 5.
    let inner = primitive(None, vec![1, 2, 3, 4, 5]);
    let mut d = ListArrayDecoder::new(
        &list_column(),
        inner,
        Some(vec![true, false, true]),
        vec![2, 3],
    )
    .unwrap();
    match d.next_batch(3, None).unwrap() {
        DecodedArray::List { offsets, elements, nulls } => {
            assert_eq!(offsets, vec![0, 2, 2, 5]);
            assert_eq!(nulls, Some(vec![true, false, true]));
            match *elements {
                DecodedArray::Primitive { ref values, ref nulls } => {
                    assert_eq!(values, &vec![1, 2, 3, 4, 5]);
                    assert!(nulls.is_none());
                },
                _ => panic!("expected primitive elements"),
            }
        },
        _ => panic!("expected a list array"),
    }
}

#[test]
fn list_round_trip() {
    // The encoded form of the rows [[1, 2], null, [], [3]]: presence
    // [true, false, true, true], one length per present row [2, 0, 1], and the
    // element values [1, 2, 3]. Decoding must reproduce exactly that
    // structure, with the empty-but-present row distinct from the null row.
    let inner = primitive(None, vec![1, 2, 3]);
    let mut d = ListArrayDecoder::new(
        &list_column(),
        inner,
        Some(vec![true, false, true, true]),
        vec![2, 0, 1],
    )
    .unwrap();
    match d.next_batch(4, None).unwrap() {
        DecodedArray::List { offsets, elements, nulls } => {
            assert_eq!(offsets, vec![0, 2, 2, 2, 3]);
            assert_eq!(nulls, Some(vec![true, false, true, true]));
            // Row 1 is null (mask false), row 2 is present and empty
            // (flat offsets): the two are distinguishable.
            let n = nulls.unwrap();
            assert!(!n[1]);
            assert!(n[2] && offsets[2] == offsets[3]);
            match *elements {
                DecodedArray::Primitive { ref values, .. } => {
                    assert_eq!(values, &vec![1, 2, 3]);
                },
                _ => panic!("expected primitive elements"),
            }
        },
        _ => panic!("expected a list array"),
    }
}

#[test]
fn list_decoder_is_resumable_across_batches() {
    let inner = primitive(None, vec![1, 2, 3]);
    let mut d = ListArrayDecoder::new(&list_column(), inner, None, vec![1, 2]).unwrap();
    match d.next_batch(1, None).unwrap() {
        DecodedArray::List { offsets, elements, .. } => {
            assert_eq!(offsets, vec![0, 1]);
            match *elements {
                DecodedArray::Primitive { ref values, .. } => assert_eq!(values, &vec![1]),
                _ => panic!("expected primitive elements"),
            }
        },
        _ => panic!("expected a list array"),
    }
    match d.next_batch(1, None).unwrap() {
        DecodedArray::List { offsets, elements, .. } => {
            assert_eq!(offsets, vec![0, 2]);
            match *elements {
                DecodedArray::Primitive { ref values, .. } => assert_eq!(values, &vec![2, 3]),
                _ => panic!("expected primitive elements"),
            }
        },
        _ => panic!("expected a list array"),
    }
}

#[test]
fn list_decoder_short_length_stream_is_io() {
    let inner = primitive(None, vec![1, 2, 3]);
    let mut d = ListArrayDecoder::new(&list_column(), inner, Some(vec![true, true]), vec![3])
        .unwrap();
    let e = d.next_batch(2, None).unwrap_err();
    assert_eq!(e.kind(), ErrorKind::Io);
}

#[test]
fn list_decoder_on_non_list_column_is_unexpected() {
    let c = Column::new(
        "b",
        &Arc::new(DataType::Boolean { column_index: 0 }),
        &Arc::new(StripeFooter { streams: Vec::new(), columns: Vec::new() }),
        1,
        field("b", FieldType::Boolean),
    );
    let e = ListArrayDecoder::new(&c, primitive(None, vec![]), None, vec![]).unwrap_err();
    assert_eq!(e.kind(), ErrorKind::Unexpected);
}

#[test]
fn struct_decoder_child_mask_is_false_where_struct_is_null() {
    // The struct's own presence marks row 1 null. The child has no presence
    // stream of its own, so its derived mask is the struct's: row 1 must be
    // null in the child even though the child could have supplied a value.
    let child = primitive(None, vec![5]);
    let mut d = StructArrayDecoder::new(vec![child], Some(vec![true, false]));
    match d.next_batch(2, None).unwrap() {
        DecodedArray::Struct { number_of_rows, children, nulls } => {
            assert_eq!(number_of_rows, 2);
            assert_eq!(nulls, Some(vec![true, false]));
            assert_eq!(children.len(), 1);
            match children[0] {
                DecodedArray::Primitive { ref values, ref nulls } => {
                    assert_eq!(values, &vec![5, 0]);
                    assert_eq!(nulls, &Some(vec![true, false]));
                },
                _ => panic!("expected a primitive child"),
            }
        },
        _ => panic!("expected a struct array"),
    }
}

#[test]
fn struct_decoder_child_own_stream_consumed_only_for_present_rows() {
    // Child has its own presence stream with one entry per struct-present row.
    let child = ArrayBatchDecoder::Primitive(PrimitiveArrayDecoder::new(
        Some(vec![true, false]),
        vec![9],
    ));
    let mut d = StructArrayDecoder::new(vec![child], Some(vec![true, false, true]));
    match d.next_batch(3, None).unwrap() {
        DecodedArray::Struct { children, .. } => match children[0] {
            DecodedArray::Primitive { ref values, ref nulls } => {
                assert_eq!(values, &vec![9, 0, 0]);
                assert_eq!(nulls, &Some(vec![true, false, false]));
            },
            _ => panic!("expected a primitive child"),
        },
        _ => panic!("expected a struct array"),
    }
}

#[test]
fn nested_list_of_struct_decodes() {
    // A list whose elements are structs of one long column.
    let inner_struct = ArrayBatchDecoder::Struct(StructArrayDecoder::new(
        vec![primitive(None, vec![1, 2, 3])],
        None,
    ));
    let list_of_struct_column = Column::new(
        "l",
        &Arc::new(DataType::List {
            column_index: 0,
            child: Arc::new(DataType::Struct { column_index: 1, children: vec![] }),
        }),
        &Arc::new(StripeFooter { streams: Vec::new(), columns: Vec::new() }),
        10,
        field(
            "l",
            FieldType::List { field: field("item", FieldType::Struct { fields: vec![] }) },
        ),
    );
    let mut d = ListArrayDecoder::new(&list_of_struct_column, inner_struct, None, vec![2, 1])
        .unwrap();
    match d.next_batch(2, None).unwrap() {
        DecodedArray::List { offsets, elements, .. } => {
            assert_eq!(offsets, vec![0, 2, 3]);
            match *elements {
                DecodedArray::Struct { number_of_rows, ref children, .. } => {
                    assert_eq!(number_of_rows, 3);
                    match children[0] {
                        DecodedArray::Primitive { ref values, .. } => {
                            assert_eq!(values, &vec![1, 2, 3])
                        },
                        _ => panic!("expected a primitive grandchild"),
                    }
                },
                _ => panic!("expected struct elements"),
            }
        },
        _ => panic!("expected a list array"),
    }
}

fn map_column() -> Column {
    Column::new(
        "m",
        &Arc::new(DataType::Mapping {
            column_index: 0,
            key: Arc::new(DataType::Long { column_index: 1 }),
            value: Arc::new(DataType::Long { column_index: 2 }),
        }),
        &Arc::new(StripeFooter { streams: Vec::new(), columns: Vec::new() }),
        10,
        field(
            "m",
            FieldType::Mapping {
                entries: field(
                    "entries",
                    FieldType::Struct {
                        fields: vec![field("key", FieldType::Int64), field("value", FieldType::Int64)],
                    },
                ),
                sorted: false,
            },
        ),
    )
}

#[test]
fn map_decoder_mirrors_the_list_algorithm() {
    let keys = primitive(None, vec![1, 2, 3]);
    let vals = primitive(None, vec![10, 20, 30]);
    let mut d = MapArrayDecoder::new(&map_column(), keys, vals, None, vec![2, 1]).unwrap();
    match d.next_batch(2, None).unwrap() {
        DecodedArray::Mapping { offsets, keys, vals, nulls } => {
            assert_eq!(offsets, vec![0, 2, 3]);
            assert!(nulls.is_none());
            match *keys {
                DecodedArray::Primitive { ref values, .. } => assert_eq!(values, &vec![1, 2, 3]),
                _ => panic!("expected primitive keys"),
            }
            match *vals {
                DecodedArray::Primitive { ref values, .. } => {
                    assert_eq!(values, &vec![10, 20, 30])
                },
                _ => panic!("expected primitive values"),
            }
        },
        _ => panic!("expected a map array"),
    }
}

#[test]
fn map_decoder_rejects_sorted_output_map() {
    let mut c = map_column();
    c = Column::new(
        "m",
        &c.data_type,
        &c.footer,
        10,
        field(
            "m",
            FieldType::Mapping {
                entries: field(
                    "entries",
                    FieldType::Struct {
                        fields: vec![field("key", FieldType::Int64), field("value", FieldType::Int64)],
                    },
                ),
                sorted: true,
            },
        ),
    );
    let e = MapArrayDecoder::new(&c, primitive(None, vec![]), primitive(None, vec![]), None, vec![])
        .unwrap_err();
    assert_eq!(e.kind(), ErrorKind::UnsupportedTypeVariant);
}

#[test]
fn dictionary_decoder_resolves_indices() {
    let mut d = DictionaryArrayDecoder::new(vec![100, 200, 300], vec![2, 0, 0, 1], None);
    match d.next_batch(4, None).unwrap() {
        DecodedArray::Primitive { values, nulls } => {
            assert_eq!(values, vec![300, 100, 100, 200]);
            assert!(nulls.is_none());
        },
        _ => panic!("expected a primitive array"),
    }
}

#[test]
fn dictionary_decoder_rejects_out_of_range_index() {
    let mut d = DictionaryArrayDecoder::new(vec![100], vec![1], None);
    let e = d.next_batch(1, None).unwrap_err();
    assert_eq!(e.kind(), ErrorKind::Unexpected);
}

#[test]
fn dictionary_decoder_skips_indices_for_absent_rows() {
    let mut d = DictionaryArrayDecoder::new(
        vec![100, 200],
        vec![1, 0],
        Some(vec![true, false, true]),
    );
    match d.next_batch(3, None).unwrap() {
        DecodedArray::Primitive { values, nulls } => {
            assert_eq!(values, vec![200, 0, 100]);
            assert_eq!(nulls, Some(vec![true, false, true]));
        },
        _ => panic!("expected a primitive array"),
    }
}

#[test]
fn factory_builds_a_list_decoder_tree() {
    let streams = ColumnStreams::List {
        present: Some(vec![true, false, true, true]),
        lengths: vec![2, 0, 1],
        item: Box::new(ColumnStreams::Primitive { present: None, data: vec![1, 2, 3] }),
    };
    let mut d = array_decoder_factory(&list_column(), streams).unwrap();
    match d.next_batch(4, None).unwrap() {
        DecodedArray::List { offsets, elements, nulls } => {
            assert_eq!(offsets, vec![0, 2, 2, 2, 3]);
            assert_eq!(nulls, Some(vec![true, false, true, true]));
            match *elements {
                DecodedArray::Primitive { ref values, .. } => assert_eq!(values, &vec![1, 2, 3]),
                _ => panic!("expected primitive elements"),
            }
        },
        _ => panic!("expected a list array"),
    }
}

#[test]
fn factory_rejects_streams_that_do_not_follow_the_schema() {
    // A primitive stream bundle for a list column is an engine inconsistency.
    let streams = ColumnStreams::Primitive { present: None, data: vec![1] };
    let e = array_decoder_factory(&list_column(), streams).unwrap_err();
    assert_eq!(e.kind(), ErrorKind::Unexpected);
}

#[test]
fn factory_propagates_schema_mismatches() {
    // The column's output field is not a list, so child derivation fails
    // before any decoder is built.
    let c = Column::new(
        "l",
        &Arc::new(DataType::List {
            column_index: 0,
            child: Arc::new(DataType::Long { column_index: 1 }),
        }),
        &Arc::new(StripeFooter { streams: Vec::new(), columns: Vec::new() }),
        10,
        field("l", FieldType::Int64),
    );
    let streams = ColumnStreams::List {
        present: None,
        lengths: vec![],
        item: Box::new(ColumnStreams::Primitive { present: None, data: vec![] }),
    };
    let e = array_decoder_factory(&c, streams).unwrap_err();
    assert_eq!(e.kind(), ErrorKind::MismatchedSchema);
}

#[test]
fn factory_builds_a_struct_decoder_tree() {
    let c = Column::new(
        "s",
        &Arc::new(DataType::Struct {
            column_index: 0,
            children: vec![orc_reader::schema::NamedColumn {
                name: "a".to_string(),
                data_type: Arc::new(DataType::Long { column_index: 1 }),
            }],
        }),
        &Arc::new(StripeFooter { streams: Vec::new(), columns: Vec::new() }),
        10,
        field("s", FieldType::Struct { fields: vec![field("a", FieldType::Int64)] }),
    );
    let streams = ColumnStreams::Struct {
        present: Some(vec![true, false]),
        children: vec![ColumnStreams::Primitive { present: None, data: vec![5] }],
    };
    let mut d = array_decoder_factory(&c, streams).unwrap();
    match d.next_batch(2, None).unwrap() {
        DecodedArray::Struct { number_of_rows, children, nulls } => {
            assert_eq!(number_of_rows, 2);
            assert_eq!(nulls, Some(vec![true, false]));
            match children[0] {
                DecodedArray::Primitive { ref values, ref nulls } => {
                    assert_eq!(values, &vec![5, 0]);
                    assert_eq!(nulls, &Some(vec![true, false]));
                },
                _ => panic!("expected a primitive child"),
            }
        },
        _ => panic!("expected a struct array"),
    }
}
