use orc_reader::column::{usize_to_dec_string, Column};
use orc_reader::error::ErrorKind;
use orc_reader::field::{Field, FieldType, UnionField};
use orc_reader::proto::{ColumnEncoding, EncodingKind, StripeFooter};
use orc_reader::schema::{DataType, NamedColumn};
use std::sync::Arc;

fn empty_footer() -> Arc<StripeFooter> {
    Arc::new(StripeFooter { streams: Vec::new(), columns: Vec::new() })
}

fn field(name: &str, data_type: FieldType) -> Arc<Field> {
    Arc::new(Field { name: name.to_string(), data_type, nullable: true })
}

fn column(dt: DataType, f: Arc<Field>) -> Column {
    Column::new("c", &Arc::new(dt), &empty_footer(), 10, f)
}

#[test]
fn primitive_has_no_children() {
    let c = column(DataType::Long { column_index: 0 }, field("c", FieldType::Int64));
    let ch = c.children().unwrap();
    assert_eq!(ch.len(), 0);
}

#[test]
fn struct_children_paired_positionally() {
    let dt = DataType::Struct {
        column_index: 0,
        children: vec![
            NamedColumn {
                name: "a".to_string(),
                data_type: Arc::new(DataType::Long { column_index: 1 }),
            },
            NamedColumn {
                name: "b".to_string(),
                data_type: Arc::new(DataType::Boolean { column_index: 2 }),
            },
        ],
    };
    let f = field(
        "c",
        FieldType::Struct {
            fields: vec![field("x", FieldType::Int64), field("y", FieldType::Boolean)],
        },
    );
    let c = column(dt, f);
    let ch = c.children().unwrap();
    assert_eq!(ch.len(), 2);
    assert_eq!(ch[0].name(), "a");
    assert_eq!(ch[1].name(), "b");
    assert_eq!(ch[0].field.name, "x");
    assert_eq!(ch[1].field.name, "y");
    assert!(matches!(*ch[0].data_type, DataType::Long { column_index: 1 }));
    assert!(matches!(*ch[1].data_type, DataType::Boolean { column_index: 2 }));
    assert_eq!(ch[0].column_id(), 1);
    assert_eq!(ch[1].column_id(), 2);
}

#[test]
fn struct_arity_mismatch_is_mismatched_schema() {
    let dt = DataType::Struct {
        column_index: 0,
        children: vec![NamedColumn {
            name: "a".to_string(),
            data_type: Arc::new(DataType::Long { column_index: 1 }),
        }],
    };
    let f = field("c", FieldType::Struct { fields: vec![] });
    let c = column(dt, f);
    let e = c.children().unwrap_err();
    assert_eq!(e.kind(), ErrorKind::MismatchedSchema);
}

#[test]
fn list_child_is_named_item() {
    let dt = DataType::List {
        column_index: 0,
        child: Arc::new(DataType::Long { column_index: 1 }),
    };
    let f = field("c", FieldType::List { field: field("element", FieldType::Int64) });
    let c = column(dt, f);
    let ch = c.children().unwrap();
    assert_eq!(ch.len(), 1);
    assert_eq!(ch[0].name(), "item");
    assert!(matches!(*ch[0].data_type, DataType::Long { .. }));
}

#[test]
fn list_against_non_list_field_is_mismatched_schema() {
    let dt = DataType::List {
        column_index: 0,
        child: Arc::new(DataType::Long { column_index: 1 }),
    };
    let c = column(dt, field("c", FieldType::Int64));
    assert_eq!(c.children().unwrap_err().kind(), ErrorKind::MismatchedSchema);
}

fn map_entries(sorted: bool, entries: FieldType) -> Arc<Field> {
    field("c", FieldType::Mapping { entries: field("entries", entries), sorted })
}

fn map_data_type() -> DataType {
    DataType::Mapping {
        column_index: 0,
        key: Arc::new(DataType::String { column_index: 1 }),
        value: Arc::new(DataType::Long { column_index: 2 }),
    }
}

#[test]
fn map_children_are_key_and_value() {
    let f = map_entries(
        false,
        FieldType::Struct {
            fields: vec![field("keys", FieldType::Utf8), field("values", FieldType::Int64)],
        },
    );
    let c = column(map_data_type(), f);
    let ch = c.children().unwrap();
    assert_eq!(ch.len(), 2);
    assert_eq!(ch[0].name(), "key");
    assert_eq!(ch[1].name(), "value");
    assert!(matches!(*ch[0].data_type, DataType::String { .. }));
    assert!(matches!(*ch[1].data_type, DataType::Long { .. }));
}

#[test]
fn sorted_map_is_unsupported_whatever_the_entries() {
    // A well-shaped entries struct, but sorted.
    let good = map_entries(
        true,
        FieldType::Struct {
            fields: vec![field("keys", FieldType::Utf8), field("values", FieldType::Int64)],
        },
    );
    let c = column(map_data_type(), good);
    assert_eq!(c.children().unwrap_err().kind(), ErrorKind::UnsupportedTypeVariant);

    // A broken entries type: the sorted flag still decides first.
    let bad = map_entries(true, FieldType::Int64);
    let c = column(map_data_type(), bad);
    assert_eq!(c.children().unwrap_err().kind(), ErrorKind::UnsupportedTypeVariant);
}

#[test]
fn map_with_non_struct_entries_is_unexpected() {
    let c = column(map_data_type(), map_entries(false, FieldType::Int64));
    assert_eq!(c.children().unwrap_err().kind(), ErrorKind::Unexpected);
}

#[test]
fn map_with_wrong_entry_arity_is_unexpected() {
    let c = column(
        map_data_type(),
        map_entries(false, FieldType::Struct { fields: vec![field("keys", FieldType::Utf8)] }),
    );
    assert_eq!(c.children().unwrap_err().kind(), ErrorKind::Unexpected);
}

fn union_data_type() -> DataType {
    DataType::Union {
        column_index: 0,
        variants: vec![
            Arc::new(DataType::Long { column_index: 1 }),
            Arc::new(DataType::Boolean { column_index: 2 }),
        ],
    }
}

#[test]
fn union_ordinal_mismatch_is_mismatched_schema() {
    let f = field(
        "c",
        FieldType::Union {
            fields: vec![
                UnionField { type_id: 0, field: field("v0", FieldType::Int64) },
                UnionField { type_id: 2, field: field("v1", FieldType::Boolean) },
            ],
        },
    );
    let c = column(union_data_type(), f);
    assert_eq!(c.children().unwrap_err().kind(), ErrorKind::MismatchedSchema);
}

#[test]
fn union_children_named_by_ordinal() {
    let f = field(
        "c",
        FieldType::Union {
            fields: vec![
                UnionField { type_id: 0, field: field("v0", FieldType::Int64) },
                UnionField { type_id: 1, field: field("v1", FieldType::Boolean) },
            ],
        },
    );
    let c = column(union_data_type(), f);
    let ch = c.children().unwrap();
    assert_eq!(ch.len(), 2);
    assert_eq!(ch[0].name(), "0");
    assert_eq!(ch[1].name(), "1");
}

#[test]
fn children_twice_give_equal_results() {
    let dt = DataType::Struct {
        column_index: 0,
        children: vec![NamedColumn {
            name: "a".to_string(),
            data_type: Arc::new(DataType::Long { column_index: 1 }),
        }],
    };
    let f = field("c", FieldType::Struct { fields: vec![field("x", FieldType::Int64)] });
    let c = column(dt, f);
    let first = c.children().unwrap();
    let second = c.children().unwrap();
    assert_eq!(first.len(), second.len());
    for (a, b) in first.iter().zip(second.iter()) {
        assert_eq!(a.name(), b.name());
        assert_eq!(a.column_id(), b.column_id());
        assert_eq!(a.field.name, b.field.name);
        assert_eq!(a.number_of_rows, b.number_of_rows);
    }
}

#[test]
fn decimal_string_rendering() {
    assert_eq!(usize_to_dec_string(0), "0");
    assert_eq!(usize_to_dec_string(7), "7");
    assert_eq!(usize_to_dec_string(10), "10");
    assert_eq!(usize_to_dec_string(907), "907");
}

#[test]
fn encoding_and_dictionary_size_come_from_the_footer() {
    let footer = Arc::new(StripeFooter {
        streams: Vec::new(),
        columns: vec![
            ColumnEncoding { kind: EncodingKind::Direct, dictionary_size: None },
            ColumnEncoding { kind: EncodingKind::DictionaryV2, dictionary_size: Some(42) },
        ],
    });
    let c = Column::new(
        "s",
        &Arc::new(DataType::String { column_index: 1 }),
        &footer,
        5,
        field("s", FieldType::Utf8),
    );
    assert_eq!(c.dictionary_size(), 42);
    assert!(matches!(c.encoding().kind, EncodingKind::DictionaryV2));
    let c0 = Column::new(
        "b",
        &Arc::new(DataType::Boolean { column_index: 0 }),
        &footer,
        5,
        field("b", FieldType::Boolean),
    );
    assert_eq!(c0.dictionary_size(), 0);
}
