//! Schema resolution: a `Column` pairs one logical type node with the output
//! field it will be decoded into, plus the shared stripe footer and the
//! stripe's row count. Children are derived on demand and re-validated against
//! the output field tree on every derivation.
use vstd::prelude::*;
use std::sync::Arc;

use crate::error::{ErrorKind, OrcError};
use crate::field::{Field, FieldType};
use crate::proto::{ColumnEncoding, StripeFooter};
use crate::schema::DataType;
use crate::share;

verus! {

/// A navigation node of the schema resolver.
#[derive(Debug)]
pub struct Column {
    pub number_of_rows: u64,
    pub footer: Arc<StripeFooter>,
    pub name: String,
    /// ORC logical type of this column.
    pub data_type: Arc<DataType>,
    /// Output field the column will be decoded into.
    pub field: Arc<Field>,
}

/// The decimal digit character for `d` in 0..=9.
pub open spec fn dec_digit(d: int) -> char {
    if d == 0 {
        '0'
    } else if d == 1 {
        '1'
    } else if d == 2 {
        '2'
    } else if d == 3 {
        '3'
    } else if d == 4 {
        '4'
    } else if d == 5 {
        '5'
    } else if d == 6 {
        '6'
    } else if d == 7 {
        '7'
    } else if d == 8 {
        '8'
    } else {
        '9'
    }
}

/// The decimal digit string of a non-negative `n`, most significant first.
pub open spec fn dec_str(n: int) -> Seq<char>
    decreases n,
{
    if n <= 9 {
        seq![dec_digit(n)]
    } else {
        dec_str(n / 10).push(dec_digit(n % 10))
    }
}

fn dec_digit_str(d: usize) -> (r: &'static str)
    requires
        d < 10,
    ensures
        r@ == seq![dec_digit(d as int)],
{
    proof {
        reveal_strlit("0");
        reveal_strlit("1");
        reveal_strlit("2");
        reveal_strlit("3");
        reveal_strlit("4");
        reveal_strlit("5");
        reveal_strlit("6");
        reveal_strlit("7");
        reveal_strlit("8");
        reveal_strlit("9");
    }
    let r: &'static str = if d == 0 {
        "0"
    } else if d == 1 {
        "1"
    } else if d == 2 {
        "2"
    } else if d == 3 {
        "3"
    } else if d == 4 {
        "4"
    } else if d == 5 {
        "5"
    } else if d == 6 {
        "6"
    } else if d == 7 {
        "7"
    } else if d == 8 {
        "8"
    } else {
        "9"
    };
    proof {
        assert(r@ =~= seq![dec_digit(d as int)]);
    }
    r
}

/// Renders `n` in decimal, the name given to a union variant child.
pub fn usize_to_dec_string(n: usize) -> (r: String)
    ensures
        r@ == dec_str(n as int),
    decreases n,
{
    if n <= 9 {
        String::from_str(dec_digit_str(n))
    } else {
        let mut s = usize_to_dec_string(n / 10);
        let d: usize = n % 10;
        s.append(dec_digit_str(d));
        proof {
            assert(s@ =~= dec_str(n as int / 10).push(dec_digit(n as int % 10)));
        }
        s
    }
}

/// The outcome of child derivation for one (logical type, output type) pair:
/// `None` when derivation succeeds, or the kind of failure.
pub open spec fn children_error(dt: DataType, ft: FieldType) -> Option<ErrorKind> {
    match dt {
        DataType::Struct { children, .. } => match ft {
            FieldType::Struct { fields } => if children@.len() == fields@.len() {
                None
            } else {
                Some(ErrorKind::MismatchedSchema)
            },
            _ => Some(ErrorKind::MismatchedSchema),
        },
        DataType::List { .. } => match ft {
            FieldType::List { .. } => None,
            _ => Some(ErrorKind::MismatchedSchema),
        },
        DataType::Mapping { .. } => match ft {
            FieldType::Mapping { entries, sorted } => if sorted {
                Some(ErrorKind::UnsupportedTypeVariant)
            } else {
                match (*entries).data_type {
                    FieldType::Struct { fields } => if fields@.len() == 2 {
                        None
                    } else {
                        Some(ErrorKind::Unexpected)
                    },
                    _ => Some(ErrorKind::Unexpected),
                }
            },
            _ => Some(ErrorKind::MismatchedSchema),
        },
        DataType::Union { variants, .. } => match ft {
            FieldType::Union { fields } => if variants@.len() != fields@.len() {
                Some(ErrorKind::MismatchedSchema)
            } else if exists|i: int|
                0 <= i < fields@.len() && (#[trigger] fields@[i]).type_id as int != i {
                Some(ErrorKind::MismatchedSchema)
            } else {
                None
            },
            _ => Some(ErrorKind::MismatchedSchema),
        },
        _ => None,
    }
}

/// What every derived child shares with its parent, and what is its own:
/// the parent's row count and footer, and the given name, type and field.
pub open spec fn valid_child(
    parent: Column,
    ch: Column,
    name: Seq<char>,
    dt: Arc<DataType>,
    f: Arc<Field>,
) -> bool {
    &&& ch.number_of_rows == parent.number_of_rows
    &&& ch.footer == parent.footer
    &&& ch.name@ == name
    &&& ch.data_type == dt
    &&& ch.field == f
}

/// The full specification of a successful child derivation for `c`.
pub open spec fn valid_children(c: Column, r: Seq<Column>) -> bool {
    match *c.data_type {
        DataType::Struct { children, .. } => match (*c.field).data_type {
            FieldType::Struct { fields } => {
                &&& r.len() == children@.len()
                &&& forall|i: int|
                    0 <= i < r.len() ==> valid_child(
                        c,
                        #[trigger] r[i],
                        children@[i].name@,
                        children@[i].data_type,
                        fields@[i],
                    )
            },
            _ => false,
        },
        DataType::List { child, .. } => match (*c.field).data_type {
            FieldType::List { field } => r.len() == 1 && valid_child(
                c,
                r[0],
                "item"@,
                child,
                field,
            ),
            _ => false,
        },
        DataType::Mapping { key, value, .. } => match (*c.field).data_type {
            FieldType::Mapping { entries, .. } => match (*entries).data_type {
                FieldType::Struct { fields } => {
                    &&& r.len() == 2
                    &&& valid_child(c, r[0], "key"@, key, fields@[0])
                    &&& valid_child(c, r[1], "value"@, value, fields@[1])
                },
                _ => false,
            },
            _ => false,
        },
        DataType::Union { variants, .. } => match (*c.field).data_type {
            FieldType::Union { fields } => {
                &&& r.len() == variants@.len()
                &&& forall|i: int|
                    0 <= i < r.len() ==> valid_child(
                        c,
                        #[trigger] r[i],
                        dec_str(i),
                        variants@[i],
                        fields@[i].field,
                    )
            },
            _ => false,
        },
        _ => r.len() == 0,
    }
}

impl Column {
    pub fn new(
        name: &str,
        data_type: &Arc<DataType>,
        footer: &Arc<StripeFooter>,
        number_of_rows: u64,
        field: Arc<Field>,
    ) -> (r: Self)
        ensures
            r.number_of_rows == number_of_rows,
            r.footer == *footer,
            r.name@ == name@,
            r.data_type == *data_type,
            r.field == field,
    {
        Self {
            number_of_rows,
            footer: share(footer),
            data_type: share(data_type),
            name: name.to_owned(),
            field,
        }
    }

    /// The number of dictionary entries recorded for this column, zero when
    /// the footer records none.
    pub fn dictionary_size(&self) -> (r: usize)
        requires
            (*self.data_type).column_index_spec() < (*self.footer).columns@.len(),
    ensures
            r == match (*self.footer).columns@[(*self.data_type).column_index_spec() as int].dictionary_size {
                Some(n) => n as usize,
                None => 0usize,
            },
    {
        let column: usize = self.data_type.column_index();
        match self.footer.columns[column].dictionary_size {
            Some(n) => n as usize,
            None => 0,
        }
    }

    /// The footer's encoding entry for this column.
    pub fn encoding(&self) -> (r: ColumnEncoding)
        requires
            (*self.data_type).column_index_spec() < (*self.footer).columns@.len(),
        ensures
            r == (*self.footer).columns@[(*self.data_type).column_index_spec() as int],
    {
        let column: usize = self.data_type.column_index();
        self.footer.columns[column]
    }

    pub fn data_type(&self) -> (r: &DataType)
        ensures
            *r == *self.data_type,
    {
        &*self.data_type
    }

    pub fn name(&self) -> (r: &str)
        ensures
            r@ == self.name@,
    {
        self.name.as_str()
    }

    /// The column's stable id, used to key stream lookups.
    pub fn column_id(&self) -> (r: u32)
        requires
            (*self.data_type).column_index_spec() <= u32::MAX,
        ensures
            r == (*self.data_type).column_index_spec() as u32,
    {
        #[verifier::truncate]
        let r = self.data_type.column_index() as u32;
        r
    }

    pub fn field(&self) -> (r: Arc<Field>)
        ensures
            r == self.field,
    {
        share(&self.field)
    }

    /// Derives the ordered list of child columns, re-validating structural
    /// congruence between the logical type and the output field:
    /// struct children are paired positionally, a list has the single child
    /// "item", a map the pair "key"/"value", and a union one child per
    /// variant, named by its ordinal.
    #[verifier::loop_isolation(false)]
    pub fn children(&self) -> (r: Result<Vec<Column>, OrcError>)
        ensures
            ({
                let ce = children_error(*self.data_type, (*self.field).data_type);
                match r {
                    Ok(cs) => ce is None && valid_children(*self, cs@),
                    Err(e) => ce is Some && e.kind_spec() == ce->0,
                }
            }),
    {
        let fld: &Field = &*self.field;
        proof {
            assert(*fld == *self.field);
        }
        match &*self.data_type {
            DataType::Struct { children, .. } => match &fld.data_type {
                FieldType::Struct { fields } => {
                    if children.len() != fields.len() {
                        return Err(OrcError::MismatchedSchema);
                    }
                    let mut out: Vec<Column> = Vec::new();
                    let mut i: usize = 0;
                    while i < children.len()
                        invariant
                            i <= children@.len(),
                            children@.len() == fields@.len(),
                            out@.len() == i,
                            forall|j: int|
                                0 <= j < i ==> valid_child(
                                    *self,
                                    #[trigger] out@[j],
                                    children@[j].name@,
                                    children@[j].data_type,
                                    fields@[j],
                                ),
                        decreases children@.len() - i,
                    {
                        let c = &children[i];
                        out.push(
                            Column {
                                number_of_rows: self.number_of_rows,
                                footer: share(&self.footer),
                                name: c.name.clone(),
                                data_type: share(&c.data_type),
                                field: share(&fields[i]),
                            },
                        );
                        i = i + 1;
                    }
                    Ok(out)
                },
                _ => Err(OrcError::MismatchedSchema),
            },
            DataType::List { child, .. } => match &fld.data_type {
                FieldType::List { field } => {
                    let mut out: Vec<Column> = Vec::new();
                    out.push(
                        Column {
                            number_of_rows: self.number_of_rows,
                            footer: share(&self.footer),
                            name: String::from_str("item"),
                            data_type: share(child),
                            field: share(field),
                        },
                    );
                    Ok(out)
                },
                _ => Err(OrcError::MismatchedSchema),
            },
            DataType::Mapping { key, value, .. } => match &fld.data_type {
                FieldType::Mapping { entries, sorted } => {
                    if *sorted {
                        return Err(OrcError::UnsupportedTypeVariant);
                    }
                    let ent: &Field = &**entries;
                    match &ent.data_type {
                        FieldType::Struct { fields } => {
                            if fields.len() != 2 {
                                return Err(OrcError::Unexpected);
                            }
                            let mut out: Vec<Column> = Vec::new();
                            out.push(
                                Column {
                                    number_of_rows: self.number_of_rows,
                                    footer: share(&self.footer),
                                    name: String::from_str("key"),
                                    data_type: share(key),
                                    field: share(&fields[0]),
                                },
                            );
                            out.push(
                                Column {
                                    number_of_rows: self.number_of_rows,
                                    footer: share(&self.footer),
                                    name: String::from_str("value"),
                                    data_type: share(value),
                                    field: share(&fields[1]),
                                },
                            );
                            Ok(out)
                        },
                        _ => Err(OrcError::Unexpected),
                    }
                },
                _ => Err(OrcError::MismatchedSchema),
            },
            DataType::Union { variants, .. } => match &fld.data_type {
                FieldType::Union { fields } => {
                    if variants.len() != fields.len() {
                        return Err(OrcError::MismatchedSchema);
                    }
                    let mut out: Vec<Column> = Vec::new();
                    let mut i: usize = 0;
                    while i < variants.len()
                        invariant
                            i <= variants@.len(),
                            variants@.len() == fields@.len(),
                            out@.len() == i,
                            forall|j: int| 0 <= j < i ==> (#[trigger] fields@[j]).type_id as int == j,
                            forall|j: int|
                                0 <= j < i ==> valid_child(
                                    *self,
                                    #[trigger] out@[j],
                                    dec_str(j),
                                    variants@[j],
                                    fields@[j].field,
                                ),
                        decreases variants@.len() - i,
                    {
                        if fields[i].type_id != i {
                            proof {
                                assert(exists|j: int|
                                    0 <= j < fields@.len() && (#[trigger] fields@[
                                        j
                                    ]).type_id as int != j);
                            }
                            return Err(OrcError::MismatchedSchema);
                        }
                        out.push(
                            Column {
                                number_of_rows: self.number_of_rows,
                                footer: share(&self.footer),
                                name: usize_to_dec_string(i),
                                data_type: share(&variants[i]),
                                field: share(&fields[i].field),
                            },
                        );
                        i = i + 1;
                    }
                    Ok(out)
                },
                _ => Err(OrcError::MismatchedSchema),
            },
            _ => Ok(Vec::new()),
        }
    }
}

/// Two derived columns that agree on everything the derivation determines:
/// row count, footer, name text, logical type and output field.
pub open spec fn columns_alike(a: Column, b: Column) -> bool {
    &&& a.number_of_rows == b.number_of_rows
    &&& a.footer == b.footer
    &&& a.name@ == b.name@
    &&& a.data_type == b.data_type
    &&& a.field == b.field
}

/// Law: schema resolution is deterministic, hence idempotent. Any two child
/// lists that satisfy the derivation contract for the same column agree
/// pairwise on everything the derivation determines, so deriving twice from
/// the same column yields structurally equal results.
pub proof fn lemma_children_deterministic(c: Column, r1: Seq<Column>, r2: Seq<Column>)
    requires
        valid_children(c, r1),
        valid_children(c, r2),
    ensures
        r1.len() == r2.len(),
        forall|i: int| 0 <= i < r1.len() ==> columns_alike(#[trigger] r1[i], r2[i]),
{
}

/// Law: deriving the children of a map column whose output field is a sorted
/// map fails with `UnsupportedTypeVariant`, whatever its entries look like.
pub proof fn lemma_sorted_map_unsupported(dt: DataType, ft: FieldType)
    requires
        dt matches DataType::Mapping { .. },
        ft matches FieldType::Mapping { sorted: true, .. },
    ensures
        children_error(dt, ft) == Some(ErrorKind::UnsupportedTypeVariant),
{
}

/// Law: deriving the children of a union column fails with `MismatchedSchema`
/// whenever some logical variant ordinal does not align with the output union
/// field ordinal at the same position.
pub proof fn lemma_union_ordinal_mismatch(dt: DataType, ft: FieldType, i: int)
    requires
        dt matches DataType::Union { .. },
        ft matches FieldType::Union { fields } && 0 <= i < fields@.len() && fields@[
            i
        ].type_id as int != i,
    ensures
        children_error(dt, ft) == Some(ErrorKind::MismatchedSchema),
{
    match ft {
        FieldType::Union { fields } => {
            assert(0 <= i < fields@.len() && fields@[i].type_id as int != i);
        },
        _ => {},
    }
}

} // verus!
