//! Schemas: fields, their types, and what they hold.
use crate::metadata::{Metadata, MetadataValue, ValueView};
use vstd::prelude::*;

verus! {

/// The primitive types.
#[derive(Debug, Clone, Copy, PartialEq, Eq)]
pub enum PrimitiveType {
    String,
    Long,
    Integer,
    Short,
    Byte,
    Float,
    Double,
    Boolean,
    Binary,
    Date,
    Timestamp,
    TimestampNtz,
    Decimal { precision: u8, scale: u8 },
}

/// The type of a field.
#[derive(Debug, PartialEq, Eq)]
pub enum DataType {
    Primitive(PrimitiveType),
    Array(Box<ArrayType>),
    Struct(Box<StructType>),
    /// A map from keys to values.
    KeyValue(Box<MapType>),
    /// Semi-structured data; the fields describe how it is stored and are no columns.
    Variant(Box<StructType>),
}

/// A list of elements of one type.
#[derive(Debug, PartialEq, Eq)]
pub struct ArrayType {
    pub element_type: DataType,
    pub contains_null: bool,
}

/// A map whose keys have one type and whose values have one type.
#[derive(Debug, PartialEq, Eq)]
pub struct MapType {
    pub key_type: DataType,
    pub value_type: DataType,
    pub value_contains_null: bool,
}

/// An ordered list of fields: a table's schema, or the type of a column with columns of its own.
#[derive(Debug, PartialEq, Eq)]
pub struct StructType {
    pub fields: Vec<StructField>,
}

/// A column: its logical name, its type, whether it may be null, and its metadata.
#[derive(Debug, PartialEq, Eq)]
pub struct StructField {
    pub name: String,
    pub data_type: DataType,
    pub nullable: bool,
    pub metadata: Metadata,
}

/// What a [`DataType`] holds.
pub enum TypeView {
    Primitive(PrimitiveType),
    Array { element: Box<TypeView>, contains_null: bool },
    Struct(Seq<FieldView>),
    KeyValue { key: Box<TypeView>, value: Box<TypeView>, value_contains_null: bool },
    Variant(Seq<FieldView>),
}

/// What a [`StructField`] holds.
pub struct FieldView {
    pub name: Seq<char>,
    pub data_type: TypeView,
    pub nullable: bool,
    pub metadata: Map<Seq<char>, ValueView>,
}

/// What a type holds.
pub open spec fn type_view(data_type: DataType) -> TypeView
    decreases data_type,
{
    match data_type {
        DataType::Primitive(primitive) => TypeView::Primitive(primitive),
        DataType::Array(array) => TypeView::Array {
            element: Box::new(type_view(array.element_type)),
            contains_null: array.contains_null,
        },
        DataType::Struct(inner) => TypeView::Struct(fields_view(inner.fields@)),
        DataType::KeyValue(map) => TypeView::KeyValue {
            key: Box::new(type_view(map.key_type)),
            value: Box::new(type_view(map.value_type)),
            value_contains_null: map.value_contains_null,
        },
        DataType::Variant(inner) => TypeView::Variant(fields_view(inner.fields@)),
    }
}

/// What a field holds.
pub open spec fn field_view(field: StructField) -> FieldView
    decreases field,
{
    FieldView {
        name: field.name@,
        data_type: type_view(field.data_type),
        nullable: field.nullable,
        metadata: field.metadata@,
    }
}

/// What each of a list of fields holds.
pub open spec fn fields_view(fields: Seq<StructField>) -> Seq<FieldView>
    decreases fields,
{
    Seq::new(
        fields.len(),
        |i: int|
            if 0 <= i < fields.len() {
                field_view(fields[i])
            } else {
                arbitrary()
            },
    )
}

impl View for DataType {
    type V = TypeView;

    open spec fn view(&self) -> TypeView {
        type_view(*self)
    }
}

impl View for StructField {
    type V = FieldView;

    open spec fn view(&self) -> FieldView {
        field_view(*self)
    }
}

impl View for StructType {
    type V = Seq<FieldView>;

    open spec fn view(&self) -> Seq<FieldView> {
        fields_view(self.fields@)
    }
}

/// The map that a list of keys and values makes, where a later value takes the place of an
/// earlier one.
pub open spec fn pairs_map(pairs: Seq<(&str, MetadataValue)>) -> Map<Seq<char>, ValueView>
    decreases pairs.len(),
{
    if pairs.len() == 0 {
        Map::empty()
    } else {
        pairs_map(pairs.drop_last()).insert(pairs.last().0@, pairs.last().1@)
    }
}

impl StructField {
    /// A field without metadata.
    pub fn new(name: &str, data_type: DataType, nullable: bool) -> (r: Self)
        ensures
            r@ == (FieldView {
                name: name@,
                data_type: data_type@,
                nullable,
                metadata: Map::empty(),
            }),
    {
        StructField { name: name.to_owned(), data_type, nullable, metadata: Metadata::new() }
    }

    /// Replaces the metadata of a field.
    pub fn with_metadata(self, pairs: Vec<(&str, MetadataValue)>) -> (r: Self)
        ensures
            r@ == (FieldView { metadata: pairs_map(pairs@), ..self@ }),
    {
        let mut metadata = Metadata::new();
        let mut i: usize = 0;
        while i < pairs.len()
            invariant
                i <= pairs@.len(),
                metadata@ == pairs_map(pairs@.take(i as int)),
            decreases pairs@.len() - i,
        {
            assert(pairs@.take(i + 1).drop_last() =~= pairs@.take(i as int));
            metadata.insert(pairs[i].0, pairs[i].1.clone());
            i += 1;
        }
        assert(pairs@.take(i as int) =~= pairs@);
        StructField {
            name: self.name,
            data_type: self.data_type,
            nullable: self.nullable,
            metadata,
        }
    }
}

impl Clone for DataType {
    fn clone(&self) -> (r: Self)
        ensures
            r@ == self@,
        decreases *self,
    {
        match self {
            DataType::Primitive(primitive) => DataType::Primitive(*primitive),
            DataType::Array(array) => DataType::Array(
                Box::new(
                    ArrayType {
                        element_type: array.element_type.clone(),
                        contains_null: array.contains_null,
                    },
                ),
            ),
            DataType::Struct(inner) => DataType::Struct(
                Box::new(StructType { fields: clone_fields(&inner.fields) }),
            ),
            DataType::KeyValue(map) => DataType::KeyValue(
                Box::new(
                    MapType {
                        key_type: map.key_type.clone(),
                        value_type: map.value_type.clone(),
                        value_contains_null: map.value_contains_null,
                    },
                ),
            ),
            DataType::Variant(inner) => DataType::Variant(
                Box::new(StructType { fields: clone_fields(&inner.fields) }),
            ),
        }
    }
}

/// A copy of each of a list of fields.
pub(crate) fn clone_fields(fields: &Vec<StructField>) -> (r: Vec<StructField>)
    ensures
        fields_view(r@) == fields_view(fields@),
    decreases fields@,
{
    let mut copies: Vec<StructField> = Vec::new();
    let mut i: usize = 0;
    while i < fields.len()
        invariant
            i <= fields@.len(),
            copies@.len() == i,
            forall|j: int| 0 <= j < i ==> field_view(#[trigger] copies@[j]) == field_view(fields@[j]),
        decreases fields@.len() - i,
    {
        let copy = StructField {
            name: fields[i].name.clone(),
            data_type: fields[i].data_type.clone(),
            nullable: fields[i].nullable,
            metadata: fields[i].metadata.clone(),
        };
        copies.push(copy);
        i += 1;
    }
    assert(fields_view(copies@) =~= fields_view(fields@));
    copies
}

} // verus!
