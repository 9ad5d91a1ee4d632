//! Column types, fields and schemas.
//!
//! A schema is an ordered sequence of named, typed fields. Two schemas are
//! the same when they hold the same names with the same types in the same
//! order.

use crate::text::{lowered, matches_ignoring_case};
use vstd::prelude::*;

verus! {

/// The type of a column.
///
/// The named variants are the types a new column can be given. A file may
/// hold columns of further types; those are carried as `Other` with the
/// name of the type, and can be kept, dropped and compared but not created.
#[derive(Debug, PartialEq, Eq)]
pub enum DataType {
    Int8,
    Int16,
    Int32,
    Int64,
    UInt8,
    UInt16,
    UInt32,
    UInt64,
    Float32,
    Float64,
    Utf8,
    Binary,
    Boolean,
    Other(String),
}

/// What a [`DataType`] stands for.
pub ghost enum TypeModel {
    Int8,
    Int16,
    Int32,
    Int64,
    UInt8,
    UInt16,
    UInt32,
    UInt64,
    Float32,
    Float64,
    Utf8,
    Binary,
    Boolean,
    Other(Seq<char>),
}

impl View for DataType {
    type V = TypeModel;

    open spec fn view(&self) -> TypeModel {
        match self {
            DataType::Int8 => TypeModel::Int8,
            DataType::Int16 => TypeModel::Int16,
            DataType::Int32 => TypeModel::Int32,
            DataType::Int64 => TypeModel::Int64,
            DataType::UInt8 => TypeModel::UInt8,
            DataType::UInt16 => TypeModel::UInt16,
            DataType::UInt32 => TypeModel::UInt32,
            DataType::UInt64 => TypeModel::UInt64,
            DataType::Float32 => TypeModel::Float32,
            DataType::Float64 => TypeModel::Float64,
            DataType::Utf8 => TypeModel::Utf8,
            DataType::Binary => TypeModel::Binary,
            DataType::Boolean => TypeModel::Boolean,
            DataType::Other(name) => TypeModel::Other(name@),
        }
    }
}

impl Clone for DataType {
    fn clone(&self) -> (copy: DataType)
        ensures
            copy@ == self@,
    {
        match self {
            DataType::Int8 => DataType::Int8,
            DataType::Int16 => DataType::Int16,
            DataType::Int32 => DataType::Int32,
            DataType::Int64 => DataType::Int64,
            DataType::UInt8 => DataType::UInt8,
            DataType::UInt16 => DataType::UInt16,
            DataType::UInt32 => DataType::UInt32,
            DataType::UInt64 => DataType::UInt64,
            DataType::Float32 => DataType::Float32,
            DataType::Float64 => DataType::Float64,
            DataType::Utf8 => DataType::Utf8,
            DataType::Binary => DataType::Binary,
            DataType::Boolean => DataType::Boolean,
            DataType::Other(name) => DataType::Other(name.clone()),
        }
    }
}

/// The name a type is written with.
pub open spec fn name_of_type(t: TypeModel) -> Seq<char> {
    match t {
        TypeModel::Int8 => "Int8"@,
        TypeModel::Int16 => "Int16"@,
        TypeModel::Int32 => "Int32"@,
        TypeModel::Int64 => "Int64"@,
        TypeModel::UInt8 => "UInt8"@,
        TypeModel::UInt16 => "UInt16"@,
        TypeModel::UInt32 => "UInt32"@,
        TypeModel::UInt64 => "UInt64"@,
        TypeModel::Float32 => "Float32"@,
        TypeModel::Float64 => "Float64"@,
        TypeModel::Utf8 => "Utf8"@,
        TypeModel::Binary => "Binary"@,
        TypeModel::Boolean => "Boolean"@,
        TypeModel::Other(name) => name,
    }
}

/// Whether a column of this type can be created.
pub open spec fn is_supported(t: TypeModel) -> bool {
    !(t is Other)
}

impl DataType {
    /// Whether two types are the same.
    pub fn same_as(&self, other: &DataType) -> (same: bool)
        ensures
            same == (self@ == other@),
    {
        match (self, other) {
            (DataType::Int8, DataType::Int8) => true,
            (DataType::Int16, DataType::Int16) => true,
            (DataType::Int32, DataType::Int32) => true,
            (DataType::Int64, DataType::Int64) => true,
            (DataType::UInt8, DataType::UInt8) => true,
            (DataType::UInt16, DataType::UInt16) => true,
            (DataType::UInt32, DataType::UInt32) => true,
            (DataType::UInt64, DataType::UInt64) => true,
            (DataType::Float32, DataType::Float32) => true,
            (DataType::Float64, DataType::Float64) => true,
            (DataType::Utf8, DataType::Utf8) => true,
            (DataType::Binary, DataType::Binary) => true,
            (DataType::Boolean, DataType::Boolean) => true,
            (DataType::Other(a), DataType::Other(b)) => *a == *b,
            _ => false,
        }
    }

    /// Whether a column of this type can be created.
    pub fn supported(&self) -> (yes: bool)
        ensures
            yes == is_supported(self@),
    {
        match self {
            DataType::Other(_) => false,
            _ => true,
        }
    }

    /// The name the type is written with.
    pub fn name(&self) -> (name: String)
        ensures
            name@ == name_of_type(self@),
    {
        match self {
            DataType::Int8 => String::from_str("Int8"),
            DataType::Int16 => String::from_str("Int16"),
            DataType::Int32 => String::from_str("Int32"),
            DataType::Int64 => String::from_str("Int64"),
            DataType::UInt8 => String::from_str("UInt8"),
            DataType::UInt16 => String::from_str("UInt16"),
            DataType::UInt32 => String::from_str("UInt32"),
            DataType::UInt64 => String::from_str("UInt64"),
            DataType::Float32 => String::from_str("Float32"),
            DataType::Float64 => String::from_str("Float64"),
            DataType::Utf8 => String::from_str("Utf8"),
            DataType::Binary => String::from_str("Binary"),
            DataType::Boolean => String::from_str("Boolean"),
            DataType::Other(name) => name.clone(),
        }
    }
}

/// The type that a user's spelling stands for, capitals and small letters
/// alike: `int8`/`i8` up to `int64`/`i64`, `uint8`/`u8` up to
/// `uint64`/`u64`, `float32`/`f32`, `float64`/`f64`, `string`/`utf8`,
/// `binary`, `bool`/`boolean`. Any other spelling stands for no type.
pub open spec fn type_spelled(text: Seq<char>) -> Option<TypeModel> {
    let t = lowered(text);
    if t == "int8"@ || t == "i8"@ {
        Some(TypeModel::Int8)
    } else if t == "int16"@ || t == "i16"@ {
        Some(TypeModel::Int16)
    } else if t == "int32"@ || t == "i32"@ {
        Some(TypeModel::Int32)
    } else if t == "int64"@ || t == "i64"@ {
        Some(TypeModel::Int64)
    } else if t == "uint8"@ || t == "u8"@ {
        Some(TypeModel::UInt8)
    } else if t == "uint16"@ || t == "u16"@ {
        Some(TypeModel::UInt16)
    } else if t == "uint32"@ || t == "u32"@ {
        Some(TypeModel::UInt32)
    } else if t == "uint64"@ || t == "u64"@ {
        Some(TypeModel::UInt64)
    } else if t == "float32"@ || t == "f32"@ {
        Some(TypeModel::Float32)
    } else if t == "float64"@ || t == "f64"@ {
        Some(TypeModel::Float64)
    } else if t == "string"@ || t == "utf8"@ {
        Some(TypeModel::Utf8)
    } else if t == "binary"@ {
        Some(TypeModel::Binary)
    } else if t == "bool"@ || t == "boolean"@ {
        Some(TypeModel::Boolean)
    } else {
        None
    }
}

/// Reads the type that a user spelled.
pub fn parse_data_type(text: &str) -> (dtype: Option<DataType>)
    ensures
        match dtype {
            Some(t) => type_spelled(text@) == Some(t@),
            None => type_spelled(text@) is None,
        },
{
    if matches_ignoring_case(text, "int8") || matches_ignoring_case(text, "i8") {
        Some(DataType::Int8)
    } else if matches_ignoring_case(text, "int16") || matches_ignoring_case(text, "i16") {
        Some(DataType::Int16)
    } else if matches_ignoring_case(text, "int32") || matches_ignoring_case(text, "i32") {
        Some(DataType::Int32)
    } else if matches_ignoring_case(text, "int64") || matches_ignoring_case(text, "i64") {
        Some(DataType::Int64)
    } else if matches_ignoring_case(text, "uint8") || matches_ignoring_case(text, "u8") {
        Some(DataType::UInt8)
    } else if matches_ignoring_case(text, "uint16") || matches_ignoring_case(text, "u16") {
        Some(DataType::UInt16)
    } else if matches_ignoring_case(text, "uint32") || matches_ignoring_case(text, "u32") {
        Some(DataType::UInt32)
    } else if matches_ignoring_case(text, "uint64") || matches_ignoring_case(text, "u64") {
        Some(DataType::UInt64)
    } else if matches_ignoring_case(text, "float32") || matches_ignoring_case(text, "f32") {
        Some(DataType::Float32)
    } else if matches_ignoring_case(text, "float64") || matches_ignoring_case(text, "f64") {
        Some(DataType::Float64)
    } else if matches_ignoring_case(text, "string") || matches_ignoring_case(text, "utf8") {
        Some(DataType::Utf8)
    } else if matches_ignoring_case(text, "binary") {
        Some(DataType::Binary)
    } else if matches_ignoring_case(text, "bool") || matches_ignoring_case(text, "boolean") {
        Some(DataType::Boolean)
    } else {
        None
    }
}

/// A named, typed column of a schema.
#[derive(Debug, PartialEq, Eq)]
pub struct Field {
    pub name: String,
    pub dtype: DataType,
}

/// What a [`Field`] stands for.
pub ghost struct FieldModel {
    pub name: Seq<char>,
    pub dtype: TypeModel,
}

impl View for Field {
    type V = FieldModel;

    open spec fn view(&self) -> FieldModel {
        FieldModel { name: self.name@, dtype: self.dtype@ }
    }
}

impl Clone for Field {
    fn clone(&self) -> (copy: Field)
        ensures
            copy@ == self@,
    {
        Field { name: self.name.clone(), dtype: self.dtype.clone() }
    }
}

impl Field {
    /// Creates a field.
    pub fn new(name: String, dtype: DataType) -> (field: Field)
        ensures
            field@ == (FieldModel { name: name@, dtype: dtype@ }),
    {
        Field { name, dtype }
    }

    /// Whether two fields have the same name and type.
    pub fn same_as(&self, other: &Field) -> (same: bool)
        ensures
            same == (self@ == other@),
    {
        self.name == other.name && self.dtype.same_as(&other.dtype)
    }
}

/// The ordered fields of a tabular file.
#[derive(Debug, PartialEq, Eq)]
pub struct Schema {
    pub fields: Vec<Field>,
}

/// What a sequence of fields stands for.
pub open spec fn field_models(fields: Seq<Field>) -> Seq<FieldModel> {
    Seq::new(fields.len(), |i: int| fields[i]@)
}

impl View for Schema {
    type V = Seq<FieldModel>;

    open spec fn view(&self) -> Seq<FieldModel> {
        field_models(self.fields@)
    }
}

impl Clone for Schema {
    fn clone(&self) -> (copy: Schema)
        ensures
            copy@ == self@,
    {
        let mut fields: Vec<Field> = Vec::new();
        let mut i: usize = 0;
        while i < self.fields.len()
            invariant
                0 <= i <= self.fields.len(),
                fields.len() == i,
                forall|k: int| 0 <= k < i ==> #[trigger] fields@[k]@ == self.fields@[k]@,
            decreases self.fields.len() - i,
        {
            fields.push(self.fields[i].clone());
            i += 1;
        }
        let copy = Schema { fields };
        assert(copy@ =~= self@);
        copy
    }
}

/// Whether some field of `schema` is called `name`.
pub open spec fn has_column(schema: Seq<FieldModel>, name: Seq<char>) -> bool {
    exists|i: int| 0 <= i < schema.len() && (#[trigger] schema[i]).name == name
}

impl Schema {
    /// Creates a schema from its fields.
    pub fn new(fields: Vec<Field>) -> (schema: Schema)
        ensures
            schema@ == field_models(fields@),
    {
        Schema { fields }
    }

    /// The number of fields.
    pub fn len(&self) -> (n: usize)
        ensures
            n == self@.len(),
    {
        self.fields.len()
    }

    /// Whether some field is called `name`.
    pub fn contains(&self, name: &str) -> (found: bool)
        ensures
            found == has_column(self@, name@),
    {
        let mut i: usize = 0;
        while i < self.fields.len()
            invariant
                0 <= i <= self.fields.len(),
                forall|k: int| 0 <= k < i ==> (#[trigger] self@[k]).name != name@,
            decreases self.fields.len() - i,
        {
            if self.fields[i].name.as_str().to_owned() == name.to_owned() {
                assert(self@[i as int].name == name@);
                return true;
            }
            i += 1;
        }
        false
    }

    /// Whether two schemas hold the same names with the same types in the
    /// same order.
    pub fn same_as(&self, other: &Schema) -> (same: bool)
        ensures
            same == (self@ == other@),
    {
        if self.fields.len() != other.fields.len() {
            assert(self@.len() != other@.len());
            return false;
        }
        let mut i: usize = 0;
        while i < self.fields.len()
            invariant
                0 <= i <= self.fields.len(),
                self.fields.len() == other.fields.len(),
                forall|k: int| 0 <= k < i ==> #[trigger] self@[k] == other@[k],
            decreases self.fields.len() - i,
        {
            if !self.fields[i].same_as(&other.fields[i]) {
                assert(self@[i as int] != other@[i as int]);
                return false;
            }
            i += 1;
        }
        assert(self@ =~= other@);
        true
    }
}

} // verus!
