//! New columns: what fills a column that is inserted into a file.
//!
//! An inserted column holds one value in every row: the default the caller
//! gave, read once according to the column's type, or null when no default
//! was given.

use crate::error::{fault, ErrorKind, Fault, TblError};
use crate::schema::{name_of_type, DataType, TypeModel};
use crate::text::{check_float_text, is_float_text, parse_integer, parsed_integer};
use vstd::prelude::*;
use vstd::string::StringSliceAdditionalSpecFns;

verus! {

/// The value that fills every row of a new column. `None` fills the column
/// with nulls.
///
/// Floating-point defaults are carried as the text the caller gave, checked
/// to write a number; the number itself is read where the column is
/// materialised.
#[derive(Debug, PartialEq, Eq)]
pub enum ColumnValue {
    Int8(Option<i8>),
    Int16(Option<i16>),
    Int32(Option<i32>),
    Int64(Option<i64>),
    UInt8(Option<u8>),
    UInt16(Option<u16>),
    UInt32(Option<u32>),
    UInt64(Option<u64>),
    Float32(Option<String>),
    Float64(Option<String>),
    Utf8(Option<String>),
    Binary(Option<Vec<u8>>),
    Boolean(Option<bool>),
}

/// What fills a column, whatever its type.
pub ghost enum Fill {
    Null,
    Integer(int),
    Text(Seq<char>),
    Bytes(Seq<u8>),
    Flag(bool),
}

/// What a [`ColumnValue`] stands for: the type of the column and what
/// fills it.
pub ghost struct ValueModel {
    pub dtype: TypeModel,
    pub fill: Fill,
}

/// The fill of an optional text.
pub open spec fn text_fill(v: Option<String>) -> Fill {
    match v {
        Some(s) => Fill::Text(s@),
        None => Fill::Null,
    }
}

impl View for ColumnValue {
    type V = ValueModel;

    open spec fn view(&self) -> ValueModel {
        match self {
            ColumnValue::Int8(v) => ValueModel {
                dtype: TypeModel::Int8,
                fill: match v {
                    Some(i) => Fill::Integer(*i as int),
                    None => Fill::Null,
                },
            },
            ColumnValue::Int16(v) => ValueModel {
                dtype: TypeModel::Int16,
                fill: match v {
                    Some(i) => Fill::Integer(*i as int),
                    None => Fill::Null,
                },
            },
            ColumnValue::Int32(v) => ValueModel {
                dtype: TypeModel::Int32,
                fill: match v {
                    Some(i) => Fill::Integer(*i as int),
                    None => Fill::Null,
                },
            },
            ColumnValue::Int64(v) => ValueModel {
                dtype: TypeModel::Int64,
                fill: match v {
                    Some(i) => Fill::Integer(*i as int),
                    None => Fill::Null,
                },
            },
            ColumnValue::UInt8(v) => ValueModel {
                dtype: TypeModel::UInt8,
                fill: match v {
                    Some(i) => Fill::Integer(*i as int),
                    None => Fill::Null,
                },
            },
            ColumnValue::UInt16(v) => ValueModel {
                dtype: TypeModel::UInt16,
                fill: match v {
                    Some(i) => Fill::Integer(*i as int),
                    None => Fill::Null,
                },
            },
            ColumnValue::UInt32(v) => ValueModel {
                dtype: TypeModel::UInt32,
                fill: match v {
                    Some(i) => Fill::Integer(*i as int),
                    None => Fill::Null,
                },
            },
            ColumnValue::UInt64(v) => ValueModel {
                dtype: TypeModel::UInt64,
                fill: match v {
                    Some(i) => Fill::Integer(*i as int),
                    None => Fill::Null,
                },
            },
            ColumnValue::Float32(v) => ValueModel {
                dtype: TypeModel::Float32,
                fill: text_fill(*v),
            },
            ColumnValue::Float64(v) => ValueModel {
                dtype: TypeModel::Float64,
                fill: text_fill(*v),
            },
            ColumnValue::Utf8(v) => ValueModel { dtype: TypeModel::Utf8, fill: text_fill(*v) },
            ColumnValue::Binary(v) => ValueModel {
                dtype: TypeModel::Binary,
                fill: match v {
                    Some(b) => Fill::Bytes(b@),
                    None => Fill::Null,
                },
            },
            ColumnValue::Boolean(v) => ValueModel {
                dtype: TypeModel::Boolean,
                fill: match v {
                    Some(b) => Fill::Flag(*b),
                    None => Fill::Null,
                },
            },
        }
    }
}

/// The value of a hexadecimal digit, small or capital.
pub open spec fn hex_digit(b: u8) -> Option<int> {
    if 0x30 <= b <= 0x39 {
        Some(b - 0x30)
    } else if 0x61 <= b <= 0x66 {
        Some(b - 0x61 + 10)
    } else if 0x41 <= b <= 0x46 {
        Some(b - 0x41 + 10)
    } else {
        None
    }
}

/// Whether `data` is an even number of hexadecimal digits.
pub open spec fn is_hex(data: Seq<u8>) -> bool {
    data.len() % 2 == 0 && forall|i: int| 0 <= i < data.len() ==> hex_digit(#[trigger] data[i])
        is Some
}

/// The bytes that the digits of `data` write, two digits to a byte, the
/// high digit first.
pub open spec fn hex_bytes(data: Seq<u8>) -> Seq<u8> {
    Seq::new(
        data.len() / 2,
        |i: int| (16 * hex_digit(data[2 * i])->0 + hex_digit(data[2 * i + 1])->0) as u8,
    )
}

/// Calls `hex::decode`, keeping the bytes and dropping the reason of a
/// failure. The contract states what the crate documents and its source
/// shows: the input decodes exactly when it is an even number of digits
/// `0-9`, `a-f` or `A-F`, and each pair of digits gives one byte.
#[verifier::external_body]
fn hex_decode(data: &Vec<u8>) -> (bytes: Option<Vec<u8>>)
    ensures
        match bytes {
            Some(b) => is_hex(data@) && b@ == hex_bytes(data@),
            None => !is_hex(data@),
        },
{
    hex::decode(data).ok()
}

/// The bytes that a binary default writes: hexadecimal digits after a
/// leading `0x`. `None` where the text does not start with `0x` or what
/// follows is not an even number of hexadecimal digits.
pub open spec fn binary_default(text: Seq<u8>) -> Option<Seq<u8>> {
    if text.len() >= 2 && text[0] == 0x30 && text[1] == 0x78 && is_hex(
        text.subrange(2, text.len() as int),
    ) {
        Some(hex_bytes(text.subrange(2, text.len() as int)))
    } else {
        None
    }
}

/// Reads a binary default, `0x` followed by hexadecimal digits.
pub fn parse_binary_default(text: &str) -> (bytes: Option<Vec<u8>>)
    ensures
        match bytes {
            Some(b) => binary_default(text.spec_bytes()) == Some(b@),
            None => binary_default(text.spec_bytes()) is None,
        },
{
    let raw = text.as_bytes_vec();
    if raw.len() < 2 || raw[0] != 0x30 || raw[1] != 0x78 {
        return None;
    }
    let mut digits: Vec<u8> = Vec::new();
    let mut i: usize = 2;
    while i < raw.len()
        invariant
            2 <= i <= raw.len(),
            digits@ =~= raw@.subrange(2, i as int),
        decreases raw.len() - i,
    {
        digits.push(raw[i]);
        i += 1;
    }
    hex_decode(&digits)
}

/// The truth value that `text` writes: `true` or `false`, spelled exactly.
pub open spec fn parsed_bool(text: Seq<char>) -> Option<bool> {
    if text == "true"@ {
        Some(true)
    } else if text == "false"@ {
        Some(false)
    } else {
        None
    }
}

/// Reads a truth value.
pub fn parse_bool(text: &str) -> (value: Option<bool>)
    ensures
        value == parsed_bool(text@),
{
    if text.to_owned() == String::from_str("true") {
        Some(true)
    } else if text.to_owned() == String::from_str("false") {
        Some(false)
    } else {
        None
    }
}

/// The least and greatest value of an integer type; for any other type an
/// empty range.
pub open spec fn integer_range(dtype: TypeModel) -> (int, int) {
    match dtype {
        TypeModel::Int8 => (-0x80, 0x7f),
        TypeModel::Int16 => (-0x8000, 0x7fff),
        TypeModel::Int32 => (-0x8000_0000, 0x7fff_ffff),
        TypeModel::Int64 => (-0x8000_0000_0000_0000, 0x7fff_ffff_ffff_ffff),
        TypeModel::UInt8 => (0, 0xff),
        TypeModel::UInt16 => (0, 0xffff),
        TypeModel::UInt32 => (0, 0xffff_ffff),
        TypeModel::UInt64 => (0, 0xffff_ffff_ffff_ffff),
        _ => (0, -1),
    }
}

/// Whether an integer type takes negative values.
pub open spec fn is_signed(dtype: TypeModel) -> bool {
    dtype is Int8 || dtype is Int16 || dtype is Int32 || dtype is Int64
}

/// What a default written as `text` fills a column of type `dtype` with;
/// `None` where the text does not write a value of that type.
///
/// Integers are read in base ten with an optional sign and must fit the
/// type. Text fills a string column as it stands. A floating-point default
/// must write a floating-point number and is kept as text. A binary
/// default is `0x` followed by hexadecimal digits. A truth value is `true`
/// or `false`.
pub open spec fn default_fill(dtype: TypeModel, text: Seq<char>) -> Option<Fill> {
    match dtype {
        TypeModel::Utf8 => Some(Fill::Text(text)),
        TypeModel::Float32 | TypeModel::Float64 => if is_float_text(text) {
            Some(Fill::Text(text))
        } else {
            None
        },
        TypeModel::Binary => match binary_default(vstd::utf8::encode_utf8(text)) {
            Some(bytes) => Some(Fill::Bytes(bytes)),
            None => None,
        },
        TypeModel::Boolean => match parsed_bool(text) {
            Some(b) => Some(Fill::Flag(b)),
            None => None,
        },
        TypeModel::Other(_) => None,
        _ => match parsed_integer(
            text,
            is_signed(dtype),
            integer_range(dtype).0,
            integer_range(dtype).1,
        ) {
            Some(v) => Some(Fill::Integer(v)),
            None => None,
        },
    }
}

/// What a new column of type `dtype` with the given default is filled
/// with, or why it cannot be made: a type that cannot be created is a
/// `Schema` fault about the type's name, and a default that does not write
/// a value of the type is an `Argument` fault about the default.
pub open spec fn column_fill(dtype: TypeModel, default_value: Option<Seq<char>>) -> Result<
    ValueModel,
    Fault,
> {
    if dtype is Other {
        Err(fault(ErrorKind::Schema, name_of_type(dtype)))
    } else {
        match default_value {
            None => Ok(ValueModel { dtype, fill: Fill::Null }),
            Some(text) => match default_fill(dtype, text) {
                Some(fill) => Ok(ValueModel { dtype, fill }),
                None => Err(fault(ErrorKind::Argument, text)),
            },
        }
    }
}

/// A column that holds the same value in each of its `len` rows.
#[derive(Debug, PartialEq, Eq)]
pub struct NewColumn {
    pub len: usize,
    pub value: ColumnValue,
}

/// Reads the default of a new column according to the column's type.
pub fn parse_default(dtype: &DataType, default_value: Option<&str>) -> (out: Result<
    ColumnValue,
    TblError,
>)
    ensures
        match out {
            Ok(value) => column_fill(
                dtype@,
                match default_value {
                    Some(s) => Some(s@),
                    None => None,
                },
            ) == Ok::<_, Fault>(value@),
            Err(e) => column_fill(
                dtype@,
                match default_value {
                    Some(s) => Some(s@),
                    None => None,
                },
            ) == Err::<ValueModel, _>(e@),
        },
{
    match dtype {
        DataType::Other(name) => Err(TblError::SchemaError(name.clone())),
        DataType::Int8 => match default_value {
            None => Ok(ColumnValue::Int8(None)),
            Some(text) => match parse_integer(text, true, -0x80, 0x7f) {
                Some(v) => Ok(ColumnValue::Int8(Some(v as i8))),
                None => Err(TblError::ArgumentError(text.to_owned())),
            },
        },
        DataType::Int16 => match default_value {
            None => Ok(ColumnValue::Int16(None)),
            Some(text) => match parse_integer(text, true, -0x8000, 0x7fff) {
                Some(v) => Ok(ColumnValue::Int16(Some(v as i16))),
                None => Err(TblError::ArgumentError(text.to_owned())),
            },
        },
        DataType::Int32 => match default_value {
            None => Ok(ColumnValue::Int32(None)),
            Some(text) => match parse_integer(text, true, -0x8000_0000, 0x7fff_ffff) {
                Some(v) => Ok(ColumnValue::Int32(Some(v as i32))),
                None => Err(TblError::ArgumentError(text.to_owned())),
            },
        },
        DataType::Int64 => match default_value {
            None => Ok(ColumnValue::Int64(None)),
            Some(text) => match parse_integer(
                text,
                true,
                -0x8000_0000_0000_0000,
                0x7fff_ffff_ffff_ffff,
            ) {
                Some(v) => Ok(ColumnValue::Int64(Some(v as i64))),
                None => Err(TblError::ArgumentError(text.to_owned())),
            },
        },
        DataType::UInt8 => match default_value {
            None => Ok(ColumnValue::UInt8(None)),
            Some(text) => match parse_integer(text, false, 0, 0xff) {
                Some(v) => Ok(ColumnValue::UInt8(Some(v as u8))),
                None => Err(TblError::ArgumentError(text.to_owned())),
            },
        },
        DataType::UInt16 => match default_value {
            None => Ok(ColumnValue::UInt16(None)),
            Some(text) => match parse_integer(text, false, 0, 0xffff) {
                Some(v) => Ok(ColumnValue::UInt16(Some(v as u16))),
                None => Err(TblError::ArgumentError(text.to_owned())),
            },
        },
        DataType::UInt32 => match default_value {
            None => Ok(ColumnValue::UInt32(None)),
            Some(text) => match parse_integer(text, false, 0, 0xffff_ffff) {
                Some(v) => Ok(ColumnValue::UInt32(Some(v as u32))),
                None => Err(TblError::ArgumentError(text.to_owned())),
            },
        },
        DataType::UInt64 => match default_value {
            None => Ok(ColumnValue::UInt64(None)),
            Some(text) => match parse_integer(text, false, 0, 0xffff_ffff_ffff_ffff) {
                Some(v) => Ok(ColumnValue::UInt64(Some(v as u64))),
                None => Err(TblError::ArgumentError(text.to_owned())),
            },
        },
        DataType::Float32 => match default_value {
            None => Ok(ColumnValue::Float32(None)),
            Some(text) => if check_float_text(text) {
                Ok(ColumnValue::Float32(Some(text.to_owned())))
            } else {
                Err(TblError::ArgumentError(text.to_owned()))
            },
        },
        DataType::Float64 => match default_value {
            None => Ok(ColumnValue::Float64(None)),
            Some(text) => if check_float_text(text) {
                Ok(ColumnValue::Float64(Some(text.to_owned())))
            } else {
                Err(TblError::ArgumentError(text.to_owned()))
            },
        },
        DataType::Utf8 => match default_value {
            None => Ok(ColumnValue::Utf8(None)),
            Some(text) => Ok(ColumnValue::Utf8(Some(text.to_owned()))),
        },
        DataType::Binary => match default_value {
            None => Ok(ColumnValue::Binary(None)),
            Some(text) => match parse_binary_default(text) {
                Some(bytes) => Ok(ColumnValue::Binary(Some(bytes))),
                None => Err(TblError::ArgumentError(text.to_owned())),
            },
        },
        DataType::Boolean => match default_value {
            None => Ok(ColumnValue::Boolean(None)),
            Some(text) => match parse_bool(text) {
                Some(b) => Ok(ColumnValue::Boolean(Some(b))),
                None => Err(TblError::ArgumentError(text.to_owned())),
            },
        },
    }
}

/// Creates the column that is inserted into a batch of `len` rows: every
/// row holds the default, read according to `dtype`, or null when there is
/// no default.
///
/// Fails with a `SchemaError` naming the type when columns of that type
/// cannot be created, and with an `ArgumentError` holding the default when
/// it does not write a value of the type.
pub fn create_new_column(len: usize, dtype: &DataType, default_value: Option<&str>) -> (out:
    Result<NewColumn, TblError>)
    ensures
        match out {
            Ok(column) => column.len == len && column_fill(
                dtype@,
                match default_value {
                    Some(s) => Some(s@),
                    None => None,
                },
            ) == Ok::<_, Fault>(column.value@),
            Err(e) => column_fill(
                dtype@,
                match default_value {
                    Some(s) => Some(s@),
                    None => None,
                },
            ) == Err::<ValueModel, _>(e@),
        },
{
    match parse_default(dtype, default_value) {
        Ok(value) => Ok(NewColumn { len, value }),
        Err(e) => Err(e),
    }
}

} // verus!
