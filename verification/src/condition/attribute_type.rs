//! The `attribute_type` function and the DynamoDB attribute types it checks
//! for.
use vstd::prelude::*;

use crate::path::Path;
use crate::text::write_str;

verus! {

/// `attribute_type(path, type)`: whether the attribute at the path has the
/// given type.
pub struct AttributeType {
    pub path: Path,
    pub attribute_type: Type,
}

impl AttributeType {
    /// Checks the type of the attribute at `path`.
    pub fn new(path: Path, attribute_type: Type) -> (r: AttributeType)
        ensures
            r == (AttributeType { path, attribute_type }),
    {
        AttributeType { path, attribute_type }
    }
}

/// A DynamoDB attribute type.
#[derive(Copy, Clone)]
pub enum Type {
    String,
    StringSet,
    Number,
    NumberSet,
    Binary,
    BinarySet,
    Boolean,
    Null,
    List,
    MapType,
}

/// A type as it appears in an expression.
pub open spec fn type_text(t: Type) -> Seq<char> {
    match t {
        Type::String => "S"@,
        Type::StringSet => "SS"@,
        Type::Number => "N"@,
        Type::NumberSet => "NS"@,
        Type::Binary => "B"@,
        Type::BinarySet => "BS"@,
        Type::Boolean => "BOOL"@,
        Type::Null => "NULL"@,
        Type::List => "L"@,
        Type::MapType => "M"@,
    }
}

impl Type {
    /// The type as it appears in an expression.
    pub fn as_str(self) -> (r: &'static str)
        ensures
            r@ == type_text(self),
    {
        match self {
            Type::String => "S",
            Type::StringSet => "SS",
            Type::Number => "N",
            Type::NumberSet => "NS",
            Type::Binary => "B",
            Type::BinarySet => "BS",
            Type::Boolean => "BOOL",
            Type::Null => "NULL",
            Type::List => "L",
            Type::MapType => "M",
        }
    }

    /// The type as it appears in an expression.
    pub fn to_string(self) -> (r: String)
        ensures
            r@ == type_text(self),
    {
        let mut out = String::new();
        write_str(&mut out, self.as_str());
        assert(out@ =~= type_text(self));
        out
    }
}

} // verus!
