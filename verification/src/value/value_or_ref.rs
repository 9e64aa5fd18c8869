//! References to values held in the expression attribute values, and
//! operands that are either a value or such a reference.
use vstd::prelude::*;

use super::{render_value, Scalar, Value};
use crate::text::{string_of, write_str};

verus! {

/// A reference to a value held in the expression attribute values: `name`
/// appears in an expression as `:name`.
pub struct Ref {
    pub name: String,
}

impl View for Ref {
    type V = Seq<char>;

    open spec fn view(&self) -> Seq<char> {
        self.name@
    }
}

/// A reference as it appears in an expression.
pub open spec fn render_ref(name: Seq<char>) -> Seq<char> {
    seq![':'] + name
}

impl Ref {
    /// A reference to the value named `value_ref`.
    pub fn new(value_ref: String) -> (r: Ref)
        ensures
            r@ == value_ref@,
    {
        Ref { name: value_ref }
    }

    /// Appends the reference as it appears in an expression.
    pub fn write_to(&self, out: &mut String)
        ensures
            final(out)@ == old(out)@ + render_ref(self@),
    {
        out.push(':');
        write_str(out, self.name.as_str());
        assert(final(out)@ =~= old(out)@ + render_ref(self@));
    }

    /// The reference as it appears in an expression.
    pub fn to_string(&self) -> (r: String)
        ensures
            r@ == render_ref(self@),
    {
        let mut out = String::new();
        self.write_to(&mut out);
        assert(out@ =~= render_ref(self@));
        out
    }

    /// A copy of this reference.
    pub fn clone_ref(&self) -> (r: Ref)
        ensures
            r@ == self@,
    {
        Ref { name: string_of(self.name.as_str()) }
    }
}

impl From<&str> for Ref {
    fn from(value: &str) -> (r: Ref)
        ensures
            r@ == value@,
    {
        Ref { name: string_of(value) }
    }
}

/// The contract of this conversion is on `from` itself.
impl vstd::std_specs::convert::FromSpecImpl<&str> for Ref {
    open spec fn obeys_from_spec() -> bool {
        false
    }

    open spec fn from_spec(v: &str) -> Ref {
        vstd::pervasive::arbitrary()
    }
}

impl From<String> for Ref {
    fn from(value: String) -> (r: Ref) {
        Ref { name: value }
    }
}

impl vstd::std_specs::convert::FromSpecImpl<String> for Ref {
    open spec fn obeys_from_spec() -> bool {
        true
    }

    open spec fn from_spec(v: String) -> Ref {
        Ref { name: v }
    }
}

/// A string, or a reference to a value held in the expression attribute
/// values.
pub enum StringOrRef {
    String(String),
    Ref(Ref),
}

impl From<&str> for StringOrRef {
    fn from(value: &str) -> (r: StringOrRef)
        ensures
            r matches StringOrRef::String(s) && s@ == value@,
    {
        StringOrRef::String(string_of(value))
    }
}

/// The contract of this conversion is on `from` itself.
impl vstd::std_specs::convert::FromSpecImpl<&str> for StringOrRef {
    open spec fn obeys_from_spec() -> bool {
        false
    }

    open spec fn from_spec(v: &str) -> StringOrRef {
        vstd::pervasive::arbitrary()
    }
}

impl From<String> for StringOrRef {
    fn from(value: String) -> (r: StringOrRef) {
        StringOrRef::String(value)
    }
}

impl vstd::std_specs::convert::FromSpecImpl<String> for StringOrRef {
    open spec fn obeys_from_spec() -> bool {
        true
    }

    open spec fn from_spec(v: String) -> StringOrRef {
        StringOrRef::String(v)
    }
}

impl From<Ref> for StringOrRef {
    fn from(value: Ref) -> (r: StringOrRef) {
        StringOrRef::Ref(value)
    }
}

impl vstd::std_specs::convert::FromSpecImpl<Ref> for StringOrRef {
    open spec fn obeys_from_spec() -> bool {
        true
    }

    open spec fn from_spec(v: Ref) -> StringOrRef {
        StringOrRef::Ref(v)
    }
}

/// A DynamoDB value, or a reference to one held in the expression attribute
/// values.
pub enum ValueOrRef {
    Value(Value),
    Ref(Ref),
}

/// A value or reference as it appears in an expression.
pub open spec fn render_value_or_ref(v: ValueOrRef) -> Seq<char> {
    match v {
        ValueOrRef::Value(value) => render_value(value@),
        ValueOrRef::Ref(r) => render_ref(r@),
    }
}

/// A string as a string value; a reference as itself.
pub open spec fn value_or_ref_of(value: StringOrRef) -> ValueOrRef {
    match value {
        StringOrRef::String(s) => ValueOrRef::Value(Value::Scalar(Scalar::String(s))),
        StringOrRef::Ref(x) => ValueOrRef::Ref(x),
    }
}

impl ValueOrRef {
    /// A string becomes a string value; a reference stays a reference.
    pub fn from_string_or_ref(value: StringOrRef) -> (r: ValueOrRef)
        ensures
            r == value_or_ref_of(value),
    {
        match value {
            StringOrRef::String(s) => ValueOrRef::Value(Value::Scalar(Scalar::String(s))),
            StringOrRef::Ref(x) => ValueOrRef::Ref(x),
        }
    }

    /// Appends the value or reference as it appears in an expression.
    pub fn write_to(&self, out: &mut String)
        ensures
            final(out)@ == old(out)@ + render_value_or_ref(*self),
    {
        match self {
            ValueOrRef::Value(v) => v.write_to(out),
            ValueOrRef::Ref(r) => r.write_to(out),
        }
    }

    /// The value or reference as it appears in an expression.
    pub fn to_string(&self) -> (r: String)
        ensures
            r@ == render_value_or_ref(*self),
    {
        let mut out = String::new();
        self.write_to(&mut out);
        assert(out@ =~= render_value_or_ref(*self));
        out
    }
}

} // verus!
