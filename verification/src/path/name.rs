//! Attribute names.
use vstd::prelude::*;

use crate::text::{string_of, write_str};

verus! {

/// A DynamoDB attribute name: one attribute, with no index and no
/// sub-attribute. In an expression built by the expression builder it is
/// replaced by an expression attribute name such as `#0`.
#[derive(Debug)]
pub struct Name {
    pub name: String,
}

impl View for Name {
    type V = Seq<char>;

    open spec fn view(&self) -> Seq<char> {
        self.name@
    }
}

impl Name {
    /// Appends the name as it appears in an expression.
    pub fn write_to(&self, out: &mut String)
        ensures
            final(out)@ == old(out)@ + self@,
    {
        write_str(out, self.name.as_str());
    }

    /// The name as it appears in an expression.
    pub fn to_string(&self) -> (r: String)
        ensures
            r@ == self@,
    {
        string_of(self.name.as_str())
    }

    /// A copy of this name.
    pub fn clone_name(&self) -> (r: Name)
        ensures
            r@ == self@,
    {
        Name { name: string_of(self.name.as_str()) }
    }
}

/// Creates a [`Name`] from text.
pub fn name(text: &str) -> (r: Name)
    ensures
        r@ == text@,
{
    Name { name: string_of(text) }
}

impl From<&str> for Name {
    fn from(name: &str) -> (r: Name)
        ensures
            r@ == name@,
    {
        Name { name: string_of(name) }
    }
}

/// The contract of this conversion is on `from` itself: a name cannot be
/// written down from text in specifications.
impl vstd::std_specs::convert::FromSpecImpl<&str> for Name {
    open spec fn obeys_from_spec() -> bool {
        false
    }

    open spec fn from_spec(v: &str) -> Name {
        vstd::pervasive::arbitrary()
    }
}

impl From<String> for Name {
    fn from(name: String) -> (r: Name)
        ensures
            r == (Name { name }),
    {
        Name { name }
    }
}

impl vstd::std_specs::convert::FromSpecImpl<String> for Name {
    open spec fn obeys_from_spec() -> bool {
        true
    }

    open spec fn from_spec(v: String) -> Name {
        Name { name: v }
    }
}

} // verus!
