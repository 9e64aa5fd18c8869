//! `path = value` actions of a `SET` clause.
use vstd::prelude::*;

use crate::path::Path;
use crate::text::write_str;
use crate::update::{SetAction, Update, UpdateV};
use crate::value::{render_value_or_ref, Value, ValueOrRef};

verus! {

/// Assigns a value to an attribute: `path = value`.
pub struct Assign {
    pub path: Path,
    pub value: ValueOrRef,
}

/// An assignment as it appears in an expression.
pub open spec fn render_assign(a: Assign) -> Seq<char> {
    a.path.render() + " = "@ + render_value_or_ref(a.value)
}

impl Assign {
    /// `path = value`.
    pub fn new(path: Path, value: Value) -> (r: Assign)
        ensures
            r == (Assign { path, value: ValueOrRef::Value(value) }),
    {
        Assign { path, value: ValueOrRef::Value(value) }
    }

    /// This assignment, then the actions of `other`.
    pub fn and(self, other: Update) -> (r: Update)
        ensures
            r@ == UpdateV::set_only(seq![SetAction::Assign(self)]).and_spec(other@),
    {
        Update::from(self).and(other)
    }

    /// Appends the assignment as it appears in an expression.
    pub fn write_to(&self, out: &mut String)
        ensures
            final(out)@ == old(out)@ + render_assign(*self),
    {
        self.path.write_to(out);
        write_str(out, " = ");
        self.value.write_to(out);
        assert(final(out)@ =~= old(out)@ + render_assign(*self));
    }

    /// The assignment as it appears in an expression.
    pub fn to_string(&self) -> (r: String)
        ensures
            r@ == render_assign(*self),
    {
        let mut out = String::new();
        self.write_to(&mut out);
        assert(out@ =~= render_assign(*self));
        out
    }
}

} // verus!
