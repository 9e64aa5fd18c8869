//! `dst = if_not_exists(src, value)` actions of a `SET` clause.
use vstd::prelude::*;

use super::math::source_of;
use crate::path::Path;
use crate::text::write_str;
use crate::update::{SetAction, Update, UpdateV};
use crate::value::{render_value_or_ref, Value, ValueOrRef};

verus! {

/// Sets an attribute to a value unless the source attribute exists:
/// `dst = if_not_exists(src, value)`, where `src` is `dst` unless another is
/// given.
pub struct IfNotExists {
    pub dst: Path,
    pub src: Option<Path>,
    pub value: ValueOrRef,
}

/// An `if_not_exists` action as it appears in an expression.
pub open spec fn render_if_not_exists(i: IfNotExists) -> Seq<char> {
    i.dst.render() + " = if_not_exists("@ + source_of(i.dst, i.src).render() + ", "@
        + render_value_or_ref(i.value) + ")"@
}

/// Builds an [`IfNotExists`] action: set the source, then the value.
pub struct Builder {
    pub dst: Path,
    pub src: Option<Path>,
}

impl IfNotExists {
    /// Starts an `if_not_exists` action on `dst`.
    pub fn builder(dst: Path) -> (r: Builder)
        ensures
            r == (Builder { dst, src: None }),
    {
        Builder { dst, src: None }
    }

    /// This action, then the actions of `other`.
    pub fn and(self, other: Update) -> (r: Update)
        ensures
            r@ == UpdateV::set_only(seq![SetAction::IfNotExists(self)]).and_spec(other@),
    {
        Update::from(self).and(other)
    }

    /// Appends the action as it appears in an expression.
    pub fn write_to(&self, out: &mut String)
        ensures
            final(out)@ == old(out)@ + render_if_not_exists(*self),
    {
        self.dst.write_to(out);
        write_str(out, " = if_not_exists(");
        match &self.src {
            Some(s) => s.write_to(out),
            None => self.dst.write_to(out),
        }
        write_str(out, ", ");
        self.value.write_to(out);
        write_str(out, ")");
        assert(final(out)@ =~= old(out)@ + render_if_not_exists(*self));
    }

    /// The action as it appears in an expression.
    pub fn to_string(&self) -> (r: String)
        ensures
            r@ == render_if_not_exists(*self),
    {
        let mut out = String::new();
        self.write_to(&mut out);
        assert(out@ =~= render_if_not_exists(*self));
        out
    }
}

impl Builder {
    /// Checks `src` for existence rather than the destination.
    pub fn src(self, src: Path) -> (r: Builder)
        ensures
            r == (Builder { dst: self.dst, src: Some(src) }),
    {
        Builder { dst: self.dst, src: Some(src) }
    }

    /// The value to set when the source does not exist.
    pub fn set(self, value: Value) -> (r: IfNotExists)
        ensures
            r == (IfNotExists { dst: self.dst, src: self.src, value: ValueOrRef::Value(value) }),
    {
        IfNotExists { dst: self.dst, src: self.src, value: ValueOrRef::Value(value) }
    }

    /// The value to set when the source does not exist (the older name of
    /// [`Builder::set`]).
    pub fn assign(self, value: Value) -> (r: IfNotExists)
        ensures
            r == (IfNotExists { dst: self.dst, src: self.src, value: ValueOrRef::Value(value) }),
    {
        self.set(value)
    }
}

} // verus!
