//! `dst = list_append(src, list)` actions of a `SET` clause.
use vstd::prelude::*;

use super::math::source_of;
use crate::path::Path;
use crate::text::write_str;
use crate::update::{SetAction, Update, UpdateV};
use crate::value::{render_value_or_ref, List, Value, ValueOrRef};

verus! {

/// Appends to a list, or puts values before it:
/// `dst = list_append(src, list)` or `dst = list_append(list, src)`, where
/// `src` is `dst` unless another is given.
pub struct ListAppend {
    pub dst: Path,
    pub src: Option<Path>,
    pub list: ValueOrRef,
    pub after: bool,
}

/// A `list_append` action as it appears in an expression.
pub open spec fn render_list_append(l: ListAppend) -> Seq<char> {
    let src = source_of(l.dst, l.src).render();
    let list = render_value_or_ref(l.list);
    l.dst.render() + " = list_append("@ + (if l.after {
        src + ", "@ + list
    } else {
        list + ", "@ + src
    }) + ")"@
}

/// Builds a [`ListAppend`] action: set the source and whether the values go
/// after it (the default) or before it, then the values.
pub struct Builder {
    pub dst: Path,
    pub src: Option<Path>,
    pub after: bool,
}

impl ListAppend {
    /// Starts a `list_append` action on `dst`, appending after the source.
    pub fn builder(dst: Path) -> (r: Builder)
        ensures
            r == (Builder { dst, src: None, after: true }),
    {
        Builder { dst, src: None, after: true }
    }

    /// This action, then the actions of `other`.
    pub fn and(self, other: Update) -> (r: Update)
        ensures
            r@ == UpdateV::set_only(seq![SetAction::ListAppend(self)]).and_spec(other@),
    {
        Update::from(self).and(other)
    }

    /// Appends the action as it appears in an expression.
    pub fn write_to(&self, out: &mut String)
        ensures
            final(out)@ == old(out)@ + render_list_append(*self),
    {
        self.dst.write_to(out);
        write_str(out, " = list_append(");
        if self.after {
            match &self.src {
                Some(s) => s.write_to(out),
                None => self.dst.write_to(out),
            }
            write_str(out, ", ");
            self.list.write_to(out);
        } else {
            self.list.write_to(out);
            write_str(out, ", ");
            match &self.src {
                Some(s) => s.write_to(out),
                None => self.dst.write_to(out),
            }
        }
        write_str(out, ")");
        assert(final(out)@ =~= old(out)@ + render_list_append(*self));
    }

    /// The action as it appears in an expression.
    pub fn to_string(&self) -> (r: String)
        ensures
            r@ == render_list_append(*self),
    {
        let mut out = String::new();
        self.write_to(&mut out);
        assert(out@ =~= render_list_append(*self));
        out
    }
}

impl Builder {
    /// Takes the list from `src` rather than from the destination.
    pub fn src(self, src: Path) -> (r: Builder)
        ensures
            r == (Builder { dst: self.dst, src: Some(src), after: self.after }),
    {
        Builder { dst: self.dst, src: Some(src), after: self.after }
    }

    /// The values go after the source list.
    pub fn after(self) -> (r: Builder)
        ensures
            r == (Builder { dst: self.dst, src: self.src, after: true }),
    {
        Builder { dst: self.dst, src: self.src, after: true }
    }

    /// The values go before the source list.
    pub fn before(self) -> (r: Builder)
        ensures
            r == (Builder { dst: self.dst, src: self.src, after: false }),
    {
        Builder { dst: self.dst, src: self.src, after: false }
    }

    /// The values to add to the list.
    pub fn list(self, list: List) -> (r: ListAppend)
        ensures
            r == (ListAppend {
                dst: self.dst,
                src: self.src,
                list: ValueOrRef::Value(Value::List(list)),
                after: self.after,
            }),
    {
        ListAppend {
            dst: self.dst,
            src: self.src,
            list: ValueOrRef::Value(Value::List(list)),
            after: self.after,
        }
    }
}

} // verus!
