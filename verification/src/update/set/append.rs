//! `list_append` with the source given explicitly, and whether the new
//! values go before or after it.
use vstd::prelude::*;

use crate::path::Path;
use crate::text::write_str;
use crate::value::{render_value, List, ValueV};

verus! {

/// Whether new values go before or after the existing list.
#[derive(Copy, Clone)]
pub enum BeforeOrAfter {
    Before,
    After,
}

/// `dst = list_append(src, value)` or `dst = list_append(value, src)`.
pub struct Append {
    pub dst: Path,
    pub src: Path,
    pub value: List,
    pub before_or_after: BeforeOrAfter,
}

/// An append as it appears in an expression.
pub open spec fn render_append(a: Append) -> Seq<char> {
    let list = render_value(ValueV::List(a.value@));
    a.dst.render() + " = list_append("@ + (match a.before_or_after {
        BeforeOrAfter::Before => list + ", "@ + a.src.render(),
        BeforeOrAfter::After => a.src.render() + ", "@ + list,
    }) + ")"@
}

impl Append {
    /// Appends the values to the end of the list at `field`.
    pub fn new_with_self_to_end(field: Path, value: List) -> (r: Append)
        ensures
            r.dst == field,
            r.src.render() == field.render(),
            r.value == value,
            r.before_or_after == BeforeOrAfter::After,
    {
        let src = field.clone_path();
        Append::new_with_source(field, src, value, BeforeOrAfter::After)
    }

    /// Puts the values at the beginning of the list at `field`.
    pub fn new_with_self_to_beginning(field: Path, value: List) -> (r: Append)
        ensures
            r.dst == field,
            r.src.render() == field.render(),
            r.value == value,
            r.before_or_after == BeforeOrAfter::Before,
    {
        let src = field.clone_path();
        Append::new_with_source(field, src, value, BeforeOrAfter::Before)
    }

    /// Sets `destination` to the list at `source` with the values before or
    /// after it.
    pub fn new_with_source(
        destination: Path,
        source: Path,
        value: List,
        before_or_after: BeforeOrAfter,
    ) -> (r: Append)
        ensures
            r == (Append { dst: destination, src: source, value, before_or_after }),
    {
        Append { dst: destination, src: source, value, before_or_after }
    }

    /// Appends the action as it appears in an expression.
    pub fn write_to(&self, out: &mut String)
        ensures
            final(out)@ == old(out)@ + render_append(*self),
    {
        self.dst.write_to(out);
        write_str(out, " = list_append(");
        match self.before_or_after {
            BeforeOrAfter::Before => {
                self.value.write_to(out);
                write_str(out, ", ");
                self.src.write_to(out);
            },
            BeforeOrAfter::After => {
                self.src.write_to(out);
                write_str(out, ", ");
                self.value.write_to(out);
            },
        }
        write_str(out, ")");
        assert(final(out)@ =~= old(out)@ + render_append(*self));
    }

    /// The action as it appears in an expression.
    pub fn to_string(&self) -> (r: String)
        ensures
            r@ == render_append(*self),
    {
        let mut out = String::new();
        self.write_to(&mut out);
        assert(out@ =~= render_append(*self));
        out
    }
}

} // verus!
