//! `dst = src + num` and `dst = src - num` actions of a `SET` clause.
use vstd::prelude::*;

use crate::path::Path;
use crate::text::write_str;
use crate::update::{SetAction, Update, UpdateV};
use crate::value::{render_value_or_ref, Num, Scalar, Value, ValueOrRef};

verus! {

/// Adds to or subtracts from a number: `dst = src + num` or
/// `dst = src - num`, where `src` is `dst` unless another is given.
pub struct Math {
    pub dst: Path,
    pub src: Option<Path>,
    pub op: MathOp,
    pub num: ValueOrRef,
}

/// Addition or subtraction.
#[derive(Copy, Clone)]
pub enum MathOp {
    Add,
    Sub,
}

/// The source path of an action: the one given, or else the destination.
pub open spec fn source_of(dst: Path, src: Option<Path>) -> Path {
    match src {
        Some(s) => s,
        None => dst,
    }
}

/// The operator as it appears in an expression.
pub open spec fn math_op_text(op: MathOp) -> Seq<char> {
    match op {
        MathOp::Add => "+"@,
        MathOp::Sub => "-"@,
    }
}

/// A math action as it appears in an expression.
pub open spec fn render_math(m: Math) -> Seq<char> {
    m.dst.render() + " = "@ + source_of(m.dst, m.src).render() + " "@ + math_op_text(m.op) + " "@
        + render_value_or_ref(m.num)
}

/// Builds a [`Math`] action: set the source, then add or subtract.
pub struct Builder {
    pub dst: Path,
    pub src: Option<Path>,
}

impl Math {
    /// Starts a math action on `dst`.
    pub fn builder(dst: Path) -> (r: Builder)
        ensures
            r == (Builder { dst, src: None }),
    {
        Builder { dst, src: None }
    }

    /// This action, then the actions of `other`.
    pub fn and(self, other: Update) -> (r: Update)
        ensures
            r@ == UpdateV::set_only(seq![SetAction::Math(self)]).and_spec(other@),
    {
        Update::from(self).and(other)
    }

    /// Appends the action as it appears in an expression.
    pub fn write_to(&self, out: &mut String)
        ensures
            final(out)@ == old(out)@ + render_math(*self),
    {
        self.dst.write_to(out);
        write_str(out, " = ");
        match &self.src {
            Some(s) => s.write_to(out),
            None => self.dst.write_to(out),
        }
        write_str(out, " ");
        match self.op {
            MathOp::Add => write_str(out, "+"),
            MathOp::Sub => write_str(out, "-"),
        }
        write_str(out, " ");
        self.num.write_to(out);
        assert(final(out)@ =~= old(out)@ + render_math(*self));
    }

    /// The action as it appears in an expression.
    pub fn to_string(&self) -> (r: String)
        ensures
            r@ == render_math(*self),
    {
        let mut out = String::new();
        self.write_to(&mut out);
        assert(out@ =~= render_math(*self));
        out
    }
}

impl Builder {
    /// Takes the number from `src` rather than from the destination.
    pub fn src(self, src: Path) -> (r: Builder)
        ensures
            r == (Builder { dst: self.dst, src: Some(src) }),
    {
        Builder { dst: self.dst, src: Some(src) }
    }

    /// `dst = src + num`.
    pub fn add(self, num: Num) -> (r: Math)
        ensures
            r == (Math {
                dst: self.dst,
                src: self.src,
                op: MathOp::Add,
                num: ValueOrRef::Value(Value::Scalar(Scalar::Num(num))),
            }),
    {
        Math {
            dst: self.dst,
            src: self.src,
            op: MathOp::Add,
            num: ValueOrRef::Value(Value::Scalar(Scalar::Num(num))),
        }
    }

    /// `dst = src - num`.
    pub fn sub(self, num: Num) -> (r: Math)
        ensures
            r == (Math {
                dst: self.dst,
                src: self.src,
                op: MathOp::Sub,
                num: ValueOrRef::Value(Value::Scalar(Scalar::Num(num))),
            }),
    {
        Math {
            dst: self.dst,
            src: self.src,
            op: MathOp::Sub,
            num: ValueOrRef::Value(Value::Scalar(Scalar::Num(num))),
        }
    }
}

} // verus!
