//! Comparisons: `=`, `<>`, `<`, `<=`, `>` and `>=`.
use vstd::prelude::*;

use crate::operand::Operand;
use crate::text::write_str;

verus! {

/// A DynamoDB comparison operator.
#[derive(Copy, Clone)]
pub enum Comparator {
    Eq,
    Ne,
    Lt,
    Le,
    Gt,
    Ge,
}

/// An operator as it appears in an expression.
pub open spec fn comparator_text(c: Comparator) -> Seq<char> {
    match c {
        Comparator::Eq => "="@,
        Comparator::Ne => "<>"@,
        Comparator::Lt => "<"@,
        Comparator::Le => "<="@,
        Comparator::Gt => ">"@,
        Comparator::Ge => ">="@,
    }
}

impl Comparator {
    /// The operator as it appears in an expression.
    pub fn as_str(self) -> (r: &'static str)
        ensures
            r@ == comparator_text(self),
    {
        match self {
            Comparator::Eq => "=",
            Comparator::Ne => "<>",
            Comparator::Lt => "<",
            Comparator::Le => "<=",
            Comparator::Gt => ">",
            Comparator::Ge => ">=",
        }
    }

    /// The operator as it appears in an expression.
    pub fn to_string(self) -> (r: String)
        ensures
            r@ == comparator_text(self),
    {
        let mut out = String::new();
        write_str(&mut out, self.as_str());
        assert(out@ =~= comparator_text(self));
        out
    }
}

/// A comparison of two operands: `left cmp right`.
pub struct Comparison {
    pub left: Operand,
    pub cmp: Comparator,
    pub right: Operand,
}

/// `left = right`.
pub fn equal(left: Operand, right: Operand) -> (r: Comparison)
    ensures
        r == (Comparison { left, cmp: Comparator::Eq, right }),
{
    Comparison { left, cmp: Comparator::Eq, right }
}

/// `left <> right`.
pub fn not_equal(left: Operand, right: Operand) -> (r: Comparison)
    ensures
        r == (Comparison { left, cmp: Comparator::Ne, right }),
{
    Comparison { left, cmp: Comparator::Ne, right }
}

/// `left > right`.
pub fn greater_than(left: Operand, right: Operand) -> (r: Comparison)
    ensures
        r == (Comparison { left, cmp: Comparator::Gt, right }),
{
    Comparison { left, cmp: Comparator::Gt, right }
}

/// `left >= right`.
pub fn greater_than_or_equal(left: Operand, right: Operand) -> (r: Comparison)
    ensures
        r == (Comparison { left, cmp: Comparator::Ge, right }),
{
    Comparison { left, cmp: Comparator::Ge, right }
}

/// `left < right`.
pub fn less_than(left: Operand, right: Operand) -> (r: Comparison)
    ensures
        r == (Comparison { left, cmp: Comparator::Lt, right }),
{
    Comparison { left, cmp: Comparator::Lt, right }
}

/// `left <= right`.
pub fn less_than_or_equal(left: Operand, right: Operand) -> (r: Comparison)
    ensures
        r == (Comparison { left, cmp: Comparator::Le, right }),
{
    Comparison { left, cmp: Comparator::Le, right }
}

} // verus!
