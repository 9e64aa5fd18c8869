//! Conditions for DynamoDB condition, filter and key condition expressions.
use vstd::prelude::*;

pub mod attribute_type;
mod comparison;

pub use self::attribute_type::{type_text, AttributeType, Type};
pub use self::comparison::{
    comparator_text, equal, greater_than, greater_than_or_equal, less_than, less_than_or_equal,
    not_equal, Comparator, Comparison,
};

use crate::operand::{render_operand, render_operands, write_operands, Operand};
use crate::path::Path;
use crate::text::{join, write_str};
use crate::value::{render_value_or_ref, value_or_ref_of, StringOrRef, Value, ValueOrRef};

verus! {

/// `attribute_exists(path)`.
pub struct AttributeExists {
    pub path: Path,
}

/// `attribute_not_exists(path)`.
pub struct AttributeNotExists {
    pub path: Path,
}

/// `begins_with(path, substr)`: whether the attribute at the path begins
/// with a string, given directly or by reference.
pub struct BeginsWith {
    pub path: Path,
    pub substr: ValueOrRef,
}

/// `op BETWEEN lower AND upper`.
pub struct Between {
    pub op: Operand,
    pub lower: Operand,
    pub upper: Operand,
}

/// `contains(path, operand)`: whether the attribute at the path contains a
/// value.
pub struct Contains {
    pub path: Path,
    pub operand: ValueOrRef,
}

/// `op IN (items...)`.
pub struct In {
    pub op: Operand,
    pub items: Vec<Operand>,
}

/// `NOT condition`.
pub struct Not {
    pub condition: Box<Condition>,
}

/// `left AND right`.
pub struct And {
    pub left: Box<Condition>,
    pub right: Box<Condition>,
}

/// `left OR right`.
pub struct Or {
    pub left: Box<Condition>,
    pub right: Box<Condition>,
}

/// `(condition)`.
pub struct Parenthetical {
    pub condition: Box<Condition>,
}

/// A logical condition in a DynamoDB expression.
pub enum Condition {
    AttributeExists(AttributeExists),
    AttributeNotExists(AttributeNotExists),
    AttributeType(AttributeType),
    BeginsWith(BeginsWith),
    Between(Between),
    Contains(Contains),
    In(In),
    Not(Not),
    And(And),
    Or(Or),
    Comparison(Comparison),
    Parenthetical(Parenthetical),
}

/// A function call with one path argument: `name(path)`.
pub open spec fn render_call1(name: Seq<char>, path: Path) -> Seq<char> {
    name + "("@ + path.render() + ")"@
}

/// A function call with a path and a second argument: `name(path, arg)`.
pub open spec fn render_call2(name: Seq<char>, path: Path, arg: Seq<char>) -> Seq<char> {
    name + "("@ + path.render() + ", "@ + arg + ")"@
}

/// `attribute_exists(path)` as it appears in an expression.
pub open spec fn render_attribute_exists(a: AttributeExists) -> Seq<char> {
    render_call1("attribute_exists"@, a.path)
}

/// `attribute_not_exists(path)` as it appears in an expression.
pub open spec fn render_attribute_not_exists(a: AttributeNotExists) -> Seq<char> {
    render_call1("attribute_not_exists"@, a.path)
}

/// `attribute_type(path, type)` as it appears in an expression.
pub open spec fn render_attribute_type(a: AttributeType) -> Seq<char> {
    render_call2("attribute_type"@, a.path, type_text(a.attribute_type))
}

/// `begins_with(path, substr)` as it appears in an expression.
pub open spec fn render_begins_with(b: BeginsWith) -> Seq<char> {
    render_call2("begins_with"@, b.path, render_value_or_ref(b.substr))
}

/// `contains(path, operand)` as it appears in an expression.
pub open spec fn render_contains(x: Contains) -> Seq<char> {
    render_call2("contains"@, x.path, render_value_or_ref(x.operand))
}

/// `op BETWEEN lower AND upper` as it appears in an expression.
pub open spec fn render_between(b: Between) -> Seq<char>
    decreases b,
{
    render_operand(b.op) + " BETWEEN "@ + render_operand(b.lower) + " AND "@ + render_operand(
        b.upper,
    )
}

/// `op IN (items...)` as it appears in an expression: the items separated
/// by `,`.
pub open spec fn render_in(i: In) -> Seq<char>
    decreases i,
{
    render_operand(i.op) + " IN ("@ + join(render_operands(i.items@), seq![',']) + ")"@
}

/// `left cmp right` as it appears in an expression.
pub open spec fn render_comparison(x: Comparison) -> Seq<char>
    decreases x,
{
    render_operand(x.left) + " "@ + comparator_text(x.cmp) + " "@ + render_operand(x.right)
}

/// A condition as it appears in an expression.
pub open spec fn render_condition(c: Condition) -> Seq<char>
    decreases c,
{
    match c {
        Condition::AttributeExists(a) => render_attribute_exists(a),
        Condition::AttributeNotExists(a) => render_attribute_not_exists(a),
        Condition::AttributeType(a) => render_attribute_type(a),
        Condition::BeginsWith(b) => render_begins_with(b),
        Condition::Between(b) => render_between(b),
        Condition::Contains(x) => render_contains(x),
        Condition::In(i) => render_in(i),
        Condition::Not(n) => "NOT "@ + render_condition(*n.condition),
        Condition::And(a) => render_condition(*a.left) + " AND "@ + render_condition(*a.right),
        Condition::Or(o) => render_condition(*o.left) + " OR "@ + render_condition(*o.right),
        Condition::Comparison(x) => render_comparison(x),
        Condition::Parenthetical(p) => "("@ + render_condition(*p.condition) + ")"@,
    }
}

impl Condition {
    /// `self AND right`, in specifications.
    pub open spec fn and_spec(self, right: Condition) -> Condition {
        Condition::And(And { left: Box::new(self), right: Box::new(right) })
    }

    /// `self AND right`.
    pub fn and(self, right: Condition) -> (r: Condition)
        ensures
            r == Condition::And(And { left: Box::new(self), right: Box::new(right) }),
    {
        Condition::And(And { left: Box::new(self), right: Box::new(right) })
    }

    /// `self OR right`.
    pub fn or(self, right: Condition) -> (r: Condition)
        ensures
            r == Condition::Or(Or { left: Box::new(self), right: Box::new(right) }),
    {
        Condition::Or(Or { left: Box::new(self), right: Box::new(right) })
    }

    /// `NOT self`.
    pub fn not(self) -> (r: Condition)
        ensures
            r == Condition::Not(Not { condition: Box::new(self) }),
    {
        Condition::Not(Not { condition: Box::new(self) })
    }

    /// `(self)`.
    pub fn parenthesize(self) -> (r: Condition)
        ensures
            r == Condition::Parenthetical(Parenthetical { condition: Box::new(self) }),
    {
        Condition::Parenthetical(Parenthetical { condition: Box::new(self) })
    }

    /// Appends the condition as it appears in an expression.
    pub fn write_to(&self, out: &mut String)
        ensures
            final(out)@ == old(out)@ + render_condition(*self),
        decreases self,
    {
        match self {
            Condition::AttributeExists(a) => a.write_to(out),
            Condition::AttributeNotExists(a) => a.write_to(out),
            Condition::AttributeType(a) => a.write_to(out),
            Condition::BeginsWith(b) => b.write_to(out),
            Condition::Between(b) => b.write_to(out),
            Condition::Contains(x) => x.write_to(out),
            Condition::In(i) => i.write_to(out),
            Condition::Not(n) => {
                write_str(out, "NOT ");
                n.condition.write_to(out);
            },
            Condition::And(a) => {
                a.left.write_to(out);
                write_str(out, " AND ");
                a.right.write_to(out);
            },
            Condition::Or(o) => {
                o.left.write_to(out);
                write_str(out, " OR ");
                o.right.write_to(out);
            },
            Condition::Comparison(x) => x.write_to(out),
            Condition::Parenthetical(p) => {
                write_str(out, "(");
                p.condition.write_to(out);
                write_str(out, ")");
            },
        }
        assert(final(out)@ =~= old(out)@ + render_condition(*self));
    }

    /// The condition as it appears in an expression.
    pub fn to_string(&self) -> (r: String)
        ensures
            r@ == render_condition(*self),
    {
        let mut out = String::new();
        self.write_to(&mut out);
        assert(out@ =~= render_condition(*self));
        out
    }
}

impl AttributeExists {
    /// `attribute_exists(path)`.
    pub fn new(path: Path) -> (r: AttributeExists)
        ensures
            r == (AttributeExists { path }),
    {
        AttributeExists { path }
    }
}

impl AttributeNotExists {
    /// `attribute_not_exists(path)`.
    pub fn new(path: Path) -> (r: AttributeNotExists)
        ensures
            r == (AttributeNotExists { path }),
    {
        AttributeNotExists { path }
    }
}

impl BeginsWith {
    /// `begins_with(path, substr)`: a string is given as a string value, a
    /// reference as a reference.
    pub fn new(path: Path, substr: StringOrRef) -> (r: BeginsWith)
        ensures
            r == (BeginsWith { path, substr: value_or_ref_of(substr) }),
    {
        BeginsWith { path, substr: ValueOrRef::from_string_or_ref(substr) }
    }
}

impl Contains {
    /// `contains(path, operand)`.
    pub fn new(path: Path, operand: Value) -> (r: Contains)
        ensures
            r == (Contains { path, operand: ValueOrRef::Value(operand) }),
    {
        Contains { path, operand: ValueOrRef::Value(operand) }
    }
}

impl In {
    /// `op IN (items...)`.
    pub fn new(op: Operand, items: Vec<Operand>) -> (r: In)
        ensures
            r == (In { op, items }),
    {
        In { op, items }
    }
}

impl Not {
    /// `NOT condition`.
    pub fn new(condition: Condition) -> (r: Not)
        ensures
            r == (Not { condition: Box::new(condition) }),
    {
        Not { condition: Box::new(condition) }
    }
}

impl Parenthetical {
    /// `(condition)`.
    pub fn new(condition: Condition) -> (r: Parenthetical)
        ensures
            r == (Parenthetical { condition: Box::new(condition) }),
    {
        Parenthetical { condition: Box::new(condition) }
    }
}

impl AttributeExists {
    /// Appends this as it appears in an expression.
    pub fn write_to(&self, out: &mut String)
        ensures
            final(out)@ == old(out)@ + render_attribute_exists(*self),
    {
        write_str(out, "attribute_exists");
        write_str(out, "(");
        self.path.write_to(out);
        write_str(out, ")");
        assert(final(out)@ =~= old(out)@ + render_attribute_exists(*self));
    }

    /// This as it appears in an expression.
    pub fn to_string(&self) -> (r: String)
        ensures
            r@ == render_attribute_exists(*self),
    {
        let mut out = String::new();
        self.write_to(&mut out);
        assert(out@ =~= render_attribute_exists(*self));
        out
    }
}

impl AttributeNotExists {
    /// Appends this as it appears in an expression.
    pub fn write_to(&self, out: &mut String)
        ensures
            final(out)@ == old(out)@ + render_attribute_not_exists(*self),
    {
        write_str(out, "attribute_not_exists");
        write_str(out, "(");
        self.path.write_to(out);
        write_str(out, ")");
        assert(final(out)@ =~= old(out)@ + render_attribute_not_exists(*self));
    }

    /// This as it appears in an expression.
    pub fn to_string(&self) -> (r: String)
        ensures
            r@ == render_attribute_not_exists(*self),
    {
        let mut out = String::new();
        self.write_to(&mut out);
        assert(out@ =~= render_attribute_not_exists(*self));
        out
    }
}

impl AttributeType {
    /// Appends this as it appears in an expression.
    pub fn write_to(&self, out: &mut String)
        ensures
            final(out)@ == old(out)@ + render_attribute_type(*self),
    {
        write_str(out, "attribute_type");
        write_str(out, "(");
        self.path.write_to(out);
        write_str(out, ", ");
        write_str(out, self.attribute_type.as_str());
        write_str(out, ")");
        assert(final(out)@ =~= old(out)@ + render_attribute_type(*self));
    }

    /// This as it appears in an expression.
    pub fn to_string(&self) -> (r: String)
        ensures
            r@ == render_attribute_type(*self),
    {
        let mut out = String::new();
        self.write_to(&mut out);
        assert(out@ =~= render_attribute_type(*self));
        out
    }
}

impl BeginsWith {
    /// Appends this as it appears in an expression.
    pub fn write_to(&self, out: &mut String)
        ensures
            final(out)@ == old(out)@ + render_begins_with(*self),
    {
        write_str(out, "begins_with");
        write_str(out, "(");
        self.path.write_to(out);
        write_str(out, ", ");
        self.substr.write_to(out);
        write_str(out, ")");
        assert(final(out)@ =~= old(out)@ + render_begins_with(*self));
    }

    /// This as it appears in an expression.
    pub fn to_string(&self) -> (r: String)
        ensures
            r@ == render_begins_with(*self),
    {
        let mut out = String::new();
        self.write_to(&mut out);
        assert(out@ =~= render_begins_with(*self));
        out
    }
}

impl Contains {
    /// Appends this as it appears in an expression.
    pub fn write_to(&self, out: &mut String)
        ensures
            final(out)@ == old(out)@ + render_contains(*self),
    {
        write_str(out, "contains");
        write_str(out, "(");
        self.path.write_to(out);
        write_str(out, ", ");
        self.operand.write_to(out);
        write_str(out, ")");
        assert(final(out)@ =~= old(out)@ + render_contains(*self));
    }

    /// This as it appears in an expression.
    pub fn to_string(&self) -> (r: String)
        ensures
            r@ == render_contains(*self),
    {
        let mut out = String::new();
        self.write_to(&mut out);
        assert(out@ =~= render_contains(*self));
        out
    }
}

impl Between {
    /// Appends this as it appears in an expression.
    pub fn write_to(&self, out: &mut String)
        ensures
            final(out)@ == old(out)@ + render_between(*self),
        decreases self,
    {
        self.op.write_to(out);
        write_str(out, " BETWEEN ");
        self.lower.write_to(out);
        write_str(out, " AND ");
        self.upper.write_to(out);
        assert(final(out)@ =~= old(out)@ + render_between(*self));
    }

    /// This as it appears in an expression.
    pub fn to_string(&self) -> (r: String)
        ensures
            r@ == render_between(*self),
    {
        let mut out = String::new();
        self.write_to(&mut out);
        assert(out@ =~= render_between(*self));
        out
    }
}

impl In {
    /// Appends this as it appears in an expression.
    pub fn write_to(&self, out: &mut String)
        ensures
            final(out)@ == old(out)@ + render_in(*self),
        decreases self,
    {
        self.op.write_to(out);
        write_str(out, " IN (");
        write_operands(&self.items, out);
        write_str(out, ")");
        assert(final(out)@ =~= old(out)@ + render_in(*self));
    }

    /// This as it appears in an expression.
    pub fn to_string(&self) -> (r: String)
        ensures
            r@ == render_in(*self),
    {
        let mut out = String::new();
        self.write_to(&mut out);
        assert(out@ =~= render_in(*self));
        out
    }
}

impl Comparison {
    /// Appends this as it appears in an expression.
    pub fn write_to(&self, out: &mut String)
        ensures
            final(out)@ == old(out)@ + render_comparison(*self),
        decreases self,
    {
        self.left.write_to(out);
        write_str(out, " ");
        write_str(out, self.cmp.as_str());
        write_str(out, " ");
        self.right.write_to(out);
        assert(final(out)@ =~= old(out)@ + render_comparison(*self));
    }

    /// This as it appears in an expression.
    pub fn to_string(&self) -> (r: String)
        ensures
            r@ == render_comparison(*self),
    {
        let mut out = String::new();
        self.write_to(&mut out);
        assert(out@ =~= render_comparison(*self));
        out
    }
}

} // verus!
