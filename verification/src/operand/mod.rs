//! Operands of conditions: paths, values, nested conditions and attribute
//! sizes.
use vstd::prelude::*;

use crate::condition::{
    equal, greater_than, greater_than_or_equal, less_than, less_than_or_equal, not_equal,
    render_condition, Between, Comparator, Comparison, Condition, In,
};
use crate::path::{Element, Name, Path};
use crate::text::join;
use crate::value::{render_value_or_ref, Num, Ref, Scalar, Value, ValueOrRef};

verus! {

/// What an operand is.
pub enum OperandType {
    Path(Path),
    Scalar(ValueOrRef),
    Condition(Box<Condition>),
    Size(Size),
}

/// An operand of a comparison, `BETWEEN` or `IN` condition.
pub struct Operand {
    pub op: OperandType,
}

/// The size of the attribute at a path: `size(path)` in an expression.
pub struct Size {
    pub path: Path,
}

/// The text `size(`, then the path, then `)`.
pub open spec fn render_size(path: Path) -> Seq<char> {
    "size("@ + path.render() + ")"@
}

/// An operand as it appears in an expression.
pub open spec fn render_operand(o: Operand) -> Seq<char>
    decreases o,
{
    match o.op {
        OperandType::Path(p) => p.render(),
        OperandType::Scalar(v) => render_value_or_ref(v),
        OperandType::Condition(c) => render_condition(*c),
        OperandType::Size(s) => render_size(s.path),
    }
}

/// The rendering of each operand, in order.
pub open spec fn render_operands(s: Seq<Operand>) -> Seq<Seq<char>>
    decreases s,
{
    if s.len() == 0 {
        seq![]
    } else {
        render_operands(s.drop_last()).push(render_operand(s.last()))
    }
}

/// The renderings of some operands, one by one.
pub proof fn lemma_render_operands(s: Seq<Operand>)
    ensures
        render_operands(s).len() == s.len(),
        forall|i: int| 0 <= i < s.len() ==> #[trigger] render_operands(s)[i] == render_operand(s[i]),
    decreases s.len(),
{
    if s.len() > 0 {
        lemma_render_operands(s.drop_last());
    }
}

impl Operand {
    /// A path operand.
    pub fn new_path(path: Path) -> (r: Operand)
        ensures
            r == (Operand { op: OperandType::Path(path) }),
    {
        Operand { op: OperandType::Path(path) }
    }

    /// A value operand.
    pub fn new_value(value: Value) -> (r: Operand)
        ensures
            r == (Operand { op: OperandType::Scalar(ValueOrRef::Value(value)) }),
    {
        Operand { op: OperandType::Scalar(ValueOrRef::Value(value)) }
    }

    /// A reference to a value in the expression attribute values.
    pub fn new_ref(value_ref: Ref) -> (r: Operand)
        ensures
            r == (Operand { op: OperandType::Scalar(ValueOrRef::Ref(value_ref)) }),
    {
        Operand { op: OperandType::Scalar(ValueOrRef::Ref(value_ref)) }
    }

    /// A condition used as an operand.
    pub fn new_condition(condition: Condition) -> (r: Operand)
        ensures
            r == (Operand { op: OperandType::Condition(Box::new(condition)) }),
    {
        Operand { op: OperandType::Condition(Box::new(condition)) }
    }

    /// The size of an attribute.
    pub fn new_size(size: Size) -> (r: Operand)
        ensures
            r == (Operand { op: OperandType::Size(size) }),
    {
        Operand { op: OperandType::Size(size) }
    }

    /// `self = right`.
    pub fn equal(self, right: Operand) -> (r: Condition)
        ensures
            r == Condition::Comparison(Comparison { left: self, cmp: Comparator::Eq, right }),
    {
        Condition::Comparison(equal(self, right))
    }

    /// `self <> right`.
    pub fn not_equal(self, right: Operand) -> (r: Condition)
        ensures
            r == Condition::Comparison(Comparison { left: self, cmp: Comparator::Ne, right }),
    {
        Condition::Comparison(not_equal(self, right))
    }

    /// `self > right`.
    pub fn greater_than(self, right: Operand) -> (r: Condition)
        ensures
            r == Condition::Comparison(Comparison { left: self, cmp: Comparator::Gt, right }),
    {
        Condition::Comparison(greater_than(self, right))
    }

    /// `self >= right`.
    pub fn greater_than_or_equal(self, right: Operand) -> (r: Condition)
        ensures
            r == Condition::Comparison(Comparison { left: self, cmp: Comparator::Ge, right }),
    {
        Condition::Comparison(greater_than_or_equal(self, right))
    }

    /// `self < right`.
    pub fn less_than(self, right: Operand) -> (r: Condition)
        ensures
            r == Condition::Comparison(Comparison { left: self, cmp: Comparator::Lt, right }),
    {
        Condition::Comparison(less_than(self, right))
    }

    /// `self <= right`.
    pub fn less_than_or_equal(self, right: Operand) -> (r: Condition)
        ensures
            r == Condition::Comparison(Comparison { left: self, cmp: Comparator::Le, right }),
    {
        Condition::Comparison(less_than_or_equal(self, right))
    }

    /// `self BETWEEN lower AND upper`.
    pub fn between(self, lower: Operand, upper: Operand) -> (r: Condition)
        ensures
            r == Condition::Between(Between { op: self, lower, upper }),
    {
        Condition::Between(Between { op: self, lower, upper })
    }

    /// `self IN (items...)`.
    pub fn in_(self, items: Vec<Operand>) -> (r: Condition)
        ensures
            r == Condition::In(In { op: self, items }),
    {
        Condition::In(In { op: self, items })
    }

    /// Appends the operand as it appears in an expression.
    pub fn write_to(&self, out: &mut String)
        ensures
            final(out)@ == old(out)@ + render_operand(*self),
        decreases self,
    {
        match &self.op {
            OperandType::Path(p) => p.write_to(out),
            OperandType::Scalar(v) => v.write_to(out),
            OperandType::Condition(c) => c.write_to(out),
            OperandType::Size(s) => s.write_to(out),
        }
    }

    /// The operand as it appears in an expression.
    pub fn to_string(&self) -> (r: String)
        ensures
            r@ == render_operand(*self),
    {
        let mut out = String::new();
        self.write_to(&mut out);
        assert(out@ =~= render_operand(*self));
        out
    }
}

/// Appends operands separated by `,`.
pub fn write_operands(items: &Vec<Operand>, out: &mut String)
    ensures
        final(out)@ == old(out)@ + join(render_operands(items@), seq![',']),
    decreases items,
{
    let ghost start = out@;
    let ghost parts = render_operands(items@);
    proof {
        lemma_render_operands(items@);
    }
    let mut i: usize = 0;
    while i < items.len()
        invariant
            i <= items@.len(),
            parts == render_operands(items@),
            parts.len() == items@.len(),
            forall|k: int| 0 <= k < items@.len() ==> #[trigger] parts[k] == render_operand(items@[k]),
            out@ == start + join(parts.take(i as int), seq![',']),
        decreases items@.len() - i,
    {
        if i > 0 {
            out.push(',');
        }
        items[i].write_to(out);
        proof {
            crate::text::lemma_join_push(parts.take(i as int), seq![','], parts[i as int]);
            assert(parts.take(i + 1) =~= parts.take(i as int).push(parts[i as int]));
        }
        i = i + 1;
        assert(out@ =~= start + join(parts.take(i as int), seq![',']));
    }
    assert(parts.take(i as int) =~= parts);
}

impl Size {
    /// The size of the attribute at this path.
    pub fn new(path: Path) -> (r: Size)
        ensures
            r == (Size { path }),
    {
        Size { path }
    }

    /// `size(path) = right`.
    pub fn equal(self, right: Operand) -> (r: Comparison)
        ensures
            r == (Comparison { left: Operand { op: OperandType::Size(self) }, cmp: Comparator::Eq, right }),
    {
        equal(Operand::new_size(self), right)
    }

    /// `size(path) <> right`.
    pub fn not_equal(self, right: Operand) -> (r: Comparison)
        ensures
            r == (Comparison { left: Operand { op: OperandType::Size(self) }, cmp: Comparator::Ne, right }),
    {
        not_equal(Operand::new_size(self), right)
    }

    /// `size(path) > right`.
    pub fn greater_than(self, right: Operand) -> (r: Comparison)
        ensures
            r == (Comparison { left: Operand { op: OperandType::Size(self) }, cmp: Comparator::Gt, right }),
    {
        greater_than(Operand::new_size(self), right)
    }

    /// `size(path) >= right`.
    pub fn greater_than_or_equal(self, right: Operand) -> (r: Comparison)
        ensures
            r == (Comparison { left: Operand { op: OperandType::Size(self) }, cmp: Comparator::Ge, right }),
    {
        greater_than_or_equal(Operand::new_size(self), right)
    }

    /// `size(path) < right`.
    pub fn less_than(self, right: Operand) -> (r: Comparison)
        ensures
            r == (Comparison { left: Operand { op: OperandType::Size(self) }, cmp: Comparator::Lt, right }),
    {
        less_than(Operand::new_size(self), right)
    }

    /// `size(path) <= right`.
    pub fn less_than_or_equal(self, right: Operand) -> (r: Comparison)
        ensures
            r == (Comparison { left: Operand { op: OperandType::Size(self) }, cmp: Comparator::Le, right }),
    {
        less_than_or_equal(Operand::new_size(self), right)
    }

    /// `size(path) BETWEEN lower AND upper`.
    pub fn between(self, lower: Operand, upper: Operand) -> (r: Between)
        ensures
            r == (Between { op: Operand { op: OperandType::Size(self) }, lower, upper }),
    {
        Between { op: Operand::new_size(self), lower, upper }
    }

    /// `size(path) IN (items...)`.
    pub fn in_(self, items: Vec<Operand>) -> (r: In)
        ensures
            r == (In { op: Operand { op: OperandType::Size(self) }, items }),
    {
        In { op: Operand::new_size(self), items }
    }

    /// Appends `size(path)`.
    pub fn write_to(&self, out: &mut String)
        ensures
            final(out)@ == old(out)@ + render_size(self.path),
    {
        crate::text::write_str(out, "size(");
        self.path.write_to(out);
        crate::text::write_str(out, ")");
        assert(final(out)@ =~= old(out)@ + render_size(self.path));
    }

    /// `size(path)`, as it appears in an expression.
    pub fn to_string(&self) -> (r: String)
        ensures
            r@ == render_size(self.path),
    {
        let mut out = String::new();
        self.write_to(&mut out);
        assert(out@ =~= render_size(self.path));
        out
    }
}

impl From<Path> for Operand {
    fn from(path: Path) -> (r: Operand) {
        Operand { op: OperandType::Path(path) }
    }
}

impl vstd::std_specs::convert::FromSpecImpl<Path> for Operand {
    open spec fn obeys_from_spec() -> bool {
        true
    }

    open spec fn from_spec(v: Path) -> Operand {
        Operand { op: OperandType::Path(v) }
    }
}

impl From<Name> for Operand {
    fn from(name: Name) -> (r: Operand)
        ensures
            r.op matches OperandType::Path(p) && p@ == seq![Element::Name(name)],
    {
        Operand { op: OperandType::Path(Path::new_name(name)) }
    }
}

/// The contract of this conversion is on `from` itself.
impl vstd::std_specs::convert::FromSpecImpl<Name> for Operand {
    open spec fn obeys_from_spec() -> bool {
        false
    }

    open spec fn from_spec(v: Name) -> Operand {
        vstd::pervasive::arbitrary()
    }
}

impl From<Scalar> for Operand {
    fn from(value: Scalar) -> (r: Operand) {
        Operand { op: OperandType::Scalar(ValueOrRef::Value(Value::Scalar(value))) }
    }
}

impl vstd::std_specs::convert::FromSpecImpl<Scalar> for Operand {
    open spec fn obeys_from_spec() -> bool {
        true
    }

    open spec fn from_spec(v: Scalar) -> Operand {
        Operand { op: OperandType::Scalar(ValueOrRef::Value(Value::Scalar(v))) }
    }
}

impl From<Num> for Operand {
    fn from(value: Num) -> (r: Operand) {
        Operand { op: OperandType::Scalar(ValueOrRef::Value(Value::Scalar(Scalar::Num(value)))) }
    }
}

impl vstd::std_specs::convert::FromSpecImpl<Num> for Operand {
    open spec fn obeys_from_spec() -> bool {
        true
    }

    open spec fn from_spec(v: Num) -> Operand {
        Operand { op: OperandType::Scalar(ValueOrRef::Value(Value::Scalar(Scalar::Num(v)))) }
    }
}

impl From<Value> for Operand {
    fn from(value: Value) -> (r: Operand) {
        Operand { op: OperandType::Scalar(ValueOrRef::Value(value)) }
    }
}

impl vstd::std_specs::convert::FromSpecImpl<Value> for Operand {
    open spec fn obeys_from_spec() -> bool {
        true
    }

    open spec fn from_spec(v: Value) -> Operand {
        Operand { op: OperandType::Scalar(ValueOrRef::Value(v)) }
    }
}

impl From<Ref> for Operand {
    fn from(value: Ref) -> (r: Operand) {
        Operand { op: OperandType::Scalar(ValueOrRef::Ref(value)) }
    }
}

impl vstd::std_specs::convert::FromSpecImpl<Ref> for Operand {
    open spec fn obeys_from_spec() -> bool {
        true
    }

    open spec fn from_spec(v: Ref) -> Operand {
        Operand { op: OperandType::Scalar(ValueOrRef::Ref(v)) }
    }
}

impl From<Condition> for Operand {
    fn from(condition: Condition) -> (r: Operand) {
        Operand { op: OperandType::Condition(Box::new(condition)) }
    }
}

impl vstd::std_specs::convert::FromSpecImpl<Condition> for Operand {
    open spec fn obeys_from_spec() -> bool {
        true
    }

    open spec fn from_spec(v: Condition) -> Operand {
        Operand { op: OperandType::Condition(Box::new(v)) }
    }
}

impl From<Size> for Operand {
    fn from(size: Size) -> (r: Operand) {
        Operand { op: OperandType::Size(size) }
    }
}

impl vstd::std_specs::convert::FromSpecImpl<Size> for Operand {
    open spec fn obeys_from_spec() -> bool {
        true
    }

    open spec fn from_spec(v: Size) -> Operand {
        Operand { op: OperandType::Size(v) }
    }
}

} // verus!
