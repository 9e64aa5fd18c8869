//! Writing conditions, updates and names with expression attribute names and
//! values in place of the names and values themselves.
use vstd::prelude::*;

use crate::condition::{comparator_text, type_text, Condition};
use crate::operand::{Operand, OperandType};
use crate::path::{element_views, render_indexes, Name, Path};
use crate::text::{decimal, join, lemma_join_push, write_str, write_usize};
use crate::update::{
    math::math_op_text, source_of, AddAction, DeleteAction, MathOp, SetAction, Update, UpdateV,
};
use crate::value::{
    order::text_equal, render_ref, set::texts_of, values_view, Value, ValueOrRef, ValueV,
};

verus! {

/// The names and values collected while an expression is built: the name at
/// position `i` appears in the expression as `#i`, the value at position `i`
/// as `:i`.
pub struct Tables {
    pub names: Vec<String>,
    pub values: Vec<Value>,
}

/// The names and values collected while an expression is built.
pub struct TablesV {
    pub names: Seq<Seq<char>>,
    pub values: Seq<ValueV>,
}

impl View for Tables {
    type V = TablesV;

    open spec fn view(&self) -> TablesV {
        TablesV { names: texts_of(self.names@), values: values_view(self.values@) }
    }
}

/// The position of the first `x` in `s` at or after `i`, or the length of
/// `s` when there is none.
pub open spec fn position_from<A>(s: Seq<A>, x: A, i: int) -> int
    decreases s.len() - i,
{
    if i >= s.len() {
        s.len() as int
    } else if s[i] == x {
        i
    } else {
        position_from(s, x, i + 1)
    }
}

/// The position of the first `x` in `s`, or the length of `s` when there is
/// none.
pub open spec fn position_of<A>(s: Seq<A>, x: A) -> int {
    position_from(s, x, 0)
}

/// What `position_from` finds.
pub proof fn lemma_position_from<A>(s: Seq<A>, x: A, i: int)
    requires
        0 <= i <= s.len(),
    ensures
        i <= position_from(s, x, i) <= s.len(),
        forall|j: int| i <= j < position_from(s, x, i) ==> s[j] != x,
        position_from(s, x, i) < s.len() ==> s[position_from(s, x, i)] == x,
    decreases s.len() - i,
{
    if i < s.len() && s[i] != x {
        lemma_position_from(s, x, i + 1);
    }
}

/// What `position_of` finds: the first `x`, or the end when `x` is absent.
pub proof fn lemma_position_of<A>(s: Seq<A>, x: A)
    ensures
        0 <= position_of(s, x) <= s.len(),
        forall|j: int| 0 <= j < position_of(s, x) ==> s[j] != x,
        position_of(s, x) < s.len() ==> s[position_of(s, x)] == x,
        position_of(s, x) < s.len() <==> s.contains(x),
{
    lemma_position_from(s, x, 0);
}

/// `#i`: the expression attribute name at position `i`.
pub open spec fn name_placeholder(i: int) -> Seq<char> {
    seq!['#'] + decimal(i as nat)
}

/// `:i`: the expression attribute value at position `i`.
pub open spec fn value_placeholder(i: int) -> Seq<char> {
    seq![':'] + decimal(i as nat)
}

/// A name in an expression: the placeholder of its first position in the
/// table, where it is added at the end when absent.
pub open spec fn express_name(t: TablesV, n: Seq<char>) -> (Seq<char>, TablesV) {
    let i = position_of(t.names, n);
    (
        name_placeholder(i),
        if i < t.names.len() {
            t
        } else {
            TablesV { names: t.names.push(n), values: t.values }
        },
    )
}

/// A value in an expression: the placeholder of the first equal value in
/// the table, where it is added at the end when absent.
pub open spec fn express_value(t: TablesV, v: ValueV) -> (Seq<char>, TablesV) {
    let i = position_of(t.values, v);
    (
        value_placeholder(i),
        if i < t.values.len() {
            t
        } else {
            TablesV { names: t.names, values: t.values.push(v) }
        },
    )
}

/// Each name in turn.
pub open spec fn express_names(t: TablesV, ns: Seq<Seq<char>>) -> (Seq<Seq<char>>, TablesV)
    decreases ns.len(),
{
    if ns.len() == 0 {
        (seq![], t)
    } else {
        let (parts, t1) = express_names(t, ns.drop_last());
        let (x, t2) = express_name(t1, ns.last());
        (parts.push(x), t2)
    }
}

/// Each path element in turn: its name's placeholder, then its indexes.
pub open spec fn express_elements(t: TablesV, es: Seq<(Seq<char>, Seq<usize>)>) -> (
    Seq<Seq<char>>,
    TablesV,
)
    decreases es.len(),
{
    if es.len() == 0 {
        (seq![], t)
    } else {
        let (parts, t1) = express_elements(t, es.drop_last());
        let (x, t2) = express_name(t1, es.last().0);
        (parts.push(x + render_indexes(es.last().1)), t2)
    }
}

/// A path in an expression: its elements, each with its name replaced,
/// joined by `.`.
pub open spec fn express_path(t: TablesV, p: Path) -> (Seq<char>, TablesV) {
    let (parts, t1) = express_elements(t, element_views(p@));
    (join(parts, seq!['.']), t1)
}

/// A value in an expression, or a reference as it is.
pub open spec fn express_value_or_ref(t: TablesV, v: ValueOrRef) -> (Seq<char>, TablesV) {
    match v {
        ValueOrRef::Value(x) => express_value(t, x@),
        ValueOrRef::Ref(r) => (render_ref(r@), t),
    }
}

/// An operand in an expression.
pub open spec fn express_operand(t: TablesV, o: Operand) -> (Seq<char>, TablesV)
    decreases o,
{
    match o.op {
        OperandType::Path(p) => express_path(t, p),
        OperandType::Scalar(v) => express_value_or_ref(t, v),
        OperandType::Condition(c) => express_condition(t, *c),
        OperandType::Size(s) => {
            let (p, t1) = express_path(t, s.path);
            ("size("@ + p + ")"@, t1)
        },
    }
}

/// Each operand in turn.
pub open spec fn express_operands(t: TablesV, s: Seq<Operand>) -> (Seq<Seq<char>>, TablesV)
    decreases s,
{
    if s.len() == 0 {
        (seq![], t)
    } else {
        let (parts, t1) = express_operands(t, s.drop_last());
        let (x, t2) = express_operand(t1, s.last());
        (parts.push(x), t2)
    }
}

/// A condition in an expression: rendered as usual, with each name and value
/// replaced, in the order in which they appear.
pub open spec fn express_condition(t: TablesV, c: Condition) -> (Seq<char>, TablesV)
    decreases c,
{
    match c {
        Condition::AttributeExists(a) => {
            let (p, t1) = express_path(t, a.path);
            ("attribute_exists"@ + "("@ + p + ")"@, t1)
        },
        Condition::AttributeNotExists(a) => {
            let (p, t1) = express_path(t, a.path);
            ("attribute_not_exists"@ + "("@ + p + ")"@, t1)
        },
        Condition::AttributeType(a) => {
            let (p, t1) = express_path(t, a.path);
            ("attribute_type"@ + "("@ + p + ", "@ + type_text(a.attribute_type) + ")"@, t1)
        },
        Condition::BeginsWith(b) => {
            let (p, t1) = express_path(t, b.path);
            let (v, t2) = express_value_or_ref(t1, b.substr);
            ("begins_with"@ + "("@ + p + ", "@ + v + ")"@, t2)
        },
        Condition::Between(b) => {
            let (x, t1) = express_operand(t, b.op);
            let (lo, t2) = express_operand(t1, b.lower);
            let (hi, t3) = express_operand(t2, b.upper);
            (x + " BETWEEN "@ + lo + " AND "@ + hi, t3)
        },
        Condition::Contains(x) => {
            let (p, t1) = express_path(t, x.path);
            let (v, t2) = express_value_or_ref(t1, x.operand);
            ("contains"@ + "("@ + p + ", "@ + v + ")"@, t2)
        },
        Condition::In(i) => {
            let (x, t1) = express_operand(t, i.op);
            let (parts, t2) = express_operands(t1, i.items@);
            (x + " IN ("@ + join(parts, seq![',']) + ")"@, t2)
        },
        Condition::Not(n) => {
            let (x, t1) = express_condition(t, *n.condition);
            ("NOT "@ + x, t1)
        },
        Condition::And(a) => {
            let (l, t1) = express_condition(t, *a.left);
            let (r, t2) = express_condition(t1, *a.right);
            (l + " AND "@ + r, t2)
        },
        Condition::Or(o) => {
            let (l, t1) = express_condition(t, *o.left);
            let (r, t2) = express_condition(t1, *o.right);
            (l + " OR "@ + r, t2)
        },
        Condition::Comparison(x) => {
            let (l, t1) = express_operand(t, x.left);
            let (r, t2) = express_operand(t1, x.right);
            (l + " "@ + comparator_text(x.cmp) + " "@ + r, t2)
        },
        Condition::Parenthetical(p) => {
            let (x, t1) = express_condition(t, *p.condition);
            ("("@ + x + ")"@, t1)
        },
    }
}

/// A `SET` action in an expression. Names are collected from the
/// destination, then the source; then the value.
pub open spec fn express_set_action(t: TablesV, a: SetAction) -> (Seq<char>, TablesV) {
    match a {
        SetAction::Assign(x) => {
            let (p, t1) = express_path(t, x.path);
            let (v, t2) = express_value_or_ref(t1, x.value);
            (p + " = "@ + v, t2)
        },
        SetAction::Math(x) => {
            let (d, t1) = express_path(t, x.dst);
            let (s, t2) = express_path(t1, source_of(x.dst, x.src));
            let (n, t3) = express_value_or_ref(t2, x.num);
            (d + " = "@ + s + " "@ + math_op_text(x.op) + " "@ + n, t3)
        },
        SetAction::ListAppend(x) => {
            let (d, t1) = express_path(t, x.dst);
            let (s, t2) = express_path(t1, source_of(x.dst, x.src));
            let (l, t3) = express_value_or_ref(t2, x.list);
            (
                d + " = list_append("@ + (if x.after {
                    s + ", "@ + l
                } else {
                    l + ", "@ + s
                }) + ")"@,
                t3,
            )
        },
        SetAction::IfNotExists(x) => {
            let (d, t1) = express_path(t, x.dst);
            let (s, t2) = express_path(t1, source_of(x.dst, x.src));
            let (v, t3) = express_value_or_ref(t2, x.value);
            (d + " = if_not_exists("@ + s + ", "@ + v + ")"@, t3)
        },
    }
}

/// Each `SET` action in turn.
pub open spec fn express_set_actions(t: TablesV, s: Seq<SetAction>) -> (Seq<Seq<char>>, TablesV)
    decreases s.len(),
{
    if s.len() == 0 {
        (seq![], t)
    } else {
        let (parts, t1) = express_set_actions(t, s.drop_last());
        let (x, t2) = express_set_action(t1, s.last());
        (parts.push(x), t2)
    }
}

/// Each path in turn.
pub open spec fn express_paths(t: TablesV, s: Seq<Path>) -> (Seq<Seq<char>>, TablesV)
    decreases s.len(),
{
    if s.len() == 0 {
        (seq![], t)
    } else {
        let (parts, t1) = express_paths(t, s.drop_last());
        let (x, t2) = express_path(t1, s.last());
        (parts.push(x), t2)
    }
}

/// Each `ADD` action in turn: the path, then the value.
pub open spec fn express_add_actions(t: TablesV, s: Seq<AddAction>) -> (Seq<Seq<char>>, TablesV)
    decreases s.len(),
{
    if s.len() == 0 {
        (seq![], t)
    } else {
        let (parts, t1) = express_add_actions(t, s.drop_last());
        let (p, t2) = express_path(t1, s.last().path);
        let (v, t3) = express_value_or_ref(t2, s.last().value);
        (parts.push(p + " "@ + v), t3)
    }
}

/// Each `DELETE` action in turn: the path, then the subset.
pub open spec fn express_delete_actions(t: TablesV, s: Seq<DeleteAction>) -> (
    Seq<Seq<char>>,
    TablesV,
)
    decreases s.len(),
{
    if s.len() == 0 {
        (seq![], t)
    } else {
        let (parts, t1) = express_delete_actions(t, s.drop_last());
        let (p, t2) = express_path(t1, s.last().path);
        let (v, t3) = express_value_or_ref(t2, s.last().subset);
        (parts.push(p + " "@ + v), t3)
    }
}

/// The `SET` clause, if any, and what follows.
pub open spec fn express_set_section(t: TablesV, s: Option<Seq<SetAction>>) -> (
    Seq<Seq<char>>,
    TablesV,
) {
    match s {
        Some(a) => {
            let (parts, t1) = express_set_actions(t, a);
            (seq!["SET "@ + join(parts, seq![',', ' '])], t1)
        },
        None => (seq![], t),
    }
}

/// The `REMOVE` clause, if any.
pub open spec fn express_remove_section(t: TablesV, s: Option<Seq<Path>>) -> (
    Seq<Seq<char>>,
    TablesV,
) {
    match s {
        Some(a) => {
            let (parts, t1) = express_paths(t, a);
            (seq!["REMOVE "@ + join(parts, seq![',', ' '])], t1)
        },
        None => (seq![], t),
    }
}

/// The `ADD` clause, if any.
pub open spec fn express_add_section(t: TablesV, s: Option<Seq<AddAction>>) -> (
    Seq<Seq<char>>,
    TablesV,
) {
    match s {
        Some(a) => {
            let (parts, t1) = express_add_actions(t, a);
            (seq!["ADD "@ + join(parts, seq![',', ' '])], t1)
        },
        None => (seq![], t),
    }
}

/// The `DELETE` clause, if any.
pub open spec fn express_delete_section(t: TablesV, s: Option<Seq<DeleteAction>>) -> (
    Seq<Seq<char>>,
    TablesV,
) {
    match s {
        Some(a) => {
            let (parts, t1) = express_delete_actions(t, a);
            (seq!["DELETE "@ + join(parts, seq![',', ' '])], t1)
        },
        None => (seq![], t),
    }
}

/// An update in an expression: its clauses in the order `SET`, `REMOVE`,
/// `ADD`, `DELETE`, each with its names and values replaced, separated by
/// spaces.
pub open spec fn express_update(t: TablesV, u: UpdateV) -> (Seq<char>, TablesV) {
    let (s, t1) = express_set_section(t, u.set);
    let (r, t2) = express_remove_section(t1, u.remove);
    let (a, t3) = express_add_section(t2, u.add);
    let (d, t4) = express_delete_section(t3, u.delete);
    (join(s + r + a + d, seq![' ']), t4)
}

impl Tables {
    /// Empty tables.
    pub fn new() -> (r: Tables)
        ensures
            r@ == (TablesV { names: seq![], values: seq![] }),
    {
        let r = Tables { names: Vec::new(), values: Vec::new() };
        assert(r@.names =~= Seq::<Seq<char>>::empty());
        assert(r@.values =~= Seq::<ValueV>::empty());
        r
    }

    /// The position of a name in the table, where it is added at the end when
    /// absent.
    pub fn name_position(&mut self, n: &Name) -> (i: usize)
        ensures
            i == position_of(old(self)@.names, n@),
            final(self)@ == express_name(old(self)@, n@).1,
    {
        let ghost s = self@.names;
        let mut i: usize = 0;
        while i < self.names.len()
            invariant
                i <= self.names@.len(),
                *self == *old(self),
                s == texts_of(self.names@),
                s.len() == self.names@.len(),
                position_of(s, n@) == position_from(s, n@, i as int),
            decreases self.names@.len() - i,
        {
            assert(s[i as int] == self.names@[i as int]@);
            if text_equal(&self.names[i], &n.name) {
                return i;
            }
            i = i + 1;
        }
        self.names.push(n.name.clone());
        assert(texts_of(self.names@) =~= s.push(n@));
        i
    }

    /// The position of the first value equal to `v` in the table, where a
    /// copy is added at the end when there is none.
    pub fn value_position(&mut self, v: &Value) -> (i: usize)
        ensures
            i == position_of(old(self)@.values, v@),
            final(self)@ == express_value(old(self)@, v@).1,
    {
        let ghost s = self@.values;
        proof {
            crate::value::lemma_values_view(self.values@);
        }
        let mut i: usize = 0;
        while i < self.values.len()
            invariant
                i <= self.values@.len(),
                *self == *old(self),
                s == values_view(self.values@),
                s.len() == self.values@.len(),
                forall|k: int| 0 <= k < s.len() ==> #[trigger] s[k] == self.values@[k]@,
                position_of(s, v@) == position_from(s, v@, i as int),
            decreases self.values@.len() - i,
        {
            if self.values[i].same(v) {
                return i;
            }
            i = i + 1;
        }
        let copy = v.clone_value();
        let ghost before = self.values@;
        self.values.push(copy);
        assert(self.values@.drop_last() =~= before);
        assert(values_view(self.values@) =~= s.push(v@));
        i
    }
}

/// Writes a name as its placeholder, collecting it.
pub fn express_name_into(t: &mut Tables, n: &Name, out: &mut String)
    ensures
        final(out)@ == old(out)@ + express_name(old(t)@, n@).0,
        final(t)@ == express_name(old(t)@, n@).1,
{
    let i = t.name_position(n);
    out.push('#');
    write_usize(out, i);
    assert(final(out)@ =~= old(out)@ + express_name(old(t)@, n@).0);
}

/// Writes a value as its placeholder, collecting it; a reference is written
/// as it is.
pub fn express_value_or_ref_into(t: &mut Tables, v: &ValueOrRef, out: &mut String)
    ensures
        final(out)@ == old(out)@ + express_value_or_ref(old(t)@, *v).0,
        final(t)@ == express_value_or_ref(old(t)@, *v).1,
{
    match v {
        ValueOrRef::Value(x) => {
            let i = t.value_position(x);
            out.push(':');
            write_usize(out, i);
            assert(final(out)@ =~= old(out)@ + express_value_or_ref(old(t)@, *v).0);
        },
        ValueOrRef::Ref(r) => {
            r.write_to(out);
        },
    }
}

/// Writes a path with its names replaced by placeholders, collecting them.
pub fn express_path_into(t: &mut Tables, p: &Path, out: &mut String)
    ensures
        final(out)@ == old(out)@ + express_path(old(t)@, *p).0,
        final(t)@ == express_path(old(t)@, *p).1,
{
    let ghost start = out@;
    let ghost t0 = t@;
    let ghost ev = element_views(p@);
    let mut i: usize = 0;
    assert(ev.take(0) =~= Seq::<(Seq<char>, Seq<usize>)>::empty());
    while i < p.elements().len()
        invariant
            i <= p@.len(),
            ev == element_views(p@),
            ev.len() == p@.len(),
            out@ == start + join(express_elements(t0, ev.take(i as int)).0, seq!['.']),
            t@ == express_elements(t0, ev.take(i as int)).1,
        decreases p@.len() - i,
    {
        let ghost parts = express_elements(t0, ev.take(i as int)).0;
        if i > 0 {
            out.push('.');
        }
        let ghost before = out@;
        let ghost tb = t@;
        express_name_into(t, p.elements()[i].name_ref(), out);
        p.elements()[i].write_indexes(out);
        proof {
            let e = ev[i as int];
            assert(e == (p@[i as int].spec_name(), p@[i as int].spec_indexes()));
            assert(ev.take(i + 1).drop_last() =~= ev.take(i as int));
            let x = express_name(tb, e.0).0 + render_indexes(e.1);
            assert(out@ =~= before + x);
            lemma_join_push(parts, seq!['.'], x);
            if i == 0 {
                assert(parts.len() == 0) by {
                    lemma_express_elements_len(t0, ev.take(0));
                }
            } else {
                lemma_express_elements_len(t0, ev.take(i as int));
            }
        }
        i = i + 1;
        assert(out@ =~= start + join(express_elements(t0, ev.take(i as int)).0, seq!['.']));
    }
    assert(ev.take(i as int) =~= ev);
}

/// Expressing elements gives one part for each.
pub proof fn lemma_express_elements_len(t: TablesV, es: Seq<(Seq<char>, Seq<usize>)>)
    ensures
        express_elements(t, es).0.len() == es.len(),
    decreases es.len(),
{
    if es.len() > 0 {
        lemma_express_elements_len(t, es.drop_last());
    }
}

/// Expressing operands gives one part for each.
pub proof fn lemma_express_operands_len(t: TablesV, s: Seq<Operand>)
    ensures
        express_operands(t, s).0.len() == s.len(),
    decreases s.len(),
{
    if s.len() > 0 {
        lemma_express_operands_len(t, s.drop_last());
    }
}

/// Writes an operand with its names and values replaced, collecting them.
pub fn express_operand_into(t: &mut Tables, o: &Operand, out: &mut String)
    ensures
        final(out)@ == old(out)@ + express_operand(old(t)@, *o).0,
        final(t)@ == express_operand(old(t)@, *o).1,
    decreases o,
{
    match &o.op {
        OperandType::Path(p) => express_path_into(t, p, out),
        OperandType::Scalar(v) => express_value_or_ref_into(t, v, out),
        OperandType::Condition(c) => express_condition_into(t, c, out),
        OperandType::Size(s) => {
            write_str(out, "size(");
            express_path_into(t, &s.path, out);
            write_str(out, ")");
            assert(final(out)@ =~= old(out)@ + express_operand(old(t)@, *o).0);
        },
    }
}

/// Writes operands separated by `,`, with their names and values replaced.
pub fn express_operands_into(t: &mut Tables, items: &Vec<Operand>, out: &mut String)
    ensures
        final(out)@ == old(out)@ + join(express_operands(old(t)@, items@).0, seq![',']),
        final(t)@ == express_operands(old(t)@, items@).1,
    decreases items,
{
    let ghost start = out@;
    let ghost t0 = t@;
    let mut i: usize = 0;
    assert(items@.take(0) =~= Seq::<Operand>::empty());
    while i < items.len()
        invariant
            i <= items@.len(),
            out@ == start + join(express_operands(t0, items@.take(i as int)).0, seq![',']),
            t@ == express_operands(t0, items@.take(i as int)).1,
        decreases items@.len() - i,
    {
        let ghost parts = express_operands(t0, items@.take(i as int)).0;
        if i > 0 {
            out.push(',');
        }
        let ghost before = out@;
        let ghost tb = t@;
        express_operand_into(t, &items[i], out);
        proof {
            assert(items@.take(i + 1).drop_last() =~= items@.take(i as int));
            let x = express_operand(tb, items@[i as int]).0;
            lemma_join_push(parts, seq![','], x);
            lemma_express_operands_len(t0, items@.take(i as int));
        }
        i = i + 1;
        assert(out@ =~= start + join(express_operands(t0, items@.take(i as int)).0, seq![',']));
    }
    assert(items@.take(i as int) =~= items@);
}

/// Writes a condition with its names and values replaced by placeholders,
/// collecting them in the order in which they appear.
#[verifier::rlimit(60)]
pub fn express_condition_into(t: &mut Tables, c: &Condition, out: &mut String)
    ensures
        final(out)@ == old(out)@ + express_condition(old(t)@, *c).0,
        final(t)@ == express_condition(old(t)@, *c).1,
    decreases c,
{
    match c {
        Condition::AttributeExists(a) => {
            write_str(out, "attribute_exists");
            write_str(out, "(");
            express_path_into(t, &a.path, out);
            write_str(out, ")");
        },
        Condition::AttributeNotExists(a) => {
            write_str(out, "attribute_not_exists");
            write_str(out, "(");
            express_path_into(t, &a.path, out);
            write_str(out, ")");
        },
        Condition::AttributeType(a) => {
            write_str(out, "attribute_type");
            write_str(out, "(");
            express_path_into(t, &a.path, out);
            write_str(out, ", ");
            write_str(out, a.attribute_type.as_str());
            write_str(out, ")");
        },
        Condition::BeginsWith(b) => {
            write_str(out, "begins_with");
            write_str(out, "(");
            express_path_into(t, &b.path, out);
            write_str(out, ", ");
            express_value_or_ref_into(t, &b.substr, out);
            write_str(out, ")");
        },
        Condition::Between(b) => {
            express_operand_into(t, &b.op, out);
            write_str(out, " BETWEEN ");
            express_operand_into(t, &b.lower, out);
            write_str(out, " AND ");
            express_operand_into(t, &b.upper, out);
        },
        Condition::Contains(x) => {
            write_str(out, "contains");
            write_str(out, "(");
            express_path_into(t, &x.path, out);
            write_str(out, ", ");
            express_value_or_ref_into(t, &x.operand, out);
            write_str(out, ")");
        },
        Condition::In(i) => {
            express_operand_into(t, &i.op, out);
            write_str(out, " IN (");
            express_operands_into(t, &i.items, out);
            write_str(out, ")");
        },
        Condition::Not(n) => {
            write_str(out, "NOT ");
            express_condition_into(t, &n.condition, out);
        },
        Condition::And(a) => {
            express_condition_into(t, &a.left, out);
            write_str(out, " AND ");
            express_condition_into(t, &a.right, out);
        },
        Condition::Or(o) => {
            express_condition_into(t, &o.left, out);
            write_str(out, " OR ");
            express_condition_into(t, &o.right, out);
        },
        Condition::Comparison(x) => {
            express_operand_into(t, &x.left, out);
            write_str(out, " ");
            write_str(out, x.cmp.as_str());
            write_str(out, " ");
            express_operand_into(t, &x.right, out);
        },
        Condition::Parenthetical(p) => {
            write_str(out, "(");
            express_condition_into(t, &p.condition, out);
            write_str(out, ")");
        },
    }
    assert(final(out)@ =~= old(out)@ + express_condition(old(t)@, *c).0);
}

/// Writes the source path of an action: the one given, or else the
/// destination.
fn express_source_into(t: &mut Tables, dst: &Path, src: &Option<Path>, out: &mut String)
    ensures
        final(out)@ == old(out)@ + express_path(old(t)@, source_of(*dst, *src)).0,
        final(t)@ == express_path(old(t)@, source_of(*dst, *src)).1,
{
    match src {
        Some(s) => express_path_into(t, s, out),
        None => express_path_into(t, dst, out),
    }
}

/// Writes a math action with its names and values replaced.
fn express_math_into(t: &mut Tables, x: &crate::update::Math, out: &mut String)
    ensures
        final(out)@ == old(out)@ + express_set_action(old(t)@, SetAction::Math(*x)).0,
        final(t)@ == express_set_action(old(t)@, SetAction::Math(*x)).1,
{
    express_path_into(t, &x.dst, out);
    write_str(out, " = ");
    express_source_into(t, &x.dst, &x.src, out);
    write_str(out, " ");
    match x.op {
        MathOp::Add => write_str(out, "+"),
        MathOp::Sub => write_str(out, "-"),
    }
    write_str(out, " ");
    express_value_or_ref_into(t, &x.num, out);
    assert(final(out)@ =~= old(out)@ + express_set_action(old(t)@, SetAction::Math(*x)).0);
}

/// Writes a `list_append` action with its names and values replaced.
fn express_list_append_into(t: &mut Tables, x: &crate::update::ListAppend, out: &mut String)
    ensures
        final(out)@ == old(out)@ + express_set_action(old(t)@, SetAction::ListAppend(*x)).0,
        final(t)@ == express_set_action(old(t)@, SetAction::ListAppend(*x)).1,
{
    express_path_into(t, &x.dst, out);
    write_str(out, " = list_append(");
    let mut src_text = String::new();
    express_source_into(t, &x.dst, &x.src, &mut src_text);
    let mut list_text = String::new();
    express_value_or_ref_into(t, &x.list, &mut list_text);
    if x.after {
        write_str(out, src_text.as_str());
        write_str(out, ", ");
        write_str(out, list_text.as_str());
    } else {
        write_str(out, list_text.as_str());
        write_str(out, ", ");
        write_str(out, src_text.as_str());
    }
    write_str(out, ")");
    assert(final(out)@ =~= old(out)@ + express_set_action(old(t)@, SetAction::ListAppend(*x)).0);
}

/// Writes an `if_not_exists` action with its names and values replaced.
fn express_if_not_exists_into(t: &mut Tables, x: &crate::update::IfNotExists, out: &mut String)
    ensures
        final(out)@ == old(out)@ + express_set_action(old(t)@, SetAction::IfNotExists(*x)).0,
        final(t)@ == express_set_action(old(t)@, SetAction::IfNotExists(*x)).1,
{
    express_path_into(t, &x.dst, out);
    write_str(out, " = if_not_exists(");
    express_source_into(t, &x.dst, &x.src, out);
    write_str(out, ", ");
    express_value_or_ref_into(t, &x.value, out);
    write_str(out, ")");
    assert(final(out)@ =~= old(out)@ + express_set_action(old(t)@, SetAction::IfNotExists(*x)).0);
}

/// Writes a `SET` action with its names and values replaced, collecting
/// names from the destination, then the source, then the value.
pub fn express_set_action_into(t: &mut Tables, a: &SetAction, out: &mut String)
    ensures
        final(out)@ == old(out)@ + express_set_action(old(t)@, *a).0,
        final(t)@ == express_set_action(old(t)@, *a).1,
{
    match a {
        SetAction::Assign(x) => {
            express_path_into(t, &x.path, out);
            write_str(out, " = ");
            express_value_or_ref_into(t, &x.value, out);
            assert(final(out)@ =~= old(out)@ + express_set_action(old(t)@, *a).0);
        },
        SetAction::Math(x) => express_math_into(t, x, out),
        SetAction::ListAppend(x) => express_list_append_into(t, x, out),
        SetAction::IfNotExists(x) => express_if_not_exists_into(t, x, out),
    }
}

/// Expressing each of some items gives one part for each.
pub proof fn lemma_express_set_actions_len(t: TablesV, s: Seq<SetAction>)
    ensures
        express_set_actions(t, s).0.len() == s.len(),
    decreases s.len(),
{
    if s.len() > 0 {
        lemma_express_set_actions_len(t, s.drop_last());
    }
}

/// Writes the items separated by `, `, with names and values replaced.
pub fn express_set_actions_into(t: &mut Tables, items: &Vec<SetAction>, out: &mut String)
    ensures
        final(out)@ == old(out)@ + join(express_set_actions(old(t)@, items@).0, seq![',', ' ']),
        final(t)@ == express_set_actions(old(t)@, items@).1,
{
    let ghost start = out@;
    let ghost t0 = t@;
    let mut i: usize = 0;
    assert(items@.take(0) =~= Seq::<SetAction>::empty());
    while i < items.len()
        invariant
            i <= items@.len(),
            out@ == start + join(express_set_actions(t0, items@.take(i as int)).0, seq![',', ' ']),
            t@ == express_set_actions(t0, items@.take(i as int)).1,
        decreases items@.len() - i,
    {
        let ghost parts = express_set_actions(t0, items@.take(i as int)).0;
        if i > 0 {
            out.push(',');
            out.push(' ');
        }
        let ghost before = out@;
        let ghost tb = t@;
        express_set_action_into(t, &items[i], out);
        proof {
            assert(items@.take(i + 1).drop_last() =~= items@.take(i as int));
            let x = express_set_actions(t0, items@.take(i + 1)).0.last();
            assert(express_set_actions(t0, items@.take(i + 1)).0 == parts.push(x));
            assert(out@ =~= before + x);
            lemma_join_push(parts, seq![',', ' '], x);
            lemma_express_set_actions_len(t0, items@.take(i as int));
        }
        i = i + 1;
        assert(out@ =~= start + join(express_set_actions(t0, items@.take(i as int)).0, seq![',', ' ']));
    }
    assert(items@.take(i as int) =~= items@);
}

/// Expressing each of some items gives one part for each.
pub proof fn lemma_express_paths_len(t: TablesV, s: Seq<Path>)
    ensures
        express_paths(t, s).0.len() == s.len(),
    decreases s.len(),
{
    if s.len() > 0 {
        lemma_express_paths_len(t, s.drop_last());
    }
}

/// Writes the items separated by `, `, with names and values replaced.
pub fn express_paths_into(t: &mut Tables, items: &Vec<Path>, out: &mut String)
    ensures
        final(out)@ == old(out)@ + join(express_paths(old(t)@, items@).0, seq![',', ' ']),
        final(t)@ == express_paths(old(t)@, items@).1,
{
    let ghost start = out@;
    let ghost t0 = t@;
    let mut i: usize = 0;
    assert(items@.take(0) =~= Seq::<Path>::empty());
    while i < items.len()
        invariant
            i <= items@.len(),
            out@ == start + join(express_paths(t0, items@.take(i as int)).0, seq![',', ' ']),
            t@ == express_paths(t0, items@.take(i as int)).1,
        decreases items@.len() - i,
    {
        let ghost parts = express_paths(t0, items@.take(i as int)).0;
        if i > 0 {
            out.push(',');
            out.push(' ');
        }
        let ghost before = out@;
        let ghost tb = t@;
        express_path_into(t, &items[i], out);
        proof {
            assert(items@.take(i + 1).drop_last() =~= items@.take(i as int));
            let x = express_paths(t0, items@.take(i + 1)).0.last();
            assert(express_paths(t0, items@.take(i + 1)).0 == parts.push(x));
            assert(out@ =~= before + x);
            lemma_join_push(parts, seq![',', ' '], x);
            lemma_express_paths_len(t0, items@.take(i as int));
        }
        i = i + 1;
        assert(out@ =~= start + join(express_paths(t0, items@.take(i as int)).0, seq![',', ' ']));
    }
    assert(items@.take(i as int) =~= items@);
}

/// Expressing each of some items gives one part for each.
pub proof fn lemma_express_add_actions_len(t: TablesV, s: Seq<AddAction>)
    ensures
        express_add_actions(t, s).0.len() == s.len(),
    decreases s.len(),
{
    if s.len() > 0 {
        lemma_express_add_actions_len(t, s.drop_last());
    }
}

/// Writes the items separated by `, `, with names and values replaced.
pub fn express_add_actions_into(t: &mut Tables, items: &Vec<AddAction>, out: &mut String)
    ensures
        final(out)@ == old(out)@ + join(express_add_actions(old(t)@, items@).0, seq![',', ' ']),
        final(t)@ == express_add_actions(old(t)@, items@).1,
{
    let ghost start = out@;
    let ghost t0 = t@;
    let mut i: usize = 0;
    assert(items@.take(0) =~= Seq::<AddAction>::empty());
    while i < items.len()
        invariant
            i <= items@.len(),
            out@ == start + join(express_add_actions(t0, items@.take(i as int)).0, seq![',', ' ']),
            t@ == express_add_actions(t0, items@.take(i as int)).1,
        decreases items@.len() - i,
    {
        let ghost parts = express_add_actions(t0, items@.take(i as int)).0;
        if i > 0 {
            out.push(',');
            out.push(' ');
        }
        let ghost before = out@;
        let ghost tb = t@;
        express_path_into(t, &items[i].path, out);
        write_str(out, " ");
        express_value_or_ref_into(t, &items[i].value, out);
        proof {
            assert(items@.take(i + 1).drop_last() =~= items@.take(i as int));
            let x = express_add_actions(t0, items@.take(i + 1)).0.last();
            assert(express_add_actions(t0, items@.take(i + 1)).0 == parts.push(x));
            assert(out@ =~= before + x);
            lemma_join_push(parts, seq![',', ' '], x);
            lemma_express_add_actions_len(t0, items@.take(i as int));
        }
        i = i + 1;
        assert(out@ =~= start + join(express_add_actions(t0, items@.take(i as int)).0, seq![',', ' ']));
    }
    assert(items@.take(i as int) =~= items@);
}

/// Expressing each of some items gives one part for each.
pub proof fn lemma_express_delete_actions_len(t: TablesV, s: Seq<DeleteAction>)
    ensures
        express_delete_actions(t, s).0.len() == s.len(),
    decreases s.len(),
{
    if s.len() > 0 {
        lemma_express_delete_actions_len(t, s.drop_last());
    }
}

/// Writes the items separated by `, `, with names and values replaced.
pub fn express_delete_actions_into(t: &mut Tables, items: &Vec<DeleteAction>, out: &mut String)
    ensures
        final(out)@ == old(out)@ + join(express_delete_actions(old(t)@, items@).0, seq![',', ' ']),
        final(t)@ == express_delete_actions(old(t)@, items@).1,
{
    let ghost start = out@;
    let ghost t0 = t@;
    let mut i: usize = 0;
    assert(items@.take(0) =~= Seq::<DeleteAction>::empty());
    while i < items.len()
        invariant
            i <= items@.len(),
            out@ == start + join(express_delete_actions(t0, items@.take(i as int)).0, seq![',', ' ']),
            t@ == express_delete_actions(t0, items@.take(i as int)).1,
        decreases items@.len() - i,
    {
        let ghost parts = express_delete_actions(t0, items@.take(i as int)).0;
        if i > 0 {
            out.push(',');
            out.push(' ');
        }
        let ghost before = out@;
        let ghost tb = t@;
        express_path_into(t, &items[i].path, out);
        write_str(out, " ");
        express_value_or_ref_into(t, &items[i].subset, out);
        proof {
            assert(items@.take(i + 1).drop_last() =~= items@.take(i as int));
            let x = express_delete_actions(t0, items@.take(i + 1)).0.last();
            assert(express_delete_actions(t0, items@.take(i + 1)).0 == parts.push(x));
            assert(out@ =~= before + x);
            lemma_join_push(parts, seq![',', ' '], x);
            lemma_express_delete_actions_len(t0, items@.take(i as int));
        }
        i = i + 1;
        assert(out@ =~= start + join(express_delete_actions(t0, items@.take(i as int)).0, seq![',', ' ']));
    }
    assert(items@.take(i as int) =~= items@);
}

/// The `SET` clause, if any, with its names and values replaced.
fn express_set_section_into(t: &mut Tables, s: &Option<crate::update::SetClause>) -> (r: Vec<
    String,
>)
    ensures
        texts_of(r@) == express_set_section(old(t)@, crate::update::set_part(*s)).0,
        final(t)@ == express_set_section(old(t)@, crate::update::set_part(*s)).1,
{
    let mut r: Vec<String> = Vec::new();
    match s {
        Some(x) => {
            let mut text = String::new();
            write_str(&mut text, "SET ");
            express_set_actions_into(t, &x.actions, &mut text);
            r.push(text);
        },
        None => {},
    }
    assert(texts_of(r@) =~= express_set_section(old(t)@, crate::update::set_part(*s)).0);
    r
}

/// The `REMOVE` clause, if any, with its names replaced.
fn express_remove_section_into(t: &mut Tables, s: &Option<crate::update::Remove>) -> (r: Vec<
    String,
>)
    ensures
        texts_of(r@) == express_remove_section(old(t)@, crate::update::remove_part(*s)).0,
        final(t)@ == express_remove_section(old(t)@, crate::update::remove_part(*s)).1,
{
    let mut r: Vec<String> = Vec::new();
    match s {
        Some(x) => {
            let mut text = String::new();
            write_str(&mut text, "REMOVE ");
            express_paths_into(t, &x.paths, &mut text);
            r.push(text);
        },
        None => {},
    }
    assert(texts_of(r@) =~= express_remove_section(old(t)@, crate::update::remove_part(*s)).0);
    r
}

/// The `ADD` clause, if any, with its names and values replaced.
fn express_add_section_into(t: &mut Tables, s: &Option<crate::update::Add>) -> (r: Vec<String>)
    ensures
        texts_of(r@) == express_add_section(old(t)@, crate::update::add_part(*s)).0,
        final(t)@ == express_add_section(old(t)@, crate::update::add_part(*s)).1,
{
    let mut r: Vec<String> = Vec::new();
    match s {
        Some(x) => {
            let mut text = String::new();
            write_str(&mut text, "ADD ");
            express_add_actions_into(t, &x.actions, &mut text);
            r.push(text);
        },
        None => {},
    }
    assert(texts_of(r@) =~= express_add_section(old(t)@, crate::update::add_part(*s)).0);
    r
}

/// The `DELETE` clause, if any, with its names and values replaced.
fn express_delete_section_into(t: &mut Tables, s: &Option<crate::update::Delete>) -> (r: Vec<
    String,
>)
    ensures
        texts_of(r@) == express_delete_section(old(t)@, crate::update::delete_part(*s)).0,
        final(t)@ == express_delete_section(old(t)@, crate::update::delete_part(*s)).1,
{
    let mut r: Vec<String> = Vec::new();
    match s {
        Some(x) => {
            let mut text = String::new();
            write_str(&mut text, "DELETE ");
            express_delete_actions_into(t, &x.actions, &mut text);
            r.push(text);
        },
        None => {},
    }
    assert(texts_of(r@) =~= express_delete_section(old(t)@, crate::update::delete_part(*s)).0);
    r
}

/// Writes an update with its names and values replaced, collecting them
/// clause by clause.
pub fn express_update_into(t: &mut Tables, u: &Update, out: &mut String)
    ensures
        final(out)@ == old(out)@ + express_update(old(t)@, u@).0,
        final(t)@ == express_update(old(t)@, u@).1,
{
    let mut sections = express_set_section_into(t, &u.set);
    let mut remove = express_remove_section_into(t, &u.remove);
    let mut add = express_add_section_into(t, &u.add);
    let mut delete = express_delete_section_into(t, &u.delete);
    let ghost s0 = texts_of(sections@);
    let ghost s1 = texts_of(remove@);
    let ghost s2 = texts_of(add@);
    let ghost s3 = texts_of(delete@);
    let ghost v0 = sections@;
    let ghost v1 = remove@;
    let ghost v2 = add@;
    let ghost v3 = delete@;
    sections.append(&mut remove);
    sections.append(&mut add);
    sections.append(&mut delete);
    assert(sections@ =~= v0 + v1 + v2 + v3);
    assert(texts_of(sections@) =~= s0 + s1 + s2 + s3);
    crate::text::write_joined(&sections, " ", out);
    proof {
        reveal_strlit(" ");
        assert(" "@ =~= seq![' ']);
    }
}

/// Writes names as their placeholders separated by `, `, collecting them.
pub fn express_names_into(t: &mut Tables, names: &Vec<Name>, out: &mut String)
    ensures
        final(out)@ == old(out)@ + join(
            express_names(old(t)@, names@.map_values(|n: Name| n@)).0,
            seq![',', ' '],
        ),
        final(t)@ == express_names(old(t)@, names@.map_values(|n: Name| n@)).1,
{
    let ghost start = out@;
    let ghost t0 = t@;
    let ghost ns = names@.map_values(|n: Name| n@);
    let mut i: usize = 0;
    assert(ns.take(0) =~= Seq::<Seq<char>>::empty());
    while i < names.len()
        invariant
            i <= names@.len(),
            ns == names@.map_values(|n: Name| n@),
            out@ == start + join(express_names(t0, ns.take(i as int)).0, seq![',', ' ']),
            t@ == express_names(t0, ns.take(i as int)).1,
        decreases names@.len() - i,
    {
        let ghost parts = express_names(t0, ns.take(i as int)).0;
        if i > 0 {
            out.push(',');
            out.push(' ');
        }
        let ghost before = out@;
        express_name_into(t, &names[i], out);
        proof {
            assert(ns.take(i + 1).drop_last() =~= ns.take(i as int));
            let x = express_names(t0, ns.take(i + 1)).0.last();
            assert(express_names(t0, ns.take(i + 1)).0 == parts.push(x));
            lemma_join_push(parts, seq![',', ' '], x);
            lemma_express_names_len(t0, ns.take(i as int));
        }
        i = i + 1;
        assert(out@ =~= start + join(express_names(t0, ns.take(i as int)).0, seq![',', ' ']));
    }
    assert(ns.take(i as int) =~= ns);
}

/// Expressing names gives one part for each.
pub proof fn lemma_express_names_len(t: TablesV, s: Seq<Seq<char>>)
    ensures
        express_names(t, s).0.len() == s.len(),
    decreases s.len(),
{
    if s.len() > 0 {
        lemma_express_names_len(t, s.drop_last());
    }
}

/// No entry appears twice.
pub open spec fn no_duplicates<A>(s: Seq<A>) -> bool {
    forall|i: int, j: int| 0 <= i < j < s.len() ==> s[i] != s[j]
}

/// `t2` holds what `t1` holds, at the same positions, with perhaps more
/// after it; and when `t1` holds no name twice and no value twice, neither
/// does `t2`.
pub open spec fn keeps(t1: TablesV, t2: TablesV) -> bool {
    &&& t1.names.len() <= t2.names.len()
    &&& t2.names.take(t1.names.len() as int) == t1.names
    &&& t1.values.len() <= t2.values.len()
    &&& t2.values.take(t1.values.len() as int) == t1.values
    &&& no_duplicates(t1.names) ==> no_duplicates(t2.names)
    &&& no_duplicates(t1.values) ==> no_duplicates(t2.values)
}

/// Keeping is transitive.
pub proof fn lemma_keeps_trans(a: TablesV, b: TablesV, c: TablesV)
    requires
        keeps(a, b),
        keeps(b, c),
    ensures
        keeps(a, c),
{
    assert(c.names.take(a.names.len() as int) =~= b.names.take(a.names.len() as int)) by {
        assert forall|i: int| 0 <= i < a.names.len() implies c.names[i] == b.names[i] by {
            assert(c.names.take(b.names.len() as int)[i] == c.names[i]);
        }
    }
    assert(c.values.take(a.values.len() as int) =~= b.values.take(a.values.len() as int)) by {
        assert forall|i: int| 0 <= i < a.values.len() implies c.values[i] == b.values[i] by {
            assert(c.values.take(b.values.len() as int)[i] == c.values[i]);
        }
    }
}

/// Keeping is reflexive.
pub proof fn lemma_keeps_refl(a: TablesV)
    ensures
        keeps(a, a),
{
    assert(a.names.take(a.names.len() as int) =~= a.names);
    assert(a.values.take(a.values.len() as int) =~= a.values);
}

/// A first occurrence in a prefix is the first occurrence in the whole.
pub proof fn lemma_position_in_prefix<A>(s1: Seq<A>, s2: Seq<A>, x: A)
    requires
        s1.len() <= s2.len(),
        s2.take(s1.len() as int) == s1,
        position_of(s1, x) < s1.len(),
    ensures
        position_of(s2, x) == position_of(s1, x),
{
    lemma_position_of(s1, x);
    lemma_position_of(s2, x);
    let p = position_of(s1, x);
    assert(s2[p] == s1[p]) by {
        assert(s2.take(s1.len() as int)[p] == s2[p]);
    }
    let q = position_of(s2, x);
    if q < p {
        assert(s2[q] == s1[q]) by {
            assert(s2.take(s1.len() as int)[q] == s2[q]);
        }
    }
}

/// A name's placeholder is `#i` for the position `i` of the name in the
/// tables afterwards; the name is added only when absent, so the tables are
/// kept.
pub proof fn lemma_express_name(t: TablesV, n: Seq<char>)
    ensures
        ({
            let (x, t2) = express_name(t, n);
            let i = position_of(t.names, n);
            &&& x == name_placeholder(i)
            &&& 0 <= i < t2.names.len()
            &&& t2.names[i] == n
            &&& position_of(t2.names, n) == i
            &&& keeps(t, t2)
        }),
{
    lemma_position_of(t.names, n);
    let (x, t2) = express_name(t, n);
    let i = position_of(t.names, n);
    if i == t.names.len() {
        assert(t2.names.take(t.names.len() as int) =~= t.names);
        assert(t2.values.take(t.values.len() as int) =~= t.values);
        lemma_position_of(t2.names, n);
        if no_duplicates(t.names) {
            assert forall|a: int, b: int| 0 <= a < b < t2.names.len() implies t2.names[a]
                != t2.names[b] by {
                if b == t.names.len() {
                    assert(t.names[a] != n);
                }
            }
        }
        if position_of(t2.names, n) < i {
            assert(t2.names[position_of(t2.names, n)] == t.names[position_of(t2.names, n)]);
        }
    } else {
        lemma_keeps_refl(t);
    }
}

/// A value's placeholder is `:i` for the position `i` of the first equal
/// value in the tables afterwards; the value is added only when no equal one
/// is there, so the tables are kept.
pub proof fn lemma_express_value(t: TablesV, v: ValueV)
    ensures
        ({
            let (x, t2) = express_value(t, v);
            let i = position_of(t.values, v);
            &&& x == value_placeholder(i)
            &&& 0 <= i < t2.values.len()
            &&& t2.values[i] == v
            &&& position_of(t2.values, v) == i
            &&& keeps(t, t2)
        }),
{
    lemma_position_of(t.values, v);
    let (x, t2) = express_value(t, v);
    let i = position_of(t.values, v);
    if i == t.values.len() {
        assert(t2.names.take(t.names.len() as int) =~= t.names);
        assert(t2.values.take(t.values.len() as int) =~= t.values);
        lemma_position_of(t2.values, v);
        if no_duplicates(t.values) {
            assert forall|a: int, b: int| 0 <= a < b < t2.values.len() implies t2.values[a]
                != t2.values[b] by {
                if b == t.values.len() {
                    assert(t.values[a] != v);
                }
            }
        }
        if position_of(t2.values, v) < i {
            assert(t2.values[position_of(t2.values, v)] == t.values[position_of(t2.values, v)]);
        }
    } else {
        lemma_keeps_refl(t);
    }
}

/// Expressing path elements keeps the tables.
pub proof fn lemma_express_elements_keeps(t: TablesV, es: Seq<(Seq<char>, Seq<usize>)>)
    ensures
        keeps(t, express_elements(t, es).1),
    decreases es.len(),
{
    if es.len() == 0 {
        lemma_keeps_refl(t);
    } else {
        lemma_express_elements_keeps(t, es.drop_last());
        let t1 = express_elements(t, es.drop_last()).1;
        lemma_express_name(t1, es.last().0);
        lemma_keeps_trans(t, t1, express_name(t1, es.last().0).1);
    }
}

/// Expressing a path keeps the tables.
pub proof fn lemma_express_path_keeps(t: TablesV, p: Path)
    ensures
        keeps(t, express_path(t, p).1),
{
    lemma_express_elements_keeps(t, element_views(p@));
}

/// Expressing a value or reference keeps the tables.
pub proof fn lemma_express_value_or_ref_keeps(t: TablesV, v: ValueOrRef)
    ensures
        keeps(t, express_value_or_ref(t, v).1),
{
    match v {
        ValueOrRef::Value(x) => lemma_express_value(t, x@),
        ValueOrRef::Ref(_) => lemma_keeps_refl(t),
    }
}

/// Expressing an operand keeps the tables.
pub proof fn lemma_express_operand_keeps(t: TablesV, o: Operand)
    ensures
        keeps(t, express_operand(t, o).1),
    decreases o,
{
    match o.op {
        OperandType::Path(p) => lemma_express_path_keeps(t, p),
        OperandType::Scalar(v) => lemma_express_value_or_ref_keeps(t, v),
        OperandType::Condition(c) => lemma_express_condition_keeps(t, *c),
        OperandType::Size(s) => lemma_express_path_keeps(t, s.path),
    }
}

/// Expressing operands keeps the tables.
pub proof fn lemma_express_operands_keeps(t: TablesV, s: Seq<Operand>)
    ensures
        keeps(t, express_operands(t, s).1),
    decreases s,
{
    if s.len() == 0 {
        lemma_keeps_refl(t);
    } else {
        lemma_express_operands_keeps(t, s.drop_last());
        let t1 = express_operands(t, s.drop_last()).1;
        lemma_express_operand_keeps(t1, s.last());
        lemma_keeps_trans(t, t1, express_operand(t1, s.last()).1);
    }
}

/// Expressing a condition keeps the tables: what was collected stays where
/// it was, and no name or value is collected twice.
pub proof fn lemma_express_condition_keeps(t: TablesV, c: Condition)
    ensures
        keeps(t, express_condition(t, c).1),
    decreases c,
{
    match c {
        Condition::AttributeExists(a) => lemma_express_path_keeps(t, a.path),
        Condition::AttributeNotExists(a) => lemma_express_path_keeps(t, a.path),
        Condition::AttributeType(a) => lemma_express_path_keeps(t, a.path),
        Condition::BeginsWith(b) => {
            lemma_express_path_keeps(t, b.path);
            let t1 = express_path(t, b.path).1;
            lemma_express_value_or_ref_keeps(t1, b.substr);
            lemma_keeps_trans(t, t1, express_value_or_ref(t1, b.substr).1);
        },
        Condition::Between(b) => {
            lemma_express_operand_keeps(t, b.op);
            let t1 = express_operand(t, b.op).1;
            lemma_express_operand_keeps(t1, b.lower);
            let t2 = express_operand(t1, b.lower).1;
            lemma_express_operand_keeps(t2, b.upper);
            lemma_keeps_trans(t, t1, t2);
            lemma_keeps_trans(t, t2, express_operand(t2, b.upper).1);
        },
        Condition::Contains(x) => {
            lemma_express_path_keeps(t, x.path);
            let t1 = express_path(t, x.path).1;
            lemma_express_value_or_ref_keeps(t1, x.operand);
            lemma_keeps_trans(t, t1, express_value_or_ref(t1, x.operand).1);
        },
        Condition::In(i) => {
            lemma_express_operand_keeps(t, i.op);
            let t1 = express_operand(t, i.op).1;
            lemma_express_operands_keeps(t1, i.items@);
            lemma_keeps_trans(t, t1, express_operands(t1, i.items@).1);
        },
        Condition::Not(n) => lemma_express_condition_keeps(t, *n.condition),
        Condition::And(a) => {
            lemma_express_condition_keeps(t, *a.left);
            let t1 = express_condition(t, *a.left).1;
            lemma_express_condition_keeps(t1, *a.right);
            lemma_keeps_trans(t, t1, express_condition(t1, *a.right).1);
        },
        Condition::Or(o) => {
            lemma_express_condition_keeps(t, *o.left);
            let t1 = express_condition(t, *o.left).1;
            lemma_express_condition_keeps(t1, *o.right);
            lemma_keeps_trans(t, t1, express_condition(t1, *o.right).1);
        },
        Condition::Comparison(x) => {
            lemma_express_operand_keeps(t, x.left);
            let t1 = express_operand(t, x.left).1;
            lemma_express_operand_keeps(t1, x.right);
            lemma_keeps_trans(t, t1, express_operand(t1, x.right).1);
        },
        Condition::Parenthetical(p) => lemma_express_condition_keeps(t, *p.condition),
    }
}

/// Expressing a `SET` action keeps the tables.
pub proof fn lemma_express_set_action_keeps(t: TablesV, a: SetAction)
    ensures
        keeps(t, express_set_action(t, a).1),
{
    match a {
        SetAction::Assign(x) => {
            lemma_express_path_keeps(t, x.path);
            let t1 = express_path(t, x.path).1;
            lemma_express_value_or_ref_keeps(t1, x.value);
            lemma_keeps_trans(t, t1, express_value_or_ref(t1, x.value).1);
        },
        SetAction::Math(x) => {
            lemma_express_path_keeps(t, x.dst);
            let t1 = express_path(t, x.dst).1;
            lemma_express_path_keeps(t1, source_of(x.dst, x.src));
            let t2 = express_path(t1, source_of(x.dst, x.src)).1;
            lemma_express_value_or_ref_keeps(t2, x.num);
            lemma_keeps_trans(t, t1, t2);
            lemma_keeps_trans(t, t2, express_value_or_ref(t2, x.num).1);
        },
        SetAction::ListAppend(x) => {
            lemma_express_path_keeps(t, x.dst);
            let t1 = express_path(t, x.dst).1;
            lemma_express_path_keeps(t1, source_of(x.dst, x.src));
            let t2 = express_path(t1, source_of(x.dst, x.src)).1;
            lemma_express_value_or_ref_keeps(t2, x.list);
            lemma_keeps_trans(t, t1, t2);
            lemma_keeps_trans(t, t2, express_value_or_ref(t2, x.list).1);
        },
        SetAction::IfNotExists(x) => {
            lemma_express_path_keeps(t, x.dst);
            let t1 = express_path(t, x.dst).1;
            lemma_express_path_keeps(t1, source_of(x.dst, x.src));
            let t2 = express_path(t1, source_of(x.dst, x.src)).1;
            lemma_express_value_or_ref_keeps(t2, x.value);
            lemma_keeps_trans(t, t1, t2);
            lemma_keeps_trans(t, t2, express_value_or_ref(t2, x.value).1);
        },
    }
}

/// Expressing `SET` actions keeps the tables.
pub proof fn lemma_express_set_actions_keeps(t: TablesV, s: Seq<SetAction>)
    ensures
        keeps(t, express_set_actions(t, s).1),
    decreases s.len(),
{
    if s.len() == 0 {
        lemma_keeps_refl(t);
    } else {
        lemma_express_set_actions_keeps(t, s.drop_last());
        let t1 = express_set_actions(t, s.drop_last()).1;
        lemma_express_set_action_keeps(t1, s.last());
        lemma_keeps_trans(t, t1, express_set_action(t1, s.last()).1);
    }
}

/// Expressing paths keeps the tables.
pub proof fn lemma_express_paths_keeps(t: TablesV, s: Seq<Path>)
    ensures
        keeps(t, express_paths(t, s).1),
    decreases s.len(),
{
    if s.len() == 0 {
        lemma_keeps_refl(t);
    } else {
        lemma_express_paths_keeps(t, s.drop_last());
        let t1 = express_paths(t, s.drop_last()).1;
        lemma_express_path_keeps(t1, s.last());
        lemma_keeps_trans(t, t1, express_path(t1, s.last()).1);
    }
}

/// Expressing `ADD` actions keeps the tables.
pub proof fn lemma_express_add_actions_keeps(t: TablesV, s: Seq<AddAction>)
    ensures
        keeps(t, express_add_actions(t, s).1),
    decreases s.len(),
{
    if s.len() == 0 {
        lemma_keeps_refl(t);
    } else {
        lemma_express_add_actions_keeps(t, s.drop_last());
        let t1 = express_add_actions(t, s.drop_last()).1;
        lemma_express_path_keeps(t1, s.last().path);
        let t2 = express_path(t1, s.last().path).1;
        lemma_express_value_or_ref_keeps(t2, s.last().value);
        lemma_keeps_trans(t, t1, t2);
        lemma_keeps_trans(t, t2, express_value_or_ref(t2, s.last().value).1);
    }
}

/// Expressing `DELETE` actions keeps the tables.
pub proof fn lemma_express_delete_actions_keeps(t: TablesV, s: Seq<DeleteAction>)
    ensures
        keeps(t, express_delete_actions(t, s).1),
    decreases s.len(),
{
    if s.len() == 0 {
        lemma_keeps_refl(t);
    } else {
        lemma_express_delete_actions_keeps(t, s.drop_last());
        let t1 = express_delete_actions(t, s.drop_last()).1;
        lemma_express_path_keeps(t1, s.last().path);
        let t2 = express_path(t1, s.last().path).1;
        lemma_express_value_or_ref_keeps(t2, s.last().subset);
        lemma_keeps_trans(t, t1, t2);
        lemma_keeps_trans(t, t2, express_value_or_ref(t2, s.last().subset).1);
    }
}

/// Expressing names keeps the tables.
pub proof fn lemma_express_names_keeps(t: TablesV, s: Seq<Seq<char>>)
    ensures
        keeps(t, express_names(t, s).1),
    decreases s.len(),
{
    if s.len() == 0 {
        lemma_keeps_refl(t);
    } else {
        lemma_express_names_keeps(t, s.drop_last());
        let t1 = express_names(t, s.drop_last()).1;
        lemma_express_name(t1, s.last());
        lemma_keeps_trans(t, t1, express_name(t1, s.last()).1);
    }
}

/// Expressing an update keeps the tables: what was collected stays where it
/// was, and no name or value is collected twice.
pub proof fn lemma_express_update_keeps(t: TablesV, u: UpdateV)
    ensures
        keeps(t, express_update(t, u).1),
{
    let t1 = express_set_section(t, u.set).1;
    let t2 = express_remove_section(t1, u.remove).1;
    let t3 = express_add_section(t2, u.add).1;
    let t4 = express_delete_section(t3, u.delete).1;
    match u.set {
        Some(a) => lemma_express_set_actions_keeps(t, a),
        None => lemma_keeps_refl(t),
    }
    match u.remove {
        Some(a) => lemma_express_paths_keeps(t1, a),
        None => lemma_keeps_refl(t1),
    }
    match u.add {
        Some(a) => lemma_express_add_actions_keeps(t2, a),
        None => lemma_keeps_refl(t2),
    }
    match u.delete {
        Some(a) => lemma_express_delete_actions_keeps(t3, a),
        None => lemma_keeps_refl(t3),
    }
    lemma_keeps_trans(t, t1, t2);
    lemma_keeps_trans(t, t2, t3);
    lemma_keeps_trans(t, t3, t4);
}

/// Writing a path again, once its names are collected, gives the same text
/// and collects nothing more: the same name always gets the same
/// placeholder.
pub proof fn lemma_express_path_again(t: TablesV, p: Path, t2: TablesV)
    requires
        keeps(express_path(t, p).1, t2),
    ensures
        express_path(t2, p) == (express_path(t, p).0, t2),
{
    lemma_express_elements_again(t, element_views(p@), t2);
}

/// Writing path elements again, once their names are collected, gives the
/// same parts and collects nothing more.
pub proof fn lemma_express_elements_again(
    t: TablesV,
    es: Seq<(Seq<char>, Seq<usize>)>,
    t2: TablesV,
)
    requires
        keeps(express_elements(t, es).1, t2),
    ensures
        express_elements(t2, es) == (express_elements(t, es).0, t2),
    decreases es.len(),
{
    if es.len() > 0 {
        let t1 = express_elements(t, es.drop_last()).1;
        let (x, t3) = express_name(t1, es.last().0);
        lemma_express_name(t1, es.last().0);
        lemma_keeps_trans(t1, t3, t2);
        lemma_express_elements_again(t, es.drop_last(), t2);
        let i = position_of(t1.names, es.last().0);
        lemma_position_of(t3.names, es.last().0);
        lemma_position_in_prefix(t3.names, t2.names, es.last().0);
        lemma_position_of(t2.names, es.last().0);
    }
}

} // verus!
