//! Rendering with names and values written either as themselves or as
//! their placeholders in a table. Written as themselves this is the usual
//! rendering of conditions and updates; the laws here show that an
//! expression built for DynamoDB is that rendering with each name and value
//! replaced by its placeholder.
use vstd::prelude::*;

use super::express::{
    express_add_actions, express_condition, express_delete_actions, express_elements,
    express_name, express_operand, express_operands, express_path, express_paths,
    express_set_action, express_set_actions, express_update, express_value,
    express_value_or_ref, keeps, lemma_express_condition_keeps, lemma_express_name,
    lemma_express_operand_keeps, lemma_express_operands_keeps, lemma_express_path_keeps,
    lemma_express_value, lemma_express_value_or_ref_keeps, lemma_keeps_refl, lemma_keeps_trans,
    lemma_express_set_action_keeps, lemma_express_set_actions_keeps, lemma_express_paths_keeps,
    lemma_express_add_actions_keeps, lemma_express_delete_actions_keeps,
    express_set_section, express_remove_section, express_add_section, express_delete_section,
    lemma_position_in_prefix, name_placeholder, position_of, value_placeholder, TablesV,
};
use crate::condition::{comparator_text, render_condition, type_text, Condition};
use crate::operand::{render_operand, render_operands, Operand, OperandType};
use crate::path::{element_views, render_elements, render_indexes, Path};
use crate::text::join;
use crate::update::{
    math::math_op_text, render_add_action, render_delete_action, render_set_action,
    render_update, source_of, AddAction, DeleteAction, SetAction, UpdateV,
};
use crate::value::{render_ref, render_value, render_value_or_ref, ValueOrRef, ValueV};

verus! {

/// A name as written: itself, or with tables, the placeholder `#i` of its
/// first position there.
pub open spec fn name_as(k: Option<TablesV>, n: Seq<char>) -> Seq<char> {
    match k {
        Some(t) => name_placeholder(position_of(t.names, n)),
        None => n,
    }
}

/// A value as written: its rendering, or with tables, the placeholder `:i`
/// of its first position there.
pub open spec fn value_as(k: Option<TablesV>, v: ValueV) -> Seq<char> {
    match k {
        Some(t) => value_placeholder(position_of(t.values, v)),
        None => render_value(v),
    }
}

/// A path element as written: its name, then `[i]` for each index.
pub open spec fn element_as(k: Option<TablesV>, e: (Seq<char>, Seq<usize>)) -> Seq<char> {
    name_as(k, e.0) + render_indexes(e.1)
}

/// A path as written: its elements joined by `.`.
pub open spec fn path_as(k: Option<TablesV>, p: Path) -> Seq<char> {
    join(element_views(p@).map_values(|e: (Seq<char>, Seq<usize>)| element_as(k, e)), seq!['.'])
}

/// A value or a reference as written; a reference is always itself.
pub open spec fn value_or_ref_as(k: Option<TablesV>, v: ValueOrRef) -> Seq<char> {
    match v {
        ValueOrRef::Value(x) => value_as(k, x@),
        ValueOrRef::Ref(r) => render_ref(r@),
    }
}

/// An operand as written.
pub open spec fn operand_as(k: Option<TablesV>, o: Operand) -> Seq<char>
    decreases o,
{
    match o.op {
        OperandType::Path(p) => path_as(k, p),
        OperandType::Scalar(v) => value_or_ref_as(k, v),
        OperandType::Condition(c) => condition_as(k, *c),
        OperandType::Size(s) => "size("@ + path_as(k, s.path) + ")"@,
    }
}

/// Each operand as written, in order.
pub open spec fn operands_as(k: Option<TablesV>, s: Seq<Operand>) -> Seq<Seq<char>>
    decreases s,
{
    if s.len() == 0 {
        seq![]
    } else {
        operands_as(k, s.drop_last()).push(operand_as(k, s.last()))
    }
}

/// A condition as written.
pub open spec fn condition_as(k: Option<TablesV>, c: Condition) -> Seq<char>
    decreases c,
{
    match c {
        Condition::AttributeExists(a) => "attribute_exists"@ + "("@ + path_as(k, a.path) + ")"@,
        Condition::AttributeNotExists(a) => "attribute_not_exists"@ + "("@ + path_as(k, a.path) + ")"@,
        Condition::AttributeType(a) => "attribute_type"@ + "("@ + path_as(k, a.path) + ", "@ + type_text(
            a.attribute_type,
        ) + ")"@,
        Condition::BeginsWith(b) => "begins_with"@ + "("@ + path_as(k, b.path) + ", "@ + value_or_ref_as(
            k,
            b.substr,
        ) + ")"@,
        Condition::Between(b) => operand_as(k, b.op) + " BETWEEN "@ + operand_as(k, b.lower)
            + " AND "@ + operand_as(k, b.upper),
        Condition::Contains(x) => "contains"@ + "("@ + path_as(k, x.path) + ", "@ + value_or_ref_as(
            k,
            x.operand,
        ) + ")"@,
        Condition::In(i) => operand_as(k, i.op) + " IN ("@ + join(operands_as(k, i.items@), seq![','])
            + ")"@,
        Condition::Not(n) => "NOT "@ + condition_as(k, *n.condition),
        Condition::And(a) => condition_as(k, *a.left) + " AND "@ + condition_as(k, *a.right),
        Condition::Or(o) => condition_as(k, *o.left) + " OR "@ + condition_as(k, *o.right),
        Condition::Comparison(x) => operand_as(k, x.left) + " "@ + comparator_text(x.cmp) + " "@
            + operand_as(k, x.right),
        Condition::Parenthetical(p) => "("@ + condition_as(k, *p.condition) + ")"@,
    }
}

/// A `SET` action as written.
pub open spec fn set_action_as(k: Option<TablesV>, a: SetAction) -> Seq<char> {
    match a {
        SetAction::Assign(x) => path_as(k, x.path) + " = "@ + value_or_ref_as(k, x.value),
        SetAction::Math(x) => path_as(k, x.dst) + " = "@ + path_as(k, source_of(x.dst, x.src))
            + " "@ + math_op_text(x.op) + " "@ + value_or_ref_as(k, x.num),
        SetAction::ListAppend(x) => {
            let src = path_as(k, source_of(x.dst, x.src));
            let list = value_or_ref_as(k, x.list);
            path_as(k, x.dst) + " = list_append("@ + (if x.after {
                src + ", "@ + list
            } else {
                list + ", "@ + src
            }) + ")"@
        },
        SetAction::IfNotExists(x) => path_as(k, x.dst) + " = if_not_exists("@ + path_as(
            k,
            source_of(x.dst, x.src),
        ) + ", "@ + value_or_ref_as(k, x.value) + ")"@,
    }
}

/// An `ADD` action as written.
pub open spec fn add_action_as(k: Option<TablesV>, a: AddAction) -> Seq<char> {
    path_as(k, a.path) + " "@ + value_or_ref_as(k, a.value)
}

/// A `DELETE` action as written.
pub open spec fn delete_action_as(k: Option<TablesV>, a: DeleteAction) -> Seq<char> {
    path_as(k, a.path) + " "@ + value_or_ref_as(k, a.subset)
}

/// The clauses of an update that are present, as written, in the order
/// `SET`, `REMOVE`, `ADD`, `DELETE`; each is its keyword, a space, and its
/// actions separated by `, `.
pub open spec fn update_sections_as(k: Option<TablesV>, u: UpdateV) -> Seq<Seq<char>> {
    let sep = seq![',', ' '];
    let s = match u.set {
        Some(a) => seq!["SET "@ + join(a.map_values(|x: SetAction| set_action_as(k, x)), sep)],
        None => seq![],
    };
    let r = match u.remove {
        Some(a) => seq!["REMOVE "@ + join(a.map_values(|x: Path| path_as(k, x)), sep)],
        None => seq![],
    };
    let ad = match u.add {
        Some(a) => seq!["ADD "@ + join(a.map_values(|x: AddAction| add_action_as(k, x)), sep)],
        None => seq![],
    };
    let d = match u.delete {
        Some(a) => seq![
            "DELETE "@ + join(a.map_values(|x: DeleteAction| delete_action_as(k, x)), sep),
        ],
        None => seq![],
    };
    s + r + ad + d
}

/// An update as written: its clauses separated by spaces.
pub open spec fn update_as(k: Option<TablesV>, u: UpdateV) -> Seq<char> {
    join(update_sections_as(k, u), seq![' '])
}

// Written as themselves, these are the usual renderings.

/// A path written with its names as themselves is its rendering.
pub proof fn lemma_path_as_plain(p: Path)
    ensures
        path_as(None, p) == p.render(),
{
    assert(element_views(p@).map_values(|e: (Seq<char>, Seq<usize>)| element_as(None, e))
        =~= render_elements(p@));
}

/// An operand written with its names and values as themselves is its
/// rendering.
pub proof fn lemma_operand_as_plain(o: Operand)
    ensures
        operand_as(None, o) == render_operand(o),
    decreases o,
{
    match o.op {
        OperandType::Path(p) => lemma_path_as_plain(p),
        OperandType::Scalar(_) => {},
        OperandType::Condition(c) => lemma_condition_as_plain(*c),
        OperandType::Size(s) => lemma_path_as_plain(s.path),
    }
}

/// Operands written with their names and values as themselves are their
/// renderings.
pub proof fn lemma_operands_as_plain(s: Seq<Operand>)
    ensures
        operands_as(None, s) == render_operands(s),
    decreases s,
{
    if s.len() > 0 {
        lemma_operands_as_plain(s.drop_last());
        lemma_operand_as_plain(s.last());
    }
}

/// A condition written with its names and values as themselves is its
/// rendering, the text that `Condition::to_string` gives.
pub proof fn lemma_condition_as_plain(c: Condition)
    ensures
        condition_as(None, c) == render_condition(c),
    decreases c,
{
    match c {
        Condition::AttributeExists(a) => {
            lemma_path_as_plain(a.path);
        },
        Condition::AttributeNotExists(a) => {
            lemma_path_as_plain(a.path);
        },
        Condition::AttributeType(a) => {
            lemma_path_as_plain(a.path);
        },
        Condition::BeginsWith(b) => {
            lemma_path_as_plain(b.path);
        },
        Condition::Between(b) => {
            lemma_operand_as_plain(b.op);
            lemma_operand_as_plain(b.lower);
            lemma_operand_as_plain(b.upper);
            assert(render_condition(c) == crate::condition::render_between(b));
        },
        Condition::Contains(x) => {
            lemma_path_as_plain(x.path);
        },
        Condition::In(i) => {
            lemma_operand_as_plain(i.op);
            lemma_operands_as_plain(i.items@);
            assert(render_condition(c) == crate::condition::render_in(i));
        },
        Condition::Not(n) => {
            lemma_condition_as_plain(*n.condition);
        },
        Condition::And(a) => {
            lemma_condition_as_plain(*a.left);
            lemma_condition_as_plain(*a.right);
        },
        Condition::Or(o) => {
            lemma_condition_as_plain(*o.left);
            lemma_condition_as_plain(*o.right);
        },
        Condition::Comparison(x) => {
            lemma_operand_as_plain(x.left);
            lemma_operand_as_plain(x.right);
            assert(render_condition(c) == crate::condition::render_comparison(x));
        },
        Condition::Parenthetical(p) => {
            lemma_condition_as_plain(*p.condition);
        },
    }
}

/// A `SET` action written with its names and values as themselves is its
/// rendering.
pub proof fn lemma_set_action_as_plain(a: SetAction)
    ensures
        set_action_as(None, a) == render_set_action(a),
{
    match a {
        SetAction::Assign(x) => lemma_path_as_plain(x.path),
        SetAction::Math(x) => {
            lemma_path_as_plain(x.dst);
            lemma_path_as_plain(source_of(x.dst, x.src));
        },
        SetAction::ListAppend(x) => {
            lemma_path_as_plain(x.dst);
            lemma_path_as_plain(source_of(x.dst, x.src));
        },
        SetAction::IfNotExists(x) => {
            lemma_path_as_plain(x.dst);
            lemma_path_as_plain(source_of(x.dst, x.src));
        },
    }
}

/// An update written with its names and values as themselves is its
/// rendering, the text that `Update::to_string` gives.
pub proof fn lemma_update_as_plain(u: UpdateV)
    ensures
        update_as(None, u) == render_update(u),
{
    if let Some(a) = u.set {
        assert forall|i: int| 0 <= i < a.len() implies set_action_as(None, #[trigger] a[i])
            == render_set_action(a[i]) by {
            lemma_set_action_as_plain(a[i]);
        }
        assert(a.map_values(|x: SetAction| set_action_as(None, x)) =~= a.map_values(
            |x: SetAction| render_set_action(x),
        ));
    }
    if let Some(a) = u.remove {
        assert forall|i: int| 0 <= i < a.len() implies path_as(None, #[trigger] a[i])
            == a[i].render() by {
            lemma_path_as_plain(a[i]);
        }
        assert(a.map_values(|x: Path| path_as(None, x)) =~= a.map_values(|x: Path| x.render()));
    }
    if let Some(a) = u.add {
        assert forall|i: int| 0 <= i < a.len() implies add_action_as(None, #[trigger] a[i])
            == render_add_action(a[i]) by {
            lemma_path_as_plain(a[i].path);
        }
        assert(a.map_values(|x: AddAction| add_action_as(None, x)) =~= a.map_values(
            |x: AddAction| render_add_action(x),
        ));
    }
    if let Some(a) = u.delete {
        assert forall|i: int| 0 <= i < a.len() implies delete_action_as(None, #[trigger] a[i])
            == render_delete_action(a[i]) by {
            lemma_path_as_plain(a[i].path);
        }
        assert(a.map_values(|x: DeleteAction| delete_action_as(None, x)) =~= a.map_values(
            |x: DeleteAction| render_delete_action(x),
        ));
    }
    assert(update_sections_as(None, u) =~= crate::update::update_sections(u));
}


// What an expression holds is the rendering with placeholders. Each lemma
// below holds for any tables `big` that keep those reached after the part
// was expressed: a name's position does not change once it is collected.

/// A name is written as the placeholder of its position in later tables.
proof fn lemma_name_later(t: TablesV, n: Seq<char>, big: TablesV)
    requires
        keeps(express_name(t, n).1, big),
    ensures
        express_name(t, n).0 == name_as(Some(big), n),
{
    lemma_express_name(t, n);
    let t2 = express_name(t, n).1;
    lemma_position_in_prefix(t2.names, big.names, n);
}

/// A value is written as the placeholder of its position in later tables.
proof fn lemma_value_later(t: TablesV, v: ValueV, big: TablesV)
    requires
        keeps(express_value(t, v).1, big),
    ensures
        express_value(t, v).0 == value_as(Some(big), v),
{
    lemma_express_value(t, v);
    let t2 = express_value(t, v).1;
    lemma_position_in_prefix(t2.values, big.values, v);
}

/// Path elements are written with their names as placeholders.
proof fn lemma_elements_later(t: TablesV, es: Seq<(Seq<char>, Seq<usize>)>, big: TablesV)
    requires
        keeps(express_elements(t, es).1, big),
    ensures
        express_elements(t, es).0 == es.map_values(
            |e: (Seq<char>, Seq<usize>)| element_as(Some(big), e),
        ),
    decreases es.len(),
{
    let f = |e: (Seq<char>, Seq<usize>)| element_as(Some(big), e);
    if es.len() == 0 {
        assert(es.map_values(f) =~= Seq::<Seq<char>>::empty());
    } else {
        let t1 = express_elements(t, es.drop_last()).1;
        lemma_express_name(t1, es.last().0);
        lemma_keeps_trans(t1, express_name(t1, es.last().0).1, big);
        lemma_elements_later(t, es.drop_last(), big);
        lemma_name_later(t1, es.last().0, big);
        assert(es.map_values(f) =~= es.drop_last().map_values(f).push(f(es.last())));
    }
}

/// A path is written with its names as placeholders.
proof fn lemma_path_later(t: TablesV, p: Path, big: TablesV)
    requires
        keeps(express_path(t, p).1, big),
    ensures
        express_path(t, p).0 == path_as(Some(big), p),
{
    lemma_elements_later(t, element_views(p@), big);
}

/// A value is written as its placeholder; a reference as itself.
proof fn lemma_value_or_ref_later(t: TablesV, v: ValueOrRef, big: TablesV)
    requires
        keeps(express_value_or_ref(t, v).1, big),
    ensures
        express_value_or_ref(t, v).0 == value_or_ref_as(Some(big), v),
{
    if let ValueOrRef::Value(x) = v {
        lemma_value_later(t, x@, big);
    }
}

/// An operand is written with its names and values as placeholders.
proof fn lemma_operand_later(t: TablesV, o: Operand, big: TablesV)
    requires
        keeps(express_operand(t, o).1, big),
    ensures
        express_operand(t, o).0 == operand_as(Some(big), o),
    decreases o,
{
    match o.op {
        OperandType::Path(p) => lemma_path_later(t, p, big),
        OperandType::Scalar(v) => lemma_value_or_ref_later(t, v, big),
        OperandType::Condition(c) => lemma_condition_later(t, *c, big),
        OperandType::Size(s) => lemma_path_later(t, s.path, big),
    }
}

/// Operands are written with their names and values as placeholders.
proof fn lemma_operands_later(t: TablesV, s: Seq<Operand>, big: TablesV)
    requires
        keeps(express_operands(t, s).1, big),
    ensures
        express_operands(t, s).0 == operands_as(Some(big), s),
    decreases s,
{
    if s.len() > 0 {
        let t1 = express_operands(t, s.drop_last()).1;
        lemma_express_operand_keeps(t1, s.last());
        lemma_keeps_trans(t1, express_operand(t1, s.last()).1, big);
        lemma_operands_later(t, s.drop_last(), big);
        lemma_operand_later(t1, s.last(), big);
    }
}

/// A condition is written with its names and values as placeholders.
proof fn lemma_condition_later(t: TablesV, c: Condition, big: TablesV)
    requires
        keeps(express_condition(t, c).1, big),
    ensures
        express_condition(t, c).0 == condition_as(Some(big), c),
    decreases c,
{
    match c {
        Condition::AttributeExists(a) => lemma_path_later(t, a.path, big),
        Condition::AttributeNotExists(a) => lemma_path_later(t, a.path, big),
        Condition::AttributeType(a) => lemma_path_later(t, a.path, big),
        Condition::BeginsWith(b) => {
            let t1 = express_path(t, b.path).1;
            lemma_express_value_or_ref_keeps(t1, b.substr);
            lemma_keeps_trans(t1, express_value_or_ref(t1, b.substr).1, big);
            lemma_path_later(t, b.path, big);
            lemma_value_or_ref_later(t1, b.substr, big);
        },
        Condition::Between(b) => {
            let t1 = express_operand(t, b.op).1;
            let t2 = express_operand(t1, b.lower).1;
            lemma_express_operand_keeps(t2, b.upper);
            lemma_express_operand_keeps(t1, b.lower);
            lemma_keeps_trans(t2, express_operand(t2, b.upper).1, big);
            lemma_keeps_trans(t1, t2, big);
            lemma_operand_later(t, b.op, big);
            lemma_operand_later(t1, b.lower, big);
            lemma_operand_later(t2, b.upper, big);
        },
        Condition::Contains(x) => {
            let t1 = express_path(t, x.path).1;
            lemma_express_value_or_ref_keeps(t1, x.operand);
            lemma_keeps_trans(t1, express_value_or_ref(t1, x.operand).1, big);
            lemma_path_later(t, x.path, big);
            lemma_value_or_ref_later(t1, x.operand, big);
        },
        Condition::In(i) => {
            let t1 = express_operand(t, i.op).1;
            lemma_express_operands_keeps(t1, i.items@);
            lemma_keeps_trans(t1, express_operands(t1, i.items@).1, big);
            lemma_operand_later(t, i.op, big);
            lemma_operands_later(t1, i.items@, big);
        },
        Condition::Not(n) => lemma_condition_later(t, *n.condition, big),
        Condition::And(a) => {
            let t1 = express_condition(t, *a.left).1;
            lemma_express_condition_keeps(t1, *a.right);
            lemma_keeps_trans(t1, express_condition(t1, *a.right).1, big);
            lemma_condition_later(t, *a.left, big);
            lemma_condition_later(t1, *a.right, big);
        },
        Condition::Or(o) => {
            let t1 = express_condition(t, *o.left).1;
            lemma_express_condition_keeps(t1, *o.right);
            lemma_keeps_trans(t1, express_condition(t1, *o.right).1, big);
            lemma_condition_later(t, *o.left, big);
            lemma_condition_later(t1, *o.right, big);
        },
        Condition::Comparison(x) => {
            let t1 = express_operand(t, x.left).1;
            lemma_express_operand_keeps(t1, x.right);
            lemma_keeps_trans(t1, express_operand(t1, x.right).1, big);
            lemma_operand_later(t, x.left, big);
            lemma_operand_later(t1, x.right, big);
        },
        Condition::Parenthetical(p) => lemma_condition_later(t, *p.condition, big),
    }
}

/// A destination, a source and a value, expressed in that order, are each
/// written with placeholders of later tables.
proof fn lemma_three_later(t: TablesV, d: Path, s: Path, v: ValueOrRef, big: TablesV)
    requires
        keeps(
            express_value_or_ref(express_path(express_path(t, d).1, s).1, v).1,
            big,
        ),
    ensures
        express_path(t, d).0 == path_as(Some(big), d),
        express_path(express_path(t, d).1, s).0 == path_as(Some(big), s),
        express_value_or_ref(express_path(express_path(t, d).1, s).1, v).0 == value_or_ref_as(
            Some(big),
            v,
        ),
{
    let t1 = express_path(t, d).1;
    let t2 = express_path(t1, s).1;
    lemma_express_value_or_ref_keeps(t2, v);
    lemma_express_path_keeps(t1, s);
    lemma_keeps_trans(t2, express_value_or_ref(t2, v).1, big);
    lemma_keeps_trans(t1, t2, big);
    lemma_path_later(t, d, big);
    lemma_path_later(t1, s, big);
    lemma_value_or_ref_later(t2, v, big);
}

/// A `SET` action is written with its names and values as placeholders.
proof fn lemma_set_action_later(t: TablesV, a: SetAction, big: TablesV)
    requires
        keeps(express_set_action(t, a).1, big),
    ensures
        express_set_action(t, a).0 == set_action_as(Some(big), a),
{
    match a {
        SetAction::Assign(x) => {
            let t1 = express_path(t, x.path).1;
            lemma_express_value_or_ref_keeps(t1, x.value);
            lemma_keeps_trans(t1, express_value_or_ref(t1, x.value).1, big);
            lemma_path_later(t, x.path, big);
            lemma_value_or_ref_later(t1, x.value, big);
        },
        SetAction::Math(x) => lemma_three_later(t, x.dst, source_of(x.dst, x.src), x.num, big),
        SetAction::ListAppend(x) => lemma_three_later(
            t,
            x.dst,
            source_of(x.dst, x.src),
            x.list,
            big,
        ),
        SetAction::IfNotExists(x) => lemma_three_later(
            t,
            x.dst,
            source_of(x.dst, x.src),
            x.value,
            big,
        ),
    }
}

/// `SET` actions are written with their names and values as placeholders.
proof fn lemma_set_actions_later(t: TablesV, s: Seq<SetAction>, big: TablesV)
    requires
        keeps(express_set_actions(t, s).1, big),
    ensures
        express_set_actions(t, s).0 == s.map_values(|x: SetAction| set_action_as(Some(big), x)),
    decreases s.len(),
{
    let f = |x: SetAction| set_action_as(Some(big), x);
    if s.len() == 0 {
        assert(s.map_values(f) =~= Seq::<Seq<char>>::empty());
    } else {
        let t1 = express_set_actions(t, s.drop_last()).1;
        lemma_express_set_action_keeps(t1, s.last());
        lemma_keeps_trans(t1, express_set_action(t1, s.last()).1, big);
        lemma_set_actions_later(t, s.drop_last(), big);
        lemma_set_action_later(t1, s.last(), big);
        assert(s.map_values(f) =~= s.drop_last().map_values(f).push(f(s.last())));
    }
}

/// Paths to remove are written with their names as placeholders.
proof fn lemma_paths_later(t: TablesV, s: Seq<Path>, big: TablesV)
    requires
        keeps(express_paths(t, s).1, big),
    ensures
        express_paths(t, s).0 == s.map_values(|x: Path| path_as(Some(big), x)),
    decreases s.len(),
{
    let f = |x: Path| path_as(Some(big), x);
    if s.len() == 0 {
        assert(s.map_values(f) =~= Seq::<Seq<char>>::empty());
    } else {
        let t1 = express_paths(t, s.drop_last()).1;
        lemma_express_path_keeps(t1, s.last());
        lemma_keeps_trans(t1, express_path(t1, s.last()).1, big);
        lemma_paths_later(t, s.drop_last(), big);
        lemma_path_later(t1, s.last(), big);
        assert(s.map_values(f) =~= s.drop_last().map_values(f).push(f(s.last())));
    }
}

/// `ADD` actions are written with their names and values as placeholders.
proof fn lemma_add_actions_later(t: TablesV, s: Seq<AddAction>, big: TablesV)
    requires
        keeps(express_add_actions(t, s).1, big),
    ensures
        express_add_actions(t, s).0 == s.map_values(|x: AddAction| add_action_as(Some(big), x)),
    decreases s.len(),
{
    let f = |x: AddAction| add_action_as(Some(big), x);
    if s.len() == 0 {
        assert(s.map_values(f) =~= Seq::<Seq<char>>::empty());
    } else {
        let t1 = express_add_actions(t, s.drop_last()).1;
        let t2 = express_path(t1, s.last().path).1;
        lemma_express_value_or_ref_keeps(t2, s.last().value);
        lemma_keeps_trans(t2, express_value_or_ref(t2, s.last().value).1, big);
        lemma_express_path_keeps(t1, s.last().path);
        lemma_keeps_trans(t1, t2, big);
        lemma_add_actions_later(t, s.drop_last(), big);
        lemma_path_later(t1, s.last().path, big);
        lemma_value_or_ref_later(t2, s.last().value, big);
        assert(s.map_values(f) =~= s.drop_last().map_values(f).push(f(s.last())));
    }
}

/// `DELETE` actions are written with their names and values as
/// placeholders.
proof fn lemma_delete_actions_later(t: TablesV, s: Seq<DeleteAction>, big: TablesV)
    requires
        keeps(express_delete_actions(t, s).1, big),
    ensures
        express_delete_actions(t, s).0 == s.map_values(
            |x: DeleteAction| delete_action_as(Some(big), x),
        ),
    decreases s.len(),
{
    let f = |x: DeleteAction| delete_action_as(Some(big), x);
    if s.len() == 0 {
        assert(s.map_values(f) =~= Seq::<Seq<char>>::empty());
    } else {
        let t1 = express_delete_actions(t, s.drop_last()).1;
        let t2 = express_path(t1, s.last().path).1;
        lemma_express_value_or_ref_keeps(t2, s.last().subset);
        lemma_keeps_trans(t2, express_value_or_ref(t2, s.last().subset).1, big);
        lemma_express_path_keeps(t1, s.last().path);
        lemma_keeps_trans(t1, t2, big);
        lemma_delete_actions_later(t, s.drop_last(), big);
        lemma_path_later(t1, s.last().path, big);
        lemma_value_or_ref_later(t2, s.last().subset, big);
        assert(s.map_values(f) =~= s.drop_last().map_values(f).push(f(s.last())));
    }
}

/// An update is written with its names and values as placeholders.
proof fn lemma_update_later(t: TablesV, u: UpdateV, big: TablesV)
    requires
        keeps(express_update(t, u).1, big),
    ensures
        express_update(t, u).0 == update_as(Some(big), u),
{
    let t1 = express_set_section(t, u.set).1;
    let t2 = express_remove_section(t1, u.remove).1;
    let t3 = express_add_section(t2, u.add).1;
    let t4 = express_delete_section(t3, u.delete).1;
    match u.delete {
        Some(a) => lemma_express_delete_actions_keeps(t3, a),
        None => lemma_keeps_refl(t3),
    }
    lemma_keeps_trans(t3, t4, big);
    match u.add {
        Some(a) => lemma_express_add_actions_keeps(t2, a),
        None => lemma_keeps_refl(t2),
    }
    lemma_keeps_trans(t2, t3, big);
    match u.remove {
        Some(a) => lemma_express_paths_keeps(t1, a),
        None => lemma_keeps_refl(t1),
    }
    lemma_keeps_trans(t1, t2, big);
    if let Some(a) = u.set {
        lemma_set_actions_later(t, a, big);
    }
    if let Some(a) = u.remove {
        lemma_paths_later(t1, a, big);
    }
    if let Some(a) = u.add {
        lemma_add_actions_later(t2, a, big);
    }
    if let Some(a) = u.delete {
        lemma_delete_actions_later(t3, a, big);
    }
    let (s, _x1) = express_set_section(t, u.set);
    let (r, _x2) = express_remove_section(t1, u.remove);
    let (ad, _x3) = express_add_section(t2, u.add);
    let (d, _x4) = express_delete_section(t3, u.delete);
    assert(s + r + ad + d =~= update_sections_as(Some(big), u));
}

// The laws.

/// Expressing a condition writes the condition as `Condition::to_string`
/// renders it, with every attribute name replaced by the placeholder `#i` of
/// its position in the resulting name table and every value by the
/// placeholder `:i` of its position in the resulting value table: the same
/// function, the same operators and the same operands in the same places.
/// (`condition_as(None, ..)` is the rendering; `condition_as(Some(t), ..)`
/// is the rendering with the placeholders of `t`.)
pub proof fn lemma_express_condition_renders(t: TablesV, c: Condition)
    ensures
        express_condition(t, c).0 == condition_as(Some(express_condition(t, c).1), c),
        condition_as(None, c) == render_condition(c),
{
    lemma_keeps_refl(express_condition(t, c).1);
    lemma_condition_later(t, c, express_condition(t, c).1);
    lemma_condition_as_plain(c);
}

/// Expressing an operand writes the operand as it renders, with every
/// attribute name and value replaced by its placeholder in the resulting
/// tables; a `size(..)` operand stays `size(..)` of the expressed path.
pub proof fn lemma_express_operand_renders(t: TablesV, o: Operand)
    ensures
        express_operand(t, o).0 == operand_as(Some(express_operand(t, o).1), o),
        operand_as(None, o) == render_operand(o),
{
    lemma_keeps_refl(express_operand(t, o).1);
    lemma_operand_later(t, o, express_operand(t, o).1);
    lemma_operand_as_plain(o);
}

/// Expressing a `SET` action writes the action as it renders, with every
/// attribute name and value replaced by its placeholder in the resulting
/// tables: a math action keeps its operator.
pub proof fn lemma_express_set_action_renders(t: TablesV, a: SetAction)
    ensures
        express_set_action(t, a).0 == set_action_as(Some(express_set_action(t, a).1), a),
        set_action_as(None, a) == render_set_action(a),
{
    lemma_keeps_refl(express_set_action(t, a).1);
    lemma_set_action_later(t, a, express_set_action(t, a).1);
    lemma_set_action_as_plain(a);
}

/// Expressing an update writes the update as `Update::to_string` renders
/// it, every clause with all its actions, with every attribute name and
/// value replaced by its placeholder in the resulting tables.
pub proof fn lemma_express_update_renders(t: TablesV, u: UpdateV)
    ensures
        express_update(t, u).0 == update_as(Some(express_update(t, u).1), u),
        update_as(None, u) == render_update(u),
{
    lemma_keeps_refl(express_update(t, u).1);
    lemma_update_later(t, u, express_update(t, u).1);
    lemma_update_as_plain(u);
}

} // verus!
