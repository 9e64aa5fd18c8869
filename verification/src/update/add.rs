//! The `ADD` clause of an update expression.
use vstd::prelude::*;

use crate::path::Path;
use crate::text::{join, lemma_join_push, write_str};
use crate::update::{Update, UpdateV};
use crate::value::{render_value_or_ref, Num, Ref, Scalar, Value, ValueOrRef, ValueSet};

verus! {

/// What an `ADD` action adds: members of a set, a number, or a referenced
/// value.
pub enum AddValue {
    ValueSet(ValueSet),
    Num(Num),
    Ref(Ref),
}

/// One action of an `ADD` clause: `path value`.
pub struct AddAction {
    pub path: Path,
    pub value: ValueOrRef,
}

/// The `ADD` clause: its actions, in order.
pub struct Add {
    pub actions: Vec<AddAction>,
}

/// What an [`AddValue`] becomes in an action.
pub open spec fn add_operand(value: AddValue) -> ValueOrRef {
    match value {
        AddValue::ValueSet(s) => ValueOrRef::Value(Value::ValueSet(s)),
        AddValue::Num(n) => ValueOrRef::Value(Value::Scalar(Scalar::Num(n))),
        AddValue::Ref(r) => ValueOrRef::Ref(r),
    }
}

/// An `ADD` action as it appears in an expression.
pub open spec fn render_add_action(a: AddAction) -> Seq<char> {
    a.path.render() + " "@ + render_value_or_ref(a.value)
}

/// An `ADD` clause with these actions, as it appears in an expression.
pub open spec fn render_add(actions: Seq<AddAction>) -> Seq<char> {
    "ADD "@ + join(actions.map_values(|a: AddAction| render_add_action(a)), seq![',', ' '])
}

impl AddAction {
    /// Adds `value` to the attribute at `path`.
    pub fn new(path: Path, value: AddValue) -> (r: AddAction)
        ensures
            r == (AddAction { path, value: add_operand(value) }),
    {
        let value = match value {
            AddValue::ValueSet(s) => ValueOrRef::Value(Value::ValueSet(s)),
            AddValue::Num(n) => ValueOrRef::Value(Value::Scalar(Scalar::Num(n))),
            AddValue::Ref(r) => ValueOrRef::Ref(r),
        };
        AddAction { path, value }
    }

    /// This action, then the actions of `other`.
    pub fn and(self, other: Update) -> (r: Update)
        ensures
            r@ == UpdateV::add_only(seq![self]).and_spec(other@),
    {
        Update::new_add(Add::from_action(self)).and(other)
    }

    /// Appends the action as it appears in an expression.
    pub fn write_to(&self, out: &mut String)
        ensures
            final(out)@ == old(out)@ + render_add_action(*self),
    {
        self.path.write_to(out);
        write_str(out, " ");
        self.value.write_to(out);
        assert(final(out)@ =~= old(out)@ + render_add_action(*self));
    }

    /// The action as it appears in an expression.
    pub fn to_string(&self) -> (r: String)
        ensures
            r@ == render_add_action(*self),
    {
        let mut out = String::new();
        self.write_to(&mut out);
        out
    }
}

impl Add {
    /// An `ADD` clause that adds `value` to the attribute at `path`.
    pub fn new(path: Path, value: AddValue) -> (r: Add)
        ensures
            r.actions@ == seq![AddAction { path, value: add_operand(value) }],
    {
        Add::from_action(AddAction::new(path, value))
    }

    /// An `ADD` clause of one action.
    pub fn from_action(action: AddAction) -> (r: Add)
        ensures
            r.actions@ == seq![action],
    {
        let mut actions = Vec::new();
        actions.push(action);
        Add { actions }
    }

    /// This clause, then the actions of `other`.
    pub fn and(self, other: Update) -> (r: Update)
        ensures
            r@ == UpdateV::add_only(self.actions@).and_spec(other@),
    {
        Update::new_add(self).and(other)
    }

    /// Appends the clause as it appears in an expression: `ADD`, then the
    /// actions separated by `, `.
    pub fn write_to(&self, out: &mut String)
        ensures
            final(out)@ == old(out)@ + render_add(self.actions@),
    {
        write_str(out, "ADD ");
        let ghost start = out@;
        let ghost parts = self.actions@.map_values(|a: AddAction| render_add_action(a));
        let mut i: usize = 0;
        while i < self.actions.len()
            invariant
                i <= self.actions@.len(),
                parts == self.actions@.map_values(|a: AddAction| render_add_action(a)),
                out@ == start + join(parts.take(i as int), seq![',', ' ']),
            decreases self.actions@.len() - i,
        {
            if i > 0 {
                out.push(',');
                out.push(' ');
            }
            self.actions[i].write_to(out);
            proof {
                lemma_join_push(parts.take(i as int), seq![',', ' '], parts[i as int]);
                assert(parts.take(i + 1) =~= parts.take(i as int).push(parts[i as int]));
            }
            i = i + 1;
            assert(out@ =~= start + join(parts.take(i as int), seq![',', ' ']));
        }
        assert(parts.take(i as int) =~= parts);
        assert(final(out)@ =~= old(out)@ + render_add(self.actions@));
    }

    /// The clause as it appears in an expression.
    pub fn to_string(&self) -> (r: String)
        ensures
            r@ == render_add(self.actions@),
    {
        let mut out = String::new();
        self.write_to(&mut out);
        assert(out@ =~= render_add(self.actions@));
        out
    }
}


/// A `ADD` clause of one action is `ADD`, a space, and that action.
pub proof fn lemma_render_add_one(a: AddAction)
    ensures
        render_add(seq![a]) == "ADD "@ + render_add_action(a),
{
    assert(seq![a].map_values(|x: AddAction| render_add_action(x)) =~= seq![render_add_action(a)]);
}

/// The `ADD` clause of two runs of actions, one after the other, writes
/// every action of both in order: the first run's clause, `, `, then the
/// second run's actions (its clause without the leading `ADD`).
pub proof fn lemma_render_add_concat(a: Seq<AddAction>, b: Seq<AddAction>)
    requires
        a.len() > 0,
        b.len() > 0,
    ensures
        render_add(a + b) == render_add(a) + seq![',', ' '] + render_add(b).skip(4),
{
    let f = |x: AddAction| render_add_action(x);
    assert((a + b).map_values(f) =~= a.map_values(f) + b.map_values(f));
    crate::text::lemma_join_concat(a.map_values(f), b.map_values(f), seq![',', ' ']);
    reveal_strlit("ADD ");
    assert(render_add(b).skip(4) =~= join(b.map_values(f), seq![',', ' ']));
    assert(render_add(a + b) =~= render_add(a) + seq![',', ' '] + render_add(b).skip(4));
}

} // verus!
