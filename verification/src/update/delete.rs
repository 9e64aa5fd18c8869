//! The `DELETE` clause of an update expression.
use vstd::prelude::*;

use crate::path::Path;
use crate::text::{join, lemma_join_push, write_str};
use crate::update::{Update, UpdateV};
use crate::value::{render_value_or_ref, Value, ValueOrRef, ValueSet};

verus! {

/// One action of a `DELETE` clause: `path subset`, removing the members of
/// the subset from the set at the path.
pub struct DeleteAction {
    pub path: Path,
    pub subset: ValueOrRef,
}

/// The `DELETE` clause: its actions, in order.
pub struct Delete {
    pub actions: Vec<DeleteAction>,
}

/// A `DELETE` action as it appears in an expression.
pub open spec fn render_delete_action(a: DeleteAction) -> Seq<char> {
    a.path.render() + " "@ + render_value_or_ref(a.subset)
}

/// A `DELETE` clause with these actions, as it appears in an expression.
pub open spec fn render_delete(actions: Seq<DeleteAction>) -> Seq<char> {
    "DELETE "@ + join(actions.map_values(|a: DeleteAction| render_delete_action(a)), seq![',', ' '])
}

impl DeleteAction {
    /// Deletes the members of `subset` from the set at `path`.
    pub fn new(path: Path, subset: ValueSet) -> (r: DeleteAction)
        ensures
            r == (DeleteAction { path, subset: ValueOrRef::Value(Value::ValueSet(subset)) }),
    {
        DeleteAction { path, subset: ValueOrRef::Value(Value::ValueSet(subset)) }
    }

    /// This action, then the actions of `other`.
    pub fn and(self, other: Update) -> (r: Update)
        ensures
            r@ == UpdateV::delete_only(seq![self]).and_spec(other@),
    {
        Update::new_delete(Delete::from_action(self)).and(other)
    }

    /// Appends the action as it appears in an expression.
    pub fn write_to(&self, out: &mut String)
        ensures
            final(out)@ == old(out)@ + render_delete_action(*self),
    {
        self.path.write_to(out);
        write_str(out, " ");
        self.subset.write_to(out);
        assert(final(out)@ =~= old(out)@ + render_delete_action(*self));
    }

    /// The action as it appears in an expression.
    pub fn to_string(&self) -> (r: String)
        ensures
            r@ == render_delete_action(*self),
    {
        let mut out = String::new();
        self.write_to(&mut out);
        out
    }
}

impl Delete {
    /// A `DELETE` clause that deletes the members of `subset` from the set at
    /// `path`.
    pub fn new(path: Path, subset: ValueSet) -> (r: Delete)
        ensures
            r.actions@ == seq![
                DeleteAction { path, subset: ValueOrRef::Value(Value::ValueSet(subset)) },
            ],
    {
        Delete::from_action(DeleteAction::new(path, subset))
    }

    /// A `DELETE` clause of one action.
    pub fn from_action(action: DeleteAction) -> (r: Delete)
        ensures
            r.actions@ == seq![action],
    {
        let mut actions = Vec::new();
        actions.push(action);
        Delete { actions }
    }

    /// This clause, then the actions of `other`.
    pub fn and(self, other: Update) -> (r: Update)
        ensures
            r@ == UpdateV::delete_only(self.actions@).and_spec(other@),
    {
        Update::new_delete(self).and(other)
    }

    /// Appends the clause as it appears in an expression: `DELETE`, then the
    /// actions separated by `, `.
    pub fn write_to(&self, out: &mut String)
        ensures
            final(out)@ == old(out)@ + render_delete(self.actions@),
    {
        write_str(out, "DELETE ");
        let ghost start = out@;
        let ghost parts = self.actions@.map_values(|a: DeleteAction| render_delete_action(a));
        let mut i: usize = 0;
        while i < self.actions.len()
            invariant
                i <= self.actions@.len(),
                parts == self.actions@.map_values(|a: DeleteAction| render_delete_action(a)),
                out@ == start + join(parts.take(i as int), seq![',', ' ']),
            decreases self.actions@.len() - i,
        {
            if i > 0 {
                out.push(',');
                out.push(' ');
            }
            self.actions[i].write_to(out);
            proof {
                lemma_join_push(parts.take(i as int), seq![',', ' '], parts[i as int]);
                assert(parts.take(i + 1) =~= parts.take(i as int).push(parts[i as int]));
            }
            i = i + 1;
            assert(out@ =~= start + join(parts.take(i as int), seq![',', ' ']));
        }
        assert(parts.take(i as int) =~= parts);
        assert(final(out)@ =~= old(out)@ + render_delete(self.actions@));
    }

    /// The clause as it appears in an expression.
    pub fn to_string(&self) -> (r: String)
        ensures
            r@ == render_delete(self.actions@),
    {
        let mut out = String::new();
        self.write_to(&mut out);
        assert(out@ =~= render_delete(self.actions@));
        out
    }
}


/// A `DELETE` clause of one action is `DELETE`, a space, and that action.
pub proof fn lemma_render_delete_one(a: DeleteAction)
    ensures
        render_delete(seq![a]) == "DELETE "@ + render_delete_action(a),
{
    assert(seq![a].map_values(|x: DeleteAction| render_delete_action(x)) =~= seq![render_delete_action(a)]);
}

/// The `DELETE` clause of two runs of actions, one after the other, writes
/// every action of both in order: the first run's clause, `, `, then the
/// second run's actions (its clause without the leading `DELETE`).
pub proof fn lemma_render_delete_concat(a: Seq<DeleteAction>, b: Seq<DeleteAction>)
    requires
        a.len() > 0,
        b.len() > 0,
    ensures
        render_delete(a + b) == render_delete(a) + seq![',', ' '] + render_delete(b).skip(7),
{
    let f = |x: DeleteAction| render_delete_action(x);
    assert((a + b).map_values(f) =~= a.map_values(f) + b.map_values(f));
    crate::text::lemma_join_concat(a.map_values(f), b.map_values(f), seq![',', ' ']);
    reveal_strlit("DELETE ");
    assert(render_delete(b).skip(7) =~= join(b.map_values(f), seq![',', ' ']));
    assert(render_delete(a + b) =~= render_delete(a) + seq![',', ' '] + render_delete(b).skip(7));
}

} // verus!
