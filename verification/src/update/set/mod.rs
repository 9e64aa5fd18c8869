//! The `SET` clause of an update expression and its actions.
use vstd::prelude::*;

pub mod append;
mod assign;
pub mod if_not_exists;
pub mod list_append;
pub mod math;

pub use self::append::{Append, BeforeOrAfter};
pub use self::assign::{render_assign, Assign};
pub use self::if_not_exists::{render_if_not_exists, IfNotExists};
pub use self::list_append::{render_list_append, ListAppend};
pub use self::math::{render_math, source_of, Math, MathOp};

use crate::text::{join, lemma_join_push, write_str};
use crate::update::{Update, UpdateV};

verus! {

/// One action of a `SET` clause.
pub enum SetAction {
    Assign(Assign),
    Math(Math),
    ListAppend(ListAppend),
    IfNotExists(IfNotExists),
}

/// The `SET` clause of an update expression: its actions, in order.
pub struct SetClause {
    pub actions: Vec<SetAction>,
}

/// An action as it appears in an expression.
pub open spec fn render_set_action(a: SetAction) -> Seq<char> {
    match a {
        SetAction::Assign(x) => render_assign(x),
        SetAction::Math(x) => render_math(x),
        SetAction::ListAppend(x) => render_list_append(x),
        SetAction::IfNotExists(x) => render_if_not_exists(x),
    }
}

/// A `SET` clause with these actions, as it appears in an expression.
pub open spec fn render_set_actions(actions: Seq<SetAction>) -> Seq<char> {
    "SET "@ + join(actions.map_values(|a: SetAction| render_set_action(a)), seq![',', ' '])
}

impl SetAction {
    /// This action, then the actions of `other`.
    pub fn and(self, other: Update) -> (r: Update)
        ensures
            r@ == UpdateV::set_only(seq![self]).and_spec(other@),
    {
        Update::from(self).and(other)
    }

    /// Appends the action as it appears in an expression.
    pub fn write_to(&self, out: &mut String)
        ensures
            final(out)@ == old(out)@ + render_set_action(*self),
    {
        match self {
            SetAction::Assign(x) => x.write_to(out),
            SetAction::Math(x) => x.write_to(out),
            SetAction::ListAppend(x) => x.write_to(out),
            SetAction::IfNotExists(x) => x.write_to(out),
        }
    }

    /// The action as it appears in an expression.
    pub fn to_string(&self) -> (r: String)
        ensures
            r@ == render_set_action(*self),
    {
        let mut out = String::new();
        self.write_to(&mut out);
        assert(out@ =~= render_set_action(*self));
        out
    }
}

impl SetClause {
    /// A `SET` clause with one action.
    pub fn new(action: SetAction) -> (r: SetClause)
        ensures
            r.actions@ == seq![action],
    {
        let mut actions = Vec::new();
        actions.push(action);
        SetClause { actions }
    }

    /// A `SET` clause with these actions, in order.
    pub fn from_actions(actions: Vec<SetAction>) -> (r: SetClause)
        ensures
            r.actions == actions,
    {
        SetClause { actions }
    }

    /// This clause, then the actions of `other`.
    pub fn and(self, other: Update) -> (r: Update)
        ensures
            r@ == UpdateV::set_only(self.actions@).and_spec(other@),
    {
        Update::new_set(self).and(other)
    }

    /// Appends the clause as it appears in an expression: `SET`, then the
    /// actions separated by `, `.
    pub fn write_to(&self, out: &mut String)
        ensures
            final(out)@ == old(out)@ + render_set_actions(self.actions@),
    {
        write_str(out, "SET ");
        let ghost start = out@;
        let ghost parts = self.actions@.map_values(|a: SetAction| render_set_action(a));
        let mut i: usize = 0;
        while i < self.actions.len()
            invariant
                i <= self.actions@.len(),
                parts == self.actions@.map_values(|a: SetAction| render_set_action(a)),
                out@ == start + join(parts.take(i as int), seq![',', ' ']),
            decreases self.actions@.len() - i,
        {
            if i > 0 {
                out.push(',');
                out.push(' ');
            }
            self.actions[i].write_to(out);
            proof {
                lemma_join_push(parts.take(i as int), seq![',', ' '], parts[i as int]);
                assert(parts.take(i + 1) =~= parts.take(i as int).push(parts[i as int]));
            }
            i = i + 1;
            assert(out@ =~= start + join(parts.take(i as int), seq![',', ' ']));
        }
        assert(parts.take(i as int) =~= parts);
        assert(final(out)@ =~= old(out)@ + render_set_actions(self.actions@));
    }

    /// The clause as it appears in an expression.
    pub fn to_string(&self) -> (r: String)
        ensures
            r@ == render_set_actions(self.actions@),
    {
        let mut out = String::new();
        self.write_to(&mut out);
        assert(out@ =~= render_set_actions(self.actions@));
        out
    }
}


/// A `SET` clause of one action is `SET`, a space, and that action.
pub proof fn lemma_render_set_actions_one(a: SetAction)
    ensures
        render_set_actions(seq![a]) == "SET "@ + render_set_action(a),
{
    assert(seq![a].map_values(|x: SetAction| render_set_action(x)) =~= seq![render_set_action(a)]);
}

/// The `SET` clause of two runs of actions, one after the other, writes
/// every action of both in order: the first run's clause, `, `, then the
/// second run's actions (its clause without the leading `SET`).
pub proof fn lemma_render_set_actions_concat(a: Seq<SetAction>, b: Seq<SetAction>)
    requires
        a.len() > 0,
        b.len() > 0,
    ensures
        render_set_actions(a + b) == render_set_actions(a) + seq![',', ' '] + render_set_actions(b).skip(4),
{
    let f = |x: SetAction| render_set_action(x);
    assert((a + b).map_values(f) =~= a.map_values(f) + b.map_values(f));
    crate::text::lemma_join_concat(a.map_values(f), b.map_values(f), seq![',', ' ']);
    reveal_strlit("SET ");
    assert(render_set_actions(b).skip(4) =~= join(b.map_values(f), seq![',', ' ']));
    assert(render_set_actions(a + b) =~= render_set_actions(a) + seq![',', ' '] + render_set_actions(b).skip(4));
}

} // verus!
