//! Update expressions: `SET`, `REMOVE`, `ADD` and `DELETE` clauses.
use vstd::prelude::*;

mod add;
mod delete;
mod remove;
pub mod set;

pub use self::add::{add_operand, render_add, render_add_action, Add, AddAction, AddValue};
pub use self::delete::{render_delete, render_delete_action, Delete, DeleteAction};
pub use self::remove::{render_remove, Remove};
pub use self::set::{
    if_not_exists, list_append, math, render_set_action, render_set_actions, Append, Assign,
    source_of, BeforeOrAfter, IfNotExists, ListAppend, Math, MathOp, SetAction, SetClause,
};

use crate::path::Path;
use crate::value::{Num, Ref, ValueSet};
use crate::text::{join, lemma_join_push, write_str};

verus! {

/// An update expression: the clauses it has, each with its actions.
pub struct Update {
    pub set: Option<SetClause>,
    pub remove: Option<Remove>,
    pub add: Option<Add>,
    pub delete: Option<Delete>,
}

/// The clauses of an update: for each kind, absent or its actions in order.
pub struct UpdateV {
    pub set: Option<Seq<SetAction>>,
    pub remove: Option<Seq<Path>>,
    pub add: Option<Seq<AddAction>>,
    pub delete: Option<Seq<DeleteAction>>,
}

/// Two clauses of one kind combined: both actions, the first's first.
pub open spec fn merge_parts<T>(a: Option<Seq<T>>, b: Option<Seq<T>>) -> Option<Seq<T>> {
    match (a, b) {
        (Some(x), Some(y)) => Some(x + y),
        (Some(x), None) => Some(x),
        (None, y) => y,
    }
}

impl UpdateV {
    /// Each clause of `self` followed by the same clause of `other`.
    pub open spec fn and_spec(self, other: UpdateV) -> UpdateV {
        UpdateV {
            set: merge_parts(self.set, other.set),
            remove: merge_parts(self.remove, other.remove),
            add: merge_parts(self.add, other.add),
            delete: merge_parts(self.delete, other.delete),
        }
    }

    /// An update with only a `SET` clause.
    pub open spec fn set_only(actions: Seq<SetAction>) -> UpdateV {
        UpdateV { set: Some(actions), remove: None, add: None, delete: None }
    }

    /// An update with only a `REMOVE` clause.
    pub open spec fn remove_only(paths: Seq<Path>) -> UpdateV {
        UpdateV { set: None, remove: Some(paths), add: None, delete: None }
    }

    /// An update with only an `ADD` clause.
    pub open spec fn add_only(actions: Seq<AddAction>) -> UpdateV {
        UpdateV { set: None, remove: None, add: Some(actions), delete: None }
    }

    /// An update with only a `DELETE` clause.
    pub open spec fn delete_only(actions: Seq<DeleteAction>) -> UpdateV {
        UpdateV { set: None, remove: None, add: None, delete: Some(actions) }
    }
}

/// The actions of a `SET` clause that may be absent.
pub open spec fn set_part(s: Option<SetClause>) -> Option<Seq<SetAction>> {
    match s {
        Some(x) => Some(x.actions@),
        None => None,
    }
}

/// The paths of a `REMOVE` clause that may be absent.
pub open spec fn remove_part(s: Option<Remove>) -> Option<Seq<Path>> {
    match s {
        Some(x) => Some(x.paths@),
        None => None,
    }
}

/// The actions of an `ADD` clause that may be absent.
pub open spec fn add_part(s: Option<Add>) -> Option<Seq<AddAction>> {
    match s {
        Some(x) => Some(x.actions@),
        None => None,
    }
}

/// The actions of a `DELETE` clause that may be absent.
pub open spec fn delete_part(s: Option<Delete>) -> Option<Seq<DeleteAction>> {
    match s {
        Some(x) => Some(x.actions@),
        None => None,
    }
}

impl View for Update {
    type V = UpdateV;

    open spec fn view(&self) -> UpdateV {
        UpdateV {
            set: set_part(self.set),
            remove: remove_part(self.remove),
            add: add_part(self.add),
            delete: delete_part(self.delete),
        }
    }
}

/// The clauses of an update that are present, each as it appears in an
/// expression, in the order `SET`, `REMOVE`, `ADD`, `DELETE`.
pub open spec fn update_sections(u: UpdateV) -> Seq<Seq<char>> {
    let s = match u.set {
        Some(a) => seq![render_set_actions(a)],
        None => seq![],
    };
    let r = match u.remove {
        Some(a) => seq![render_remove(a)],
        None => seq![],
    };
    let ad = match u.add {
        Some(a) => seq![render_add(a)],
        None => seq![],
    };
    let d = match u.delete {
        Some(a) => seq![render_delete(a)],
        None => seq![],
    };
    s + r + ad + d
}

/// An update as it appears in an expression: its clauses separated by
/// spaces.
pub open spec fn render_update(u: UpdateV) -> Seq<char> {
    join(update_sections(u), seq![' '])
}

/// Combines two optional `SET` clauses: both actions, the first's first.
fn merge_set(a: Option<SetClause>, b: Option<SetClause>) -> (r: Option<SetClause>)
    ensures
        set_part(r) == merge_parts(set_part(a), set_part(b)),
{
    match (a, b) {
        (Some(mut x), Some(mut y)) => {
            x.actions.append(&mut y.actions);
            Some(x)
        },
        (Some(x), None) => Some(x),
        (None, y) => y,
    }
}

/// Combines two optional `REMOVE` clauses: both actions, the first's first.
fn merge_remove(a: Option<Remove>, b: Option<Remove>) -> (r: Option<Remove>)
    ensures
        remove_part(r) == merge_parts(remove_part(a), remove_part(b)),
{
    match (a, b) {
        (Some(mut x), Some(mut y)) => {
            x.paths.append(&mut y.paths);
            Some(x)
        },
        (Some(x), None) => Some(x),
        (None, y) => y,
    }
}

/// Combines two optional `ADD` clauses: both actions, the first's first.
fn merge_add(a: Option<Add>, b: Option<Add>) -> (r: Option<Add>)
    ensures
        add_part(r) == merge_parts(add_part(a), add_part(b)),
{
    match (a, b) {
        (Some(mut x), Some(mut y)) => {
            x.actions.append(&mut y.actions);
            Some(x)
        },
        (Some(x), None) => Some(x),
        (None, y) => y,
    }
}

/// Combines two optional `DELETE` clauses: both actions, the first's first.
fn merge_delete(a: Option<Delete>, b: Option<Delete>) -> (r: Option<Delete>)
    ensures
        delete_part(r) == merge_parts(delete_part(a), delete_part(b)),
{
    match (a, b) {
        (Some(mut x), Some(mut y)) => {
            x.actions.append(&mut y.actions);
            Some(x)
        },
        (Some(x), None) => Some(x),
        (None, y) => y,
    }
}

impl Update {
    /// An update with a `SET` clause.
    pub fn new_set(set: SetClause) -> (r: Update)
        ensures
            r@ == UpdateV::set_only(set.actions@),
    {
        Update { set: Some(set), remove: None, add: None, delete: None }
    }

    /// An update with a `REMOVE` clause.
    pub fn new_remove(remove: Remove) -> (r: Update)
        ensures
            r@ == UpdateV::remove_only(remove.paths@),
    {
        Update { set: None, remove: Some(remove), add: None, delete: None }
    }

    /// An update with an `ADD` clause.
    pub fn new_add(add: Add) -> (r: Update)
        ensures
            r@ == UpdateV::add_only(add.actions@),
    {
        Update { set: None, remove: None, add: Some(add), delete: None }
    }

    /// An update with a `DELETE` clause.
    pub fn new_delete(delete: Delete) -> (r: Update)
        ensures
            r@ == UpdateV::delete_only(delete.actions@),
    {
        Update { set: None, remove: None, add: None, delete: Some(delete) }
    }

    /// This update, then `other`: each clause gets the actions of the same
    /// clause of `other` after its own.
    pub fn and(self, other: Update) -> (r: Update)
        ensures
            r@ == self@.and_spec(other@),
    {
        let Update { set, remove, add, delete } = self;
        let Update { set: set2, remove: remove2, add: add2, delete: delete2 } = other;
        Update {
            set: merge_set(set, set2),
            remove: merge_remove(remove, remove2),
            add: merge_add(add, add2),
            delete: merge_delete(delete, delete2),
        }
    }

    /// Appends the update as it appears in an expression: the clauses that
    /// are present, in the order `SET`, `REMOVE`, `ADD`, `DELETE`, separated
    /// by spaces.
    pub fn write_to(&self, out: &mut String)
        ensures
            final(out)@ == old(out)@ + render_update(self@),
    {
        let ghost start = out@;
        let ghost mut parts: Seq<Seq<char>> = seq![];
        let mut first = true;
        match &self.set {
            Some(s) => {
                let ghost before = out@;
                s.write_to(out);
                proof {
                    lemma_join_push(parts, seq![' '], render_set_actions(s.actions@));
                    parts = parts.push(render_set_actions(s.actions@));
                }
                first = false;
            },
            None => {},
        }
        assert(out@ == start + join(parts, seq![' ']) && (first <==> parts.len() == 0));
        match &self.remove {
            Some(x) => {
                if !first {
                    out.push(' ');
                }
                x.write_to(out);
                proof {
                    lemma_join_push(parts, seq![' '], render_remove(x.paths@));
                    parts = parts.push(render_remove(x.paths@));
                }
                first = false;
            },
            None => {},
        }
        assert(out@ =~= start + join(parts, seq![' ']) && (first <==> parts.len() == 0));
        match &self.add {
            Some(x) => {
                if !first {
                    out.push(' ');
                }
                x.write_to(out);
                proof {
                    lemma_join_push(parts, seq![' '], render_add(x.actions@));
                    parts = parts.push(render_add(x.actions@));
                }
                first = false;
            },
            None => {},
        }
        assert(out@ =~= start + join(parts, seq![' ']) && (first <==> parts.len() == 0));
        match &self.delete {
            Some(x) => {
                if !first {
                    out.push(' ');
                }
                x.write_to(out);
                proof {
                    lemma_join_push(parts, seq![' '], render_delete(x.actions@));
                    parts = parts.push(render_delete(x.actions@));
                }
            },
            None => {},
        }
        assert(out@ =~= start + join(parts, seq![' ']));
        assert(parts =~= update_sections(self@));
    }

    /// The update as it appears in an expression.
    pub fn to_string(&self) -> (r: String)
        ensures
            r@ == render_update(self@),
    {
        let mut out = String::new();
        self.write_to(&mut out);
        assert(out@ =~= render_update(self@));
        out
    }
}

/// A `SET` clause and a `REMOVE` clause, either of which may be absent.
pub struct SetRemove {
    pub set: Option<SetClause>,
    pub remove: Option<Remove>,
}

impl View for SetRemove {
    type V = UpdateV;

    open spec fn view(&self) -> UpdateV {
        UpdateV { set: set_part(self.set), remove: remove_part(self.remove), add: None, delete: None }
    }
}

impl SetRemove {
    /// A `SET` clause alone.
    pub fn new_set(set: SetClause) -> (r: SetRemove)
        ensures
            r@ == UpdateV::set_only(set.actions@),
    {
        SetRemove { set: Some(set), remove: None }
    }

    /// A `REMOVE` clause alone.
    pub fn new_remove(remove: Remove) -> (r: SetRemove)
        ensures
            r@ == UpdateV::remove_only(remove.paths@),
    {
        SetRemove { set: None, remove: Some(remove) }
    }

    /// These clauses, then those of `other`.
    pub fn and(self, other: SetRemove) -> (r: SetRemove)
        ensures
            r@ == self@.and_spec(other@),
    {
        let SetRemove { set, remove } = self;
        let SetRemove { set: set2, remove: remove2 } = other;
        SetRemove { set: merge_set(set, set2), remove: merge_remove(remove, remove2) }
    }

    /// The clauses as an update.
    pub fn into_update(self) -> (r: Update)
        ensures
            r@ == self@,
    {
        Update { set: self.set, remove: self.remove, add: None, delete: None }
    }

    /// Appends the clauses as they appear in an expression: `SET`, then
    /// `REMOVE`, separated by a space.
    pub fn write_to(&self, out: &mut String)
        ensures
            final(out)@ == old(out)@ + render_update(self@),
    {
        let ghost start = out@;
        let ghost mut parts: Seq<Seq<char>> = seq![];
        let mut first = true;
        match &self.set {
            Some(s) => {
                s.write_to(out);
                proof {
                    lemma_join_push(parts, seq![' '], render_set_actions(s.actions@));
                    parts = parts.push(render_set_actions(s.actions@));
                }
                first = false;
            },
            None => {},
        }
        assert(out@ =~= start + join(parts, seq![' ']) && (first <==> parts.len() == 0));
        match &self.remove {
            Some(x) => {
                if !first {
                    out.push(' ');
                }
                x.write_to(out);
                proof {
                    lemma_join_push(parts, seq![' '], render_remove(x.paths@));
                    parts = parts.push(render_remove(x.paths@));
                }
            },
            None => {},
        }
        assert(out@ =~= start + join(parts, seq![' ']));
        assert(parts =~= update_sections(self@));
    }

    /// The clauses as they appear in an expression.
    pub fn to_string(&self) -> (r: String)
        ensures
            r@ == render_update(self@),
    {
        let mut out = String::new();
        self.write_to(&mut out);
        assert(out@ =~= render_update(self@));
        out
    }
}

impl From<SetClause> for Update {
    fn from(value: SetClause) -> (r: Update)
        ensures
            r@ == UpdateV::set_only(value.actions@),
    {
        Update::new_set(value)
    }
}

/// The contract of this conversion is on `from` itself.
impl vstd::std_specs::convert::FromSpecImpl<SetClause> for Update {
    open spec fn obeys_from_spec() -> bool {
        false
    }

    open spec fn from_spec(v: SetClause) -> Update {
        vstd::pervasive::arbitrary()
    }
}

impl From<SetAction> for Update {
    fn from(value: SetAction) -> (r: Update)
        ensures
            r@ == UpdateV::set_only(seq![value]),
    {
        Update::new_set(SetClause::new(value))
    }
}

/// The contract of this conversion is on `from` itself.
impl vstd::std_specs::convert::FromSpecImpl<SetAction> for Update {
    open spec fn obeys_from_spec() -> bool {
        false
    }

    open spec fn from_spec(v: SetAction) -> Update {
        vstd::pervasive::arbitrary()
    }
}

impl From<Assign> for Update {
    fn from(value: Assign) -> (r: Update)
        ensures
            r@ == UpdateV::set_only(seq![SetAction::Assign(value)]),
    {
        Update::new_set(SetClause::new(SetAction::Assign(value)))
    }
}

/// The contract of this conversion is on `from` itself.
impl vstd::std_specs::convert::FromSpecImpl<Assign> for Update {
    open spec fn obeys_from_spec() -> bool {
        false
    }

    open spec fn from_spec(v: Assign) -> Update {
        vstd::pervasive::arbitrary()
    }
}

impl From<Math> for Update {
    fn from(value: Math) -> (r: Update)
        ensures
            r@ == UpdateV::set_only(seq![SetAction::Math(value)]),
    {
        Update::new_set(SetClause::new(SetAction::Math(value)))
    }
}

/// The contract of this conversion is on `from` itself.
impl vstd::std_specs::convert::FromSpecImpl<Math> for Update {
    open spec fn obeys_from_spec() -> bool {
        false
    }

    open spec fn from_spec(v: Math) -> Update {
        vstd::pervasive::arbitrary()
    }
}

impl From<ListAppend> for Update {
    fn from(value: ListAppend) -> (r: Update)
        ensures
            r@ == UpdateV::set_only(seq![SetAction::ListAppend(value)]),
    {
        Update::new_set(SetClause::new(SetAction::ListAppend(value)))
    }
}

/// The contract of this conversion is on `from` itself.
impl vstd::std_specs::convert::FromSpecImpl<ListAppend> for Update {
    open spec fn obeys_from_spec() -> bool {
        false
    }

    open spec fn from_spec(v: ListAppend) -> Update {
        vstd::pervasive::arbitrary()
    }
}

impl From<IfNotExists> for Update {
    fn from(value: IfNotExists) -> (r: Update)
        ensures
            r@ == UpdateV::set_only(seq![SetAction::IfNotExists(value)]),
    {
        Update::new_set(SetClause::new(SetAction::IfNotExists(value)))
    }
}

/// The contract of this conversion is on `from` itself.
impl vstd::std_specs::convert::FromSpecImpl<IfNotExists> for Update {
    open spec fn obeys_from_spec() -> bool {
        false
    }

    open spec fn from_spec(v: IfNotExists) -> Update {
        vstd::pervasive::arbitrary()
    }
}

impl From<Remove> for Update {
    fn from(value: Remove) -> (r: Update)
        ensures
            r@ == UpdateV::remove_only(value.paths@),
    {
        Update::new_remove(value)
    }
}

/// The contract of this conversion is on `from` itself.
impl vstd::std_specs::convert::FromSpecImpl<Remove> for Update {
    open spec fn obeys_from_spec() -> bool {
        false
    }

    open spec fn from_spec(v: Remove) -> Update {
        vstd::pervasive::arbitrary()
    }
}

impl From<Add> for Update {
    fn from(value: Add) -> (r: Update)
        ensures
            r@ == UpdateV::add_only(value.actions@),
    {
        Update::new_add(value)
    }
}

/// The contract of this conversion is on `from` itself.
impl vstd::std_specs::convert::FromSpecImpl<Add> for Update {
    open spec fn obeys_from_spec() -> bool {
        false
    }

    open spec fn from_spec(v: Add) -> Update {
        vstd::pervasive::arbitrary()
    }
}

impl From<AddAction> for Update {
    fn from(value: AddAction) -> (r: Update)
        ensures
            r@ == UpdateV::add_only(seq![value]),
    {
        Update::new_add(Add::from_action(value))
    }
}

/// The contract of this conversion is on `from` itself.
impl vstd::std_specs::convert::FromSpecImpl<AddAction> for Update {
    open spec fn obeys_from_spec() -> bool {
        false
    }

    open spec fn from_spec(v: AddAction) -> Update {
        vstd::pervasive::arbitrary()
    }
}

impl From<Delete> for Update {
    fn from(value: Delete) -> (r: Update)
        ensures
            r@ == UpdateV::delete_only(value.actions@),
    {
        Update::new_delete(value)
    }
}

/// The contract of this conversion is on `from` itself.
impl vstd::std_specs::convert::FromSpecImpl<Delete> for Update {
    open spec fn obeys_from_spec() -> bool {
        false
    }

    open spec fn from_spec(v: Delete) -> Update {
        vstd::pervasive::arbitrary()
    }
}

impl From<DeleteAction> for Update {
    fn from(value: DeleteAction) -> (r: Update)
        ensures
            r@ == UpdateV::delete_only(seq![value]),
    {
        Update::new_delete(Delete::from_action(value))
    }
}

/// The contract of this conversion is on `from` itself.
impl vstd::std_specs::convert::FromSpecImpl<DeleteAction> for Update {
    open spec fn obeys_from_spec() -> bool {
        false
    }

    open spec fn from_spec(v: DeleteAction) -> Update {
        vstd::pervasive::arbitrary()
    }
}

impl From<SetRemove> for Update {
    fn from(value: SetRemove) -> (r: Update)
        ensures
            r@ == value@,
    {
        value.into_update()
    }
}

/// The contract of this conversion is on `from` itself.
impl vstd::std_specs::convert::FromSpecImpl<SetRemove> for Update {
    open spec fn obeys_from_spec() -> bool {
        false
    }

    open spec fn from_spec(v: SetRemove) -> Update {
        vstd::pervasive::arbitrary()
    }
}

impl From<SetClause> for SetRemove {
    fn from(value: SetClause) -> (r: SetRemove)
        ensures
            r@ == UpdateV::set_only(value.actions@),
    {
        SetRemove::new_set(value)
    }
}

/// The contract of this conversion is on `from` itself.
impl vstd::std_specs::convert::FromSpecImpl<SetClause> for SetRemove {
    open spec fn obeys_from_spec() -> bool {
        false
    }

    open spec fn from_spec(v: SetClause) -> SetRemove {
        vstd::pervasive::arbitrary()
    }
}

impl From<SetAction> for SetRemove {
    fn from(value: SetAction) -> (r: SetRemove)
        ensures
            r@ == UpdateV::set_only(seq![value]),
    {
        SetRemove::new_set(SetClause::new(value))
    }
}

/// The contract of this conversion is on `from` itself.
impl vstd::std_specs::convert::FromSpecImpl<SetAction> for SetRemove {
    open spec fn obeys_from_spec() -> bool {
        false
    }

    open spec fn from_spec(v: SetAction) -> SetRemove {
        vstd::pervasive::arbitrary()
    }
}

impl From<Assign> for SetRemove {
    fn from(value: Assign) -> (r: SetRemove)
        ensures
            r@ == UpdateV::set_only(seq![SetAction::Assign(value)]),
    {
        SetRemove::new_set(SetClause::new(SetAction::Assign(value)))
    }
}

/// The contract of this conversion is on `from` itself.
impl vstd::std_specs::convert::FromSpecImpl<Assign> for SetRemove {
    open spec fn obeys_from_spec() -> bool {
        false
    }

    open spec fn from_spec(v: Assign) -> SetRemove {
        vstd::pervasive::arbitrary()
    }
}

impl From<Math> for SetRemove {
    fn from(value: Math) -> (r: SetRemove)
        ensures
            r@ == UpdateV::set_only(seq![SetAction::Math(value)]),
    {
        SetRemove::new_set(SetClause::new(SetAction::Math(value)))
    }
}

/// The contract of this conversion is on `from` itself.
impl vstd::std_specs::convert::FromSpecImpl<Math> for SetRemove {
    open spec fn obeys_from_spec() -> bool {
        false
    }

    open spec fn from_spec(v: Math) -> SetRemove {
        vstd::pervasive::arbitrary()
    }
}

impl From<ListAppend> for SetRemove {
    fn from(value: ListAppend) -> (r: SetRemove)
        ensures
            r@ == UpdateV::set_only(seq![SetAction::ListAppend(value)]),
    {
        SetRemove::new_set(SetClause::new(SetAction::ListAppend(value)))
    }
}

/// The contract of this conversion is on `from` itself.
impl vstd::std_specs::convert::FromSpecImpl<ListAppend> for SetRemove {
    open spec fn obeys_from_spec() -> bool {
        false
    }

    open spec fn from_spec(v: ListAppend) -> SetRemove {
        vstd::pervasive::arbitrary()
    }
}

impl From<IfNotExists> for SetRemove {
    fn from(value: IfNotExists) -> (r: SetRemove)
        ensures
            r@ == UpdateV::set_only(seq![SetAction::IfNotExists(value)]),
    {
        SetRemove::new_set(SetClause::new(SetAction::IfNotExists(value)))
    }
}

/// The contract of this conversion is on `from` itself.
impl vstd::std_specs::convert::FromSpecImpl<IfNotExists> for SetRemove {
    open spec fn obeys_from_spec() -> bool {
        false
    }

    open spec fn from_spec(v: IfNotExists) -> SetRemove {
        vstd::pervasive::arbitrary()
    }
}

impl From<Remove> for SetRemove {
    fn from(value: Remove) -> (r: SetRemove)
        ensures
            r@ == UpdateV::remove_only(value.paths@),
    {
        SetRemove::new_remove(value)
    }
}

/// The contract of this conversion is on `from` itself.
impl vstd::std_specs::convert::FromSpecImpl<Remove> for SetRemove {
    open spec fn obeys_from_spec() -> bool {
        false
    }

    open spec fn from_spec(v: Remove) -> SetRemove {
        vstd::pervasive::arbitrary()
    }
}

impl From<Assign> for SetAction {
    fn from(value: Assign) -> (r: SetAction) {
        SetAction::Assign(value)
    }
}

impl vstd::std_specs::convert::FromSpecImpl<Assign> for SetAction {
    open spec fn obeys_from_spec() -> bool {
        true
    }

    open spec fn from_spec(v: Assign) -> SetAction {
        SetAction::Assign(v)
    }
}

impl From<Math> for SetAction {
    fn from(value: Math) -> (r: SetAction) {
        SetAction::Math(value)
    }
}

impl vstd::std_specs::convert::FromSpecImpl<Math> for SetAction {
    open spec fn obeys_from_spec() -> bool {
        true
    }

    open spec fn from_spec(v: Math) -> SetAction {
        SetAction::Math(v)
    }
}

impl From<ListAppend> for SetAction {
    fn from(value: ListAppend) -> (r: SetAction) {
        SetAction::ListAppend(value)
    }
}

impl vstd::std_specs::convert::FromSpecImpl<ListAppend> for SetAction {
    open spec fn obeys_from_spec() -> bool {
        true
    }

    open spec fn from_spec(v: ListAppend) -> SetAction {
        SetAction::ListAppend(v)
    }
}

impl From<IfNotExists> for SetAction {
    fn from(value: IfNotExists) -> (r: SetAction) {
        SetAction::IfNotExists(value)
    }
}

impl vstd::std_specs::convert::FromSpecImpl<IfNotExists> for SetAction {
    open spec fn obeys_from_spec() -> bool {
        true
    }

    open spec fn from_spec(v: IfNotExists) -> SetAction {
        SetAction::IfNotExists(v)
    }
}

impl From<ValueSet> for AddValue {
    fn from(value: ValueSet) -> (r: AddValue) {
        AddValue::ValueSet(value)
    }
}

impl vstd::std_specs::convert::FromSpecImpl<ValueSet> for AddValue {
    open spec fn obeys_from_spec() -> bool {
        true
    }

    open spec fn from_spec(v: ValueSet) -> AddValue {
        AddValue::ValueSet(v)
    }
}

impl From<Num> for AddValue {
    fn from(value: Num) -> (r: AddValue) {
        AddValue::Num(value)
    }
}

impl vstd::std_specs::convert::FromSpecImpl<Num> for AddValue {
    open spec fn obeys_from_spec() -> bool {
        true
    }

    open spec fn from_spec(v: Num) -> AddValue {
        AddValue::Num(v)
    }
}

impl From<Ref> for AddValue {
    fn from(value: Ref) -> (r: AddValue) {
        AddValue::Ref(value)
    }
}

impl vstd::std_specs::convert::FromSpecImpl<Ref> for AddValue {
    open spec fn obeys_from_spec() -> bool {
        true
    }

    open spec fn from_spec(v: Ref) -> AddValue {
        AddValue::Ref(v)
    }
}

/// Combining updates is associative: `(a and b) and c` has the same clauses,
/// with the same actions in the same order, as `a and (b and c)`.
pub proof fn lemma_and_associative(a: UpdateV, b: UpdateV, c: UpdateV)
    ensures
        a.and_spec(b).and_spec(c) == a.and_spec(b.and_spec(c)),
{
    assert(merge_parts(merge_parts(a.set, b.set), c.set) == merge_parts(
        a.set,
        merge_parts(b.set, c.set),
    )) by {
        if a.set is Some && b.set is Some && c.set is Some {
            assert(a.set->0 + b.set->0 + c.set->0 =~= a.set->0 + (b.set->0 + c.set->0));
        }
    }
    assert(merge_parts(merge_parts(a.remove, b.remove), c.remove) == merge_parts(
        a.remove,
        merge_parts(b.remove, c.remove),
    )) by {
        if a.remove is Some && b.remove is Some && c.remove is Some {
            assert(a.remove->0 + b.remove->0 + c.remove->0 =~= a.remove->0 + (b.remove->0
                + c.remove->0));
        }
    }
    assert(merge_parts(merge_parts(a.add, b.add), c.add) == merge_parts(
        a.add,
        merge_parts(b.add, c.add),
    )) by {
        if a.add is Some && b.add is Some && c.add is Some {
            assert(a.add->0 + b.add->0 + c.add->0 =~= a.add->0 + (b.add->0 + c.add->0));
        }
    }
    assert(merge_parts(merge_parts(a.delete, b.delete), c.delete) == merge_parts(
        a.delete,
        merge_parts(b.delete, c.delete),
    )) by {
        if a.delete is Some && b.delete is Some && c.delete is Some {
            assert(a.delete->0 + b.delete->0 + c.delete->0 =~= a.delete->0 + (b.delete->0
                + c.delete->0));
        }
    }
}

/// Combining with an update that has no clauses changes nothing, on either
/// side.
pub proof fn lemma_and_identity(a: UpdateV)
    ensures
        a.and_spec(UpdateV { set: None, remove: None, add: None, delete: None }) == a,
        (UpdateV { set: None, remove: None, add: None, delete: None }).and_spec(a) == a,
{
}

/// Updates whose clauses are of different kinds combine the same in either
/// order: the clauses always appear as `SET`, `REMOVE`, `ADD`, `DELETE`, so
/// `remove and set` is written like `set and remove`.
pub proof fn lemma_and_commutes_across_kinds(a: UpdateV, b: UpdateV)
    requires
        !(a.set is Some && b.set is Some),
        !(a.remove is Some && b.remove is Some),
        !(a.add is Some && b.add is Some),
        !(a.delete is Some && b.delete is Some),
    ensures
        a.and_spec(b) == b.and_spec(a),
        render_update(a.and_spec(b)) == render_update(b.and_spec(a)),
{
}

} // verus!
