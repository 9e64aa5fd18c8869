//! Key conditions, for the key condition expression of a query.
use vstd::prelude::*;

use crate::condition::{
    render_condition, Between, BeginsWith, Comparator, Comparison, Condition,
};
use crate::operand::{Operand, OperandType};
use crate::path::Path;
use crate::value::{value_or_ref_of, StringOrRef, ValueOrRef};

verus! {

/// The key attribute that a key condition is about.
pub struct Key {
    pub path: Path,
}

/// A condition on the key attributes of a query.
pub struct KeyCondition {
    pub condition: Condition,
}

/// The comparison `path cmp right` as a key condition.
pub open spec fn key_comparison(path: Path, cmp: Comparator, right: Operand) -> KeyCondition {
    KeyCondition {
        condition: Condition::Comparison(
            Comparison { left: Operand { op: OperandType::Path(path) }, cmp, right },
        ),
    }
}

impl Key {
    /// The key attribute at `path`.
    pub fn new(path: Path) -> (r: Key)
        ensures
            r == (Key { path }),
    {
        Key { path }
    }

    /// `begins_with(path, prefix)`.
    pub fn begins_with(self, prefix: StringOrRef) -> (r: KeyCondition)
        ensures
            r == (KeyCondition {
                condition: Condition::BeginsWith(
                    BeginsWith { path: self.path, substr: value_or_ref_of(prefix) },
                ),
            }),
    {
        KeyCondition {
            condition: Condition::BeginsWith(
                BeginsWith { path: self.path, substr: ValueOrRef::from_string_or_ref(prefix) },
            ),
        }
    }

    /// `path BETWEEN lower AND upper`.
    pub fn between(self, lower: Operand, upper: Operand) -> (r: KeyCondition)
        ensures
            r == (KeyCondition {
                condition: Condition::Between(
                    Between { op: Operand { op: OperandType::Path(self.path) }, lower, upper },
                ),
            }),
    {
        KeyCondition {
            condition: Condition::Between(
                Between { op: Operand::new_path(self.path), lower, upper },
            ),
        }
    }

    /// `path = right`.
    pub fn equal(self, right: Operand) -> (r: KeyCondition)
        ensures
            r == key_comparison(self.path, Comparator::Eq, right),
    {
        KeyCondition { condition: Operand::new_path(self.path).equal(right) }
    }

    /// `path > right`.
    pub fn greater_than(self, right: Operand) -> (r: KeyCondition)
        ensures
            r == key_comparison(self.path, Comparator::Gt, right),
    {
        KeyCondition { condition: Operand::new_path(self.path).greater_than(right) }
    }

    /// `path >= right`.
    pub fn greater_than_or_equal(self, right: Operand) -> (r: KeyCondition)
        ensures
            r == key_comparison(self.path, Comparator::Ge, right),
    {
        KeyCondition { condition: Operand::new_path(self.path).greater_than_or_equal(right) }
    }

    /// `path < right`.
    pub fn less_than(self, right: Operand) -> (r: KeyCondition)
        ensures
            r == key_comparison(self.path, Comparator::Lt, right),
    {
        KeyCondition { condition: Operand::new_path(self.path).less_than(right) }
    }

    /// `path <= right`.
    pub fn less_than_or_equal(self, right: Operand) -> (r: KeyCondition)
        ensures
            r == key_comparison(self.path, Comparator::Le, right),
    {
        KeyCondition { condition: Operand::new_path(self.path).less_than_or_equal(right) }
    }
}

impl From<Path> for Key {
    fn from(path: Path) -> (r: Key) {
        Key { path }
    }
}

impl vstd::std_specs::convert::FromSpecImpl<Path> for Key {
    open spec fn obeys_from_spec() -> bool {
        true
    }

    open spec fn from_spec(v: Path) -> Key {
        Key { path: v }
    }
}

impl KeyCondition {
    /// Both key conditions: `self AND right`.
    pub fn and(self, right: KeyCondition) -> (r: KeyCondition)
        ensures
            r == (KeyCondition { condition: self.condition.and_spec(right.condition) }),
    {
        KeyCondition { condition: self.condition.and(right.condition) }
    }

    /// Appends the key condition as it appears in an expression.
    pub fn write_to(&self, out: &mut String)
        ensures
            final(out)@ == old(out)@ + render_condition(self.condition),
    {
        self.condition.write_to(out);
    }

    /// The key condition as it appears in an expression.
    pub fn to_string(&self) -> (r: String)
        ensures
            r@ == render_condition(self.condition),
    {
        self.condition.to_string()
    }
}

} // verus!
