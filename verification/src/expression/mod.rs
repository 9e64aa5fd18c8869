//! Building DynamoDB expressions, with expression attribute names and values
//! collected along the way.
use vstd::prelude::*;

pub mod express;
pub mod substitute;

pub use self::express::{
    express_condition, express_names, express_update, name_placeholder, value_placeholder,
    Tables, TablesV,
};

use self::express::{express_condition_into, express_names_into, express_update_into};
use crate::condition::Condition;
use crate::key::KeyCondition;
use crate::path::Name;
use crate::text::{decimal, write_usize};
use crate::update::Update;
use crate::value::{Value, ValueV};

verus! {

/// A built DynamoDB expression: the expressions that were given, with names
/// and values replaced by placeholders, and what the placeholders stand
/// for.
pub struct Expression {
    pub condition_expression: Option<String>,
    pub key_condition_expression: Option<String>,
    pub update_expression: Option<String>,
    pub filter_expression: Option<String>,
    pub projection_expression: Option<String>,
    pub expression_attribute_names: Option<Vec<(String, String)>>,
    pub expression_attribute_values: Option<Vec<(String, Value)>>,
}

/// Collects the parts of an expression; [`Builder::build`] makes the
/// [`Expression`].
pub struct Builder {
    condition: Option<String>,
    key_condition: Option<String>,
    update: Option<String>,
    filter: Option<String>,
    projection: Option<String>,
    tables: Tables,
}

/// What a builder holds: each expression given so far, as it will appear,
/// and the names and values collected.
pub struct BuilderV {
    pub condition: Option<Seq<char>>,
    pub key_condition: Option<Seq<char>>,
    pub update: Option<Seq<char>>,
    pub filter: Option<Seq<char>>,
    pub projection: Option<Seq<char>>,
    pub tables: TablesV,
}

/// The text of a string that may be absent.
pub open spec fn opt_text(s: Option<String>) -> Option<Seq<char>> {
    match s {
        Some(x) => Some(x@),
        None => None,
    }
}

impl View for Builder {
    type V = BuilderV;

    closed spec fn view(&self) -> BuilderV {
        BuilderV {
            condition: opt_text(self.condition),
            key_condition: opt_text(self.key_condition),
            update: opt_text(self.update),
            filter: opt_text(self.filter),
            projection: opt_text(self.projection),
            tables: self.tables@,
        }
    }
}

/// The expression attribute names of a table: `#i` for the name at
/// position `i`, each with its name.
pub open spec fn names_match(v: Seq<(String, String)>, names: Seq<Seq<char>>) -> bool {
    &&& v.len() == names.len()
    &&& forall|i: int|
        0 <= i < v.len() ==> (#[trigger] v[i]).0@ == name_placeholder(i) && v[i].1@ == names[i]
}

/// The expression attribute values of a table: `:i` for the value at
/// position `i`, each with its value.
pub open spec fn values_match(v: Seq<(String, Value)>, values: Seq<ValueV>) -> bool {
    &&& v.len() == values.len()
    &&& forall|i: int|
        0 <= i < v.len() ==> (#[trigger] v[i]).0@ == value_placeholder(i) && v[i].1@ == values[i]
}

impl Expression {
    /// A builder with no expressions, names or values yet.
    pub fn builder() -> (r: Builder)
        ensures
            r@ == (BuilderV {
                condition: None,
                key_condition: None,
                update: None,
                filter: None,
                projection: None,
                tables: TablesV { names: seq![], values: seq![] },
            }),
    {
        Builder {
            condition: None,
            key_condition: None,
            update: None,
            filter: None,
            projection: None,
            tables: Tables::new(),
        }
    }
}

impl Builder {
    /// Sets the condition expression (replacing an earlier one); its names
    /// and values are collected.
    pub fn with_condition(self, condition: Condition) -> (r: Builder)
        ensures
            r@ == (BuilderV {
                condition: Some(express_condition(self@.tables, condition).0),
                tables: express_condition(self@.tables, condition).1,
                ..self@
            }),
    {
        let mut b = self;
        let mut text = String::new();
        express_condition_into(&mut b.tables, &condition, &mut text);
        b.condition = Some(text);
        b
    }

    /// Sets the key condition expression (replacing an earlier one); its
    /// names and values are collected.
    pub fn with_key_condition(self, key_condition: KeyCondition) -> (r: Builder)
        ensures
            r@ == (BuilderV {
                key_condition: Some(express_condition(self@.tables, key_condition.condition).0),
                tables: express_condition(self@.tables, key_condition.condition).1,
                ..self@
            }),
    {
        let mut b = self;
        let mut text = String::new();
        express_condition_into(&mut b.tables, &key_condition.condition, &mut text);
        b.key_condition = Some(text);
        b
    }

    /// Sets the update expression (replacing an earlier one); its names and
    /// values are collected.
    pub fn with_update(self, update: Update) -> (r: Builder)
        ensures
            r@ == (BuilderV {
                update: Some(express_update(self@.tables, update@).0),
                tables: express_update(self@.tables, update@).1,
                ..self@
            }),
    {
        let mut b = self;
        let mut text = String::new();
        express_update_into(&mut b.tables, &update, &mut text);
        b.update = Some(text);
        b
    }

    /// Sets the filter expression (replacing an earlier one); its names and
    /// values are collected.
    pub fn with_filter(self, filter: Condition) -> (r: Builder)
        ensures
            r@ == (BuilderV {
                filter: Some(express_condition(self@.tables, filter).0),
                tables: express_condition(self@.tables, filter).1,
                ..self@
            }),
    {
        let mut b = self;
        let mut text = String::new();
        express_condition_into(&mut b.tables, &filter, &mut text);
        b.filter = Some(text);
        b
    }

    /// Sets the projection expression (replacing an earlier one): the names
    /// are collected and their placeholders joined by `, `. With no names
    /// there is no projection expression, as DynamoDB does not accept an
    /// empty one.
    pub fn with_projection(self, names: Vec<Name>) -> (r: Builder)
        ensures
            ({
                let (parts, t) = express_names(self@.tables, names@.map_values(|n: Name| n@));
                r@ == (BuilderV {
                    projection: if names@.len() == 0 {
                        None
                    } else {
                        Some(crate::text::join(parts, seq![',', ' ']))
                    },
                    tables: t,
                    ..self@
                })
            }),
    {
        let mut b = self;
        let mut text = String::new();
        express_names_into(&mut b.tables, &names, &mut text);
        if names.len() == 0 {
            b.projection = None;
        } else {
            b.projection = Some(text);
        }
        b
    }

    /// The expression: each part that was given, the names collected (`#i`
    /// for the name at position `i`), and the values collected (`:i` for the
    /// value at position `i`); no names or no values give `None`.
    pub fn build(self) -> (r: Expression)
        ensures
            opt_text(r.condition_expression) == self@.condition,
            opt_text(r.key_condition_expression) == self@.key_condition,
            opt_text(r.update_expression) == self@.update,
            opt_text(r.filter_expression) == self@.filter,
            opt_text(r.projection_expression) == self@.projection,
            match r.expression_attribute_names {
                None => self@.tables.names.len() == 0,
                Some(v) => self@.tables.names.len() > 0 && names_match(v@, self@.tables.names),
            },
            match r.expression_attribute_values {
                None => self@.tables.values.len() == 0,
                Some(v) => self@.tables.values.len() > 0 && values_match(v@, self@.tables.values),
            },
    {
        let Builder { condition, key_condition, update, filter, projection, tables } = self;
        let Tables { names, values } = tables;
        let expression_attribute_names = if names.len() == 0 {
            None
        } else {
            Some(numbered_names(names))
        };
        let expression_attribute_values = if values.len() == 0 {
            None
        } else {
            Some(numbered_values(values))
        };
        Expression {
            condition_expression: condition,
            key_condition_expression: key_condition,
            update_expression: update,
            filter_expression: filter,
            projection_expression: projection,
            expression_attribute_names,
            expression_attribute_values,
        }
    }
}

/// Each name with its placeholder `#i`.
fn numbered_names(names: Vec<String>) -> (r: Vec<(String, String)>)
    ensures
        names_match(r@, crate::value::set::texts_of(names@)),
{
    let ghost all = crate::value::set::texts_of(names@);
    assert(all.len() == names@.len());
    let mut names = names;
    let total = names.len();
    let mut r: Vec<(String, String)> = Vec::new();
    let mut i: usize = 0;
    while names.len() > 0
        invariant
            i + names@.len() == all.len(),
            all.len() == total,
            r@.len() == i,
            forall|k: int| 0 <= k < names@.len() ==> #[trigger] names@[k]@ == all[i + k],
            forall|k: int|
                0 <= k < i ==> (#[trigger] r@[k]).0@ == name_placeholder(k) && r@[k].1@ == all[k],
        decreases names@.len(),
    {
        let ghost prev = names@;
        let n = names.remove(0);
        assert(n@ == all[i as int]);
        let mut key = String::new();
        key.push('#');
        write_usize(&mut key, i);
        assert(key@ =~= name_placeholder(i as int));
        r.push((key, n));
        i = i + 1;
        assert forall|k: int| 0 <= k < names@.len() implies #[trigger] names@[k]@ == all[i + k] by {
            assert(names@[k] == prev[k + 1]);
        }
    }
    r
}

/// Each value with its placeholder `:i`.
fn numbered_values(values: Vec<Value>) -> (r: Vec<(String, Value)>)
    ensures
        values_match(r@, crate::value::values_view(values@)),
{
    let ghost all = crate::value::values_view(values@);
    proof {
        crate::value::lemma_values_view(values@);
    }
    let mut values = values;
    let total = values.len();
    let mut r: Vec<(String, Value)> = Vec::new();
    let mut i: usize = 0;
    while values.len() > 0
        invariant
            i + values@.len() == all.len(),
            all.len() == total,
            r@.len() == i,
            forall|k: int| 0 <= k < values@.len() ==> #[trigger] values@[k]@ == all[i + k],
            forall|k: int|
                0 <= k < i ==> (#[trigger] r@[k]).0@ == value_placeholder(k) && r@[k].1@ == all[k],
        decreases values@.len(),
    {
        let ghost prev = values@;
        let v = values.remove(0);
        assert(v@ == all[i as int]);
        let mut key = String::new();
        key.push(':');
        write_usize(&mut key, i);
        assert(key@ =~= value_placeholder(i as int));
        r.push((key, v));
        i = i + 1;
        assert forall|k: int| 0 <= k < values@.len() implies #[trigger] values@[k]@ == all[i + k] by {
            assert(values@[k] == prev[k + 1]);
        }
    }
    r
}

} // verus!
