//! Document paths, such as `foo[3][7].bar[2].baz`.
use vstd::prelude::*;

mod element;
mod name;

pub use self::element::{
    element_parses_to, lemma_parse_element_render, parse_element_spec, parse_indexes_spec,
    plain_name, render_indexes, Element, IndexedField, Indexes, PathParseError,
};
pub use self::name::{name, Name};

use self::element::parse_element_chars;
use crate::condition::{
    AttributeExists, AttributeNotExists, AttributeType, BeginsWith, Between, Comparator,
    Comparison, Condition, Contains, In, Type,
};
use crate::key::Key;
use crate::operand::{Operand, OperandType, Size};
use self::element::lemma_render_indexes_chars;
use crate::text::{
    chars_of, find_char, first_index, has_char, join, lemma_first_index, lemma_first_index_concat,
    lemma_join_push,
};
use crate::update::{
    add_operand, if_not_exists, list_append, math, Add, AddAction, AddValue, Assign, Delete,
    DeleteAction, IfNotExists, ListAppend, Math, Remove,
};
use crate::value::{value_or_ref_of, StringOrRef, Value, ValueOrRef, ValueSet};

verus! {

/// A DynamoDB document path, such as `foo[3][7].bar[2].baz`: elements
/// separated by `.`.
#[derive(Debug)]
pub struct Path {
    elements: Vec<Element>,
}

impl View for Path {
    type V = Seq<Element>;

    /// The elements, in order.
    closed spec fn view(&self) -> Seq<Element> {
        self.elements@
    }
}

/// The rendering of each element, in order.
pub open spec fn render_elements(elements: Seq<Element>) -> Seq<Seq<char>> {
    elements.map_values(|e: Element| e.render())
}

/// The name and indexes of each element, in order.
pub open spec fn element_views(elements: Seq<Element>) -> Seq<(Seq<char>, Seq<usize>)> {
    elements.map_values(|e: Element| (e.spec_name(), e.spec_indexes()))
}

/// The elements of a path written as `s`: `s` split at each `.`, each part
/// parsed as an element; `None` when some part does not parse.
pub open spec fn parse_path_spec(s: Seq<char>) -> Option<Seq<(Seq<char>, Seq<usize>)>>
    decreases s.len(),
{
    let i = first_index(s, '.');
    match parse_element_spec(s.take(i)) {
        None => None,
        Some(e) => if 0 <= i < s.len() {
            match parse_path_spec(s.skip(i + 1)) {
                Some(rest) => Some(seq![e] + rest),
                None => None,
            }
        } else {
            Some(seq![e])
        },
    }
}

/// The elements of the paths, one path after another.
pub open spec fn concat_paths(paths: Seq<Path>) -> Seq<Element>
    decreases paths.len(),
{
    if paths.len() == 0 {
        seq![]
    } else {
        concat_paths(paths.drop_last()) + paths.last()@
    }
}

/// Every element of a parsed path is an indexed field exactly when it has
/// indexes.
pub open spec fn shapes_agree(elements: Seq<Element>) -> bool {
    forall|i: int|
        0 <= i < elements.len() ==> (#[trigger] elements[i] is Name <==> elements[i].spec_indexes().len()
            == 0)
}

/// What parsing a path gives: its elements, or an error.
pub open spec fn path_parses_to(s: Seq<char>, r: Result<Path, PathParseError>) -> bool {
    match parse_path_spec(s) {
        Some(es) => r matches Ok(p) && element_views(p@) == es && shapes_agree(
            p@,
        ),
        None => r is Err,
    }
}

impl Path {
    /// The path as it appears in an expression: its elements joined by `.`.
    pub open spec fn render(&self) -> Seq<char> {
        join(render_elements(self@), seq!['.'])
    }

    /// A path of one attribute name. A `.` in the name is part of the name.
    pub fn new_name(name: Name) -> (r: Path)
        ensures
            r@ == seq![Element::Name(name)],
    {
        let mut elements = Vec::new();
        elements.push(Element::Name(name));
        Path { elements }
    }

    /// A path of one indexed field, such as `foo[3]` or `foo[7][4]`; one
    /// attribute name when there are no indexes.
    pub fn new_indexed_field<I: Indexes>(name: Name, indexes: I) -> (r: Path)
        ensures
            r@.len() == 1,
            r@[0].spec_name() == name@,
            r@[0].spec_indexes() == indexes.spec_indexes(),
            r@[0] is Name <==> indexes.spec_indexes().len() == 0,
    {
        let e = Element::new_indexed_field(name, indexes);
        let mut elements = Vec::new();
        elements.push(e);
        Path { elements }
    }

    /// The elements, in order.
    pub(crate) fn elements(&self) -> (r: &Vec<Element>)
        ensures
            r@ == self@,
    {
        &self.elements
    }

    /// The path with no elements.
    pub fn new_empty() -> (r: Path)
        ensures
            r@.len() == 0,
    {
        Path { elements: Vec::new() }
    }

    /// A path of one element.
    pub fn from_element(element: Element) -> (r: Path)
        ensures
            r@ == seq![element],
    {
        let mut elements = Vec::new();
        elements.push(element);
        Path { elements }
    }

    /// A path of these elements, in order.
    pub fn from_elements(elements: Vec<Element>) -> (r: Path)
        ensures
            r@ == elements@,
    {
        Path { elements }
    }

    /// The paths, one after another, as one path.
    pub fn from_paths(paths: Vec<Path>) -> (r: Path)
        ensures
            r@ == concat_paths(paths@),
    {
        let mut paths = paths;
        let ghost all = paths@;
        let mut elements: Vec<Element> = Vec::new();
        let ghost mut i: int = 0;
        assert(all.take(0) =~= Seq::<Path>::empty());
        while paths.len() > 0
            invariant
                0 <= i <= all.len(),
                paths@ == all.skip(i),
                elements@ == concat_paths(all.take(i)),
            decreases paths@.len(),
        {
            let mut p = paths.remove(0);
            assert(p == all[i]);
            let ghost pe = p@;
            elements.append(&mut p.elements);
            proof {
                assert(all.take(i + 1).drop_last() =~= all.take(i));
                i = i + 1;
            }
            assert(paths@ =~= all.skip(i));
        }
        assert(all.take(i) =~= all);
        Path { elements }
    }

    /// Appends another path to the end of this one.
    pub fn append(&mut self, other: Path)
        ensures
            final(self)@ == old(self)@ + other@,
    {
        let mut other = other;
        self.elements.append(&mut other.elements);
    }

    /// A copy of this path.
    pub fn clone_path(&self) -> (r: Path)
        ensures
            element_views(r@) == element_views(self@),
            shapes_agree(r@) == shapes_agree(self@),
            r.render() == self.render(),
    {
        let mut elements: Vec<Element> = Vec::new();
        let mut i: usize = 0;
        while i < self.elements.len()
            invariant
                i <= self@.len(),
                elements@.len() == i,
                forall|k: int|
                    0 <= k < i ==> (#[trigger] elements@[k]).spec_name() == self@[k].spec_name()
                        && elements@[k].spec_indexes() == self@[k].spec_indexes() && (
                    elements@[k] is Name <==> self@[k] is Name),
            decreases self@.len() - i,
        {
            elements.push(self.elements[i].clone_element());
            i = i + 1;
        }
        let r = Path { elements };
        assert(element_views(r@) =~= element_views(self@));
        proof {
            if shapes_agree(self@) {
                assert forall|k: int| 0 <= k < r@.len() implies (
                #[trigger] r@[k] is Name <==> r@[k].spec_indexes().len() == 0) by {
                    assert(self@[k] is Name <==> self@[k].spec_indexes().len()
                        == 0);
                }
            }
            if shapes_agree(r@) {
                assert forall|k: int| 0 <= k < self@.len() implies (
                #[trigger] self@[k] is Name <==> self@[k].spec_indexes().len()
                    == 0) by {
                    assert(r@[k] is Name <==> r@[k].spec_indexes().len() == 0);
                }
            }
        }
        assert(render_elements(r@) =~= render_elements(self@));
        r
    }

    /// The attribute name, when the path is exactly one attribute name (no
    /// indexes, no sub-attributes); otherwise the path itself, unchanged.
    pub fn into_name(self) -> (r: Result<Name, Path>)
        ensures
            match r {
                Ok(n) => self@.len() == 1 && self@[0] == Element::Name(n),
                Err(p) => p@ == self@ && !(self@.len() == 1
                    && self@[0] is Name),
            },
    {
        if self.elements.len() != 1 {
            return Err(self);
        }
        let mut elements = self.elements;
        let e = elements.pop().unwrap();
        match e {
            Element::Name(n) => Ok(n),
            Element::IndexedField(f) => {
                let mut elements = Vec::new();
                elements.push(Element::IndexedField(f));
                assert(elements@ =~= self@);
                Err(Path { elements })
            },
        }
    }

    /// Whether the path has no elements.
    pub fn is_empty(&self) -> (r: bool)
        ensures
            r == (self@.len() == 0),
    {
        self.elements.len() == 0
    }

    /// Appends the path as it appears in an expression.
    pub fn write_to(&self, out: &mut String)
        ensures
            final(out)@ == old(out)@ + self.render(),
    {
        let ghost start = out@;
        let ghost parts = render_elements(self@);
        let mut i: usize = 0;
        while i < self.elements.len()
            invariant
                i <= self@.len(),
                parts == render_elements(self@),
                out@ == start + join(parts.take(i as int), seq!['.']),
            decreases self@.len() - i,
        {
            if i > 0 {
                out.push('.');
            }
            self.elements[i].write_to(out);
            proof {
                lemma_join_push(parts.take(i as int), seq!['.'], parts[i as int]);
                assert(parts.take(i + 1) =~= parts.take(i as int).push(parts[i as int]));
            }
            i = i + 1;
            assert(out@ =~= start + join(parts.take(i as int), seq!['.']));
        }
        assert(parts.take(i as int) =~= parts);
    }

    /// The path as it appears in an expression.
    pub fn to_string(&self) -> (r: String)
        ensures
            r@ == self.render(),
    {
        let mut out = String::new();
        self.write_to(&mut out);
        out
    }

    /// Parses a path: the text is split at each `.`, and each part is parsed
    /// as an [`Element`].
    pub fn parse(s: &str) -> (r: Result<Path, PathParseError>)
        ensures
            path_parses_to(s@, r),
    {
        let v = chars_of(s);
        let n = v.len();
        let mut elements: Vec<Element> = Vec::new();
        let mut pos: usize = 0;
        assert(v@.subrange(0, n as int) =~= s@);
        proof {
            if let Some(rest) = parse_path_spec(s@) {
                assert(element_views(elements@) + rest =~= rest);
            }
        }
        loop
            invariant
                pos <= n == v@.len(),
                v@ == s@,
                shapes_agree(elements@),
                parse_path_spec(s@) == match parse_path_spec(v@.subrange(pos as int, n as int)) {
                    Some(rest) => Some(element_views(elements@) + rest),
                    None => None::<Seq<(Seq<char>, Seq<usize>)>>,
                },
            decreases n - pos,
        {
            let ghost t = v@.subrange(pos as int, n as int);
            let d = find_char(&v, pos, n, '.');
            proof {
                lemma_first_index(t, '.');
            }
            let parsed = parse_element_chars(&v, pos, d);
            assert(t.take(d - pos) =~= v@.subrange(pos as int, d as int));
            match parsed {
                Err(e) => {
                    return Err(e);
                },
                Ok(e) => {
                    let ghost before = elements@;
                    elements.push(e);
                    proof {
                        assert(element_views(elements@) =~= element_views(before).push(
                            (e.spec_name(), e.spec_indexes()),
                        ));
                        assert(shapes_agree(elements@)) by {
                            assert forall|k: int| 0 <= k < elements@.len() implies (
                            #[trigger] elements@[k] is Name <==> elements@[k].spec_indexes().len()
                                == 0) by {
                                if k < before.len() {
                                    assert(elements@[k] == before[k]);
                                }
                            }
                        }
                    }
                    if d == n {
                        proof {
                            let es = element_views(before);
                            assert(es + seq![(e.spec_name(), e.spec_indexes())] =~= element_views(
                                elements@,
                            ));
                        }
                        return Ok(Path { elements });
                    }
                    proof {
                        assert(t.skip(d - pos + 1) =~= v@.subrange(d + 1, n as int));
                        let rest = parse_path_spec(v@.subrange(d + 1, n as int));
                        if let Some(r) = rest {
                            let es = element_views(before);
                            assert(es + (seq![(e.spec_name(), e.spec_indexes())] + r)
                                =~= element_views(elements@) + r);
                        }
                    }
                    pos = d + 1;
                },
            }
        }
    }
}

/// The comparison `path cmp right`.
pub open spec fn path_comparison(path: Path, cmp: Comparator, right: Operand) -> Condition {
    Condition::Comparison(Comparison { left: Operand { op: OperandType::Path(path) }, cmp, right })
}

impl Path {
    /// `self = right`.
    pub fn equal(self, right: Operand) -> (r: Condition)
        ensures
            r == path_comparison(self, Comparator::Eq, right),
    {
        Operand::new_path(self).equal(right)
    }

    /// `self <> right`.
    pub fn not_equal(self, right: Operand) -> (r: Condition)
        ensures
            r == path_comparison(self, Comparator::Ne, right),
    {
        Operand::new_path(self).not_equal(right)
    }

    /// `self > right`.
    pub fn greater_than(self, right: Operand) -> (r: Condition)
        ensures
            r == path_comparison(self, Comparator::Gt, right),
    {
        Operand::new_path(self).greater_than(right)
    }

    /// `self >= right`.
    pub fn greater_than_or_equal(self, right: Operand) -> (r: Condition)
        ensures
            r == path_comparison(self, Comparator::Ge, right),
    {
        Operand::new_path(self).greater_than_or_equal(right)
    }

    /// `self < right`.
    pub fn less_than(self, right: Operand) -> (r: Condition)
        ensures
            r == path_comparison(self, Comparator::Lt, right),
    {
        Operand::new_path(self).less_than(right)
    }

    /// `self <= right`.
    pub fn less_than_or_equal(self, right: Operand) -> (r: Condition)
        ensures
            r == path_comparison(self, Comparator::Le, right),
    {
        Operand::new_path(self).less_than_or_equal(right)
    }

    /// `self BETWEEN lower AND upper`.
    pub fn between(self, lower: Operand, upper: Operand) -> (r: Condition)
        ensures
            r == Condition::Between(
                Between { op: Operand { op: OperandType::Path(self) }, lower, upper },
            ),
    {
        Operand::new_path(self).between(lower, upper)
    }

    /// `self IN (items...)`.
    pub fn in_(self, items: Vec<Operand>) -> (r: Condition)
        ensures
            r == Condition::In(In { op: Operand { op: OperandType::Path(self) }, items }),
    {
        Operand::new_path(self).in_(items)
    }

    /// `attribute_exists(self)`.
    pub fn attribute_exists(self) -> (r: Condition)
        ensures
            r == Condition::AttributeExists(AttributeExists { path: self }),
    {
        Condition::AttributeExists(AttributeExists { path: self })
    }

    /// `attribute_not_exists(self)`.
    pub fn attribute_not_exists(self) -> (r: Condition)
        ensures
            r == Condition::AttributeNotExists(AttributeNotExists { path: self }),
    {
        Condition::AttributeNotExists(AttributeNotExists { path: self })
    }

    /// `attribute_type(self, attribute_type)`.
    pub fn attribute_type(self, attribute_type: Type) -> (r: Condition)
        ensures
            r == Condition::AttributeType(AttributeType { path: self, attribute_type }),
    {
        Condition::AttributeType(AttributeType::new(self, attribute_type))
    }

    /// `begins_with(self, prefix)`.
    pub fn begins_with(self, prefix: StringOrRef) -> (r: Condition)
        ensures
            r == Condition::BeginsWith(BeginsWith { path: self, substr: value_or_ref_of(prefix) }),
    {
        Condition::BeginsWith(BeginsWith::new(self, prefix))
    }

    /// `contains(self, operand)`.
    pub fn contains(self, operand: Value) -> (r: Condition)
        ensures
            r == Condition::Contains(Contains { path: self, operand: ValueOrRef::Value(operand) }),
    {
        Condition::Contains(Contains::new(self, operand))
    }

    /// `size(self)`.
    pub fn size(self) -> (r: Size)
        ensures
            r == (Size { path: self }),
    {
        Size::new(self)
    }

    /// `self = value`, an action of a `SET` clause.
    pub fn set(self, value: Value) -> (r: Assign)
        ensures
            r == (Assign { path: self, value: ValueOrRef::Value(value) }),
    {
        Assign::new(self, value)
    }

    /// `self = value`, an action of a `SET` clause (the older name of
    /// [`Path::set`]).
    pub fn assign(self, value: Value) -> (r: Assign)
        ensures
            r == (Assign { path: self, value: ValueOrRef::Value(value) }),
    {
        self.set(value)
    }

    /// Starts a math action that sets this attribute.
    pub fn math(self) -> (r: math::Builder)
        ensures
            r == (math::Builder { dst: self, src: None }),
    {
        Math::builder(self)
    }

    /// Starts a `list_append` action that sets this attribute.
    pub fn list_append(self) -> (r: list_append::Builder)
        ensures
            r == (list_append::Builder { dst: self, src: None, after: true }),
    {
        ListAppend::builder(self)
    }

    /// Starts an `if_not_exists` action that sets this attribute.
    pub fn if_not_exists(self) -> (r: if_not_exists::Builder)
        ensures
            r == (if_not_exists::Builder { dst: self, src: None }),
    {
        IfNotExists::builder(self)
    }

    /// A `DELETE` clause that deletes the members of `set` from this set.
    pub fn delete(self, set: ValueSet) -> (r: Delete)
        ensures
            r.actions@ == seq![
                DeleteAction { path: self, subset: ValueOrRef::Value(Value::ValueSet(set)) },
            ],
    {
        Delete::new(self, set)
    }

    /// An `ADD` clause that adds `value` to this attribute.
    pub fn add(self, value: AddValue) -> (r: Add)
        ensures
            r.actions@ == seq![AddAction { path: self, value: add_operand(value) }],
    {
        Add::new(self, value)
    }

    /// A `REMOVE` clause that removes this attribute.
    pub fn remove(self) -> (r: Remove)
        ensures
            r.paths@ == seq![self],
    {
        Remove::new(self)
    }

    /// The key attribute at this path, for a key condition.
    pub fn key(self) -> (r: Key)
        ensures
            r == (Key { path: self }),
    {
        Key::new(self)
    }
}

impl Default for Path {
    fn default() -> (r: Path)
        ensures
            r@.len() == 0,
    {
        Path::new_empty()
    }
}

impl From<Element> for Path {
    fn from(element: Element) -> (r: Path)
        ensures
            r@ == seq![element],
    {
        Path::from_element(element)
    }
}

/// The contract of this conversion is on `from` itself.
impl vstd::std_specs::convert::FromSpecImpl<Element> for Path {
    open spec fn obeys_from_spec() -> bool {
        false
    }

    open spec fn from_spec(v: Element) -> Path {
        vstd::pervasive::arbitrary()
    }
}

impl From<Name> for Path {
    fn from(name: Name) -> (r: Path)
        ensures
            r@ == seq![Element::Name(name)],
    {
        Path::new_name(name)
    }
}

/// The contract of this conversion is on `from` itself.
impl vstd::std_specs::convert::FromSpecImpl<Name> for Path {
    open spec fn obeys_from_spec() -> bool {
        false
    }

    open spec fn from_spec(v: Name) -> Path {
        vstd::pervasive::arbitrary()
    }
}

impl<'a, I: Indexes> From<(&'a str, I)> for Path {
    fn from(field: (&'a str, I)) -> (r: Path)
        ensures
            r@.len() == 1,
            r@[0].spec_name() == field.0@,
            r@[0].spec_indexes() == field.1.spec_indexes(),
    {
        let (n, indexes) = field;
        Path::new_indexed_field(name(n), indexes)
    }
}

/// The contract of this conversion is on `from` itself.
impl<'a, I: Indexes> vstd::std_specs::convert::FromSpecImpl<(&'a str, I)> for Path {
    open spec fn obeys_from_spec() -> bool {
        false
    }

    open spec fn from_spec(v: (&'a str, I)) -> Path {
        vstd::pervasive::arbitrary()
    }
}

impl<'a, I: Indexes> From<(&'a str, I)> for Element {
    fn from(field: (&'a str, I)) -> (r: Element)
        ensures
            r.spec_name() == field.0@,
            r.spec_indexes() == field.1.spec_indexes(),
    {
        let (n, indexes) = field;
        Element::new_indexed_field(name(n), indexes)
    }
}

/// The contract of this conversion is on `from` itself.
impl<'a, I: Indexes> vstd::std_specs::convert::FromSpecImpl<(&'a str, I)> for Element {
    open spec fn obeys_from_spec() -> bool {
        false
    }

    open spec fn from_spec(v: (&'a str, I)) -> Element {
        vstd::pervasive::arbitrary()
    }
}

impl Element {
    /// A path holding just this element.
    pub fn into_path(self) -> (r: Path)
        ensures
            r@ == seq![self],
    {
        Path::from_element(self)
    }
}

/// The text of a path element with this name and these indexes.
pub open spec fn element_text(e: (Seq<char>, Seq<usize>)) -> Seq<char> {
    e.0 + render_indexes(e.1)
}

/// An element that parsing gives back whole: its name holds no `.`, `[` or
/// `]`, and is not empty when there are indexes.
pub open spec fn plain_element(e: (Seq<char>, Seq<usize>)) -> bool {
    plain_name(e.0) && (e.1.len() > 0 ==> e.0.len() > 0)
}

/// Joined parts, seen from the front: the first part, the separator, then
/// the rest joined.
pub proof fn lemma_join_front(parts: Seq<Seq<char>>, sep: Seq<char>)
    requires
        parts.len() >= 2,
    ensures
        join(parts, sep) == parts[0] + sep + join(parts.drop_first(), sep),
    decreases parts.len(),
{
    if parts.len() == 2 {
        assert(parts.drop_last() =~= seq![parts[0]]);
        assert(parts.drop_first() =~= seq![parts[1]]);
        assert(join(parts.drop_last(), sep) == parts[0]);
        assert(join(parts.drop_first(), sep) == parts[1]);
        assert(join(parts, sep) == join(parts.drop_last(), sep) + sep + parts.last());
        assert(join(parts, sep) =~= parts[0] + sep + join(parts.drop_first(), sep));
    } else {
        let dl = parts.drop_last();
        lemma_join_front(dl, sep);
        assert(dl[0] == parts[0]);
        assert(dl.drop_first() =~= parts.drop_first().drop_last());
        assert(parts.drop_first().last() == parts.last());
        assert(join(parts, sep) == join(dl, sep) + sep + parts.last());
        assert(join(parts.drop_first(), sep) == join(parts.drop_first().drop_last(), sep) + sep
            + parts.drop_first().last());
        assert(join(parts, sep) =~= parts[0] + sep + join(parts.drop_first(), sep));
    }
}

/// The text of a plain element holds no `.`.
proof fn lemma_element_text_no_dot(e: (Seq<char>, Seq<usize>))
    requires
        plain_element(e),
    ensures
        !has_char(element_text(e), '.'),
{
    let r = render_indexes(e.1);
    lemma_render_indexes_chars(e.1);
    lemma_first_index(r, '.');
    assert forall|j: int| 0 <= j < r.len() implies r[j] != '.' by {
        assert(r[j] == '[' || r[j] == ']' || crate::text::is_digit(r[j]));
    }
    lemma_first_index_concat(e.0, r, '.');
}

/// Parsing plain elements' texts joined by `.` gives the elements back.
#[verifier::spinoff_prover]
#[verifier::rlimit(50)]
proof fn lemma_parse_joined(es: Seq<(Seq<char>, Seq<usize>)>)
    requires
        es.len() >= 1,
        forall|i: int| 0 <= i < es.len() ==> plain_element(#[trigger] es[i]),
    ensures
        parse_path_spec(join(es.map_values(|e: (Seq<char>, Seq<usize>)| element_text(e)), seq!['.']))
            == Some(es),
    decreases es.len(),
{
    let parts = es.map_values(|e: (Seq<char>, Seq<usize>)| element_text(e));
    let a = parts[0];
    assert(a == element_text(es[0]));
    assert(plain_element(es[0]));
    lemma_element_text_no_dot(es[0]);
    lemma_first_index(a, '.');
    lemma_parse_element_render(es[0].0, es[0].1);
    if es.len() == 1 {
        assert(join(parts, seq!['.']) == a);
        assert(a.take(a.len() as int) =~= a);
        assert(seq![es[0]] =~= es);
    } else {
        let rest = es.drop_first();
        let j = join(rest.map_values(|e: (Seq<char>, Seq<usize>)| element_text(e)), seq!['.']);
        lemma_join_front(parts, seq!['.']);
        assert(parts.drop_first() =~= rest.map_values(|e: (Seq<char>, Seq<usize>)| element_text(e)));
        let s = join(parts, seq!['.']);
        assert(s == a + seq!['.'] + j);
        assert(s =~= a + (seq!['.'] + j));
        lemma_first_index(seq!['.'] + j, '.');
        assert(first_index(seq!['.'] + j, '.') == 0);
        lemma_first_index_concat(a, seq!['.'] + j, '.');
        assert(first_index(s, '.') == a.len());
        assert(s.take(a.len() as int) =~= a);
        assert(s.skip(a.len() as int + 1) =~= j);
        assert forall|i: int| 0 <= i < rest.len() implies plain_element(#[trigger] rest[i]) by {
            assert(rest[i] == es[i + 1]);
        }
        lemma_parse_joined(rest);
        assert(seq![es[0]] + rest =~= es);
    }
}

/// Two paths have the same elements: the same names and indexes, and an
/// indexed field in the same places.
pub open spec fn same_elements(a: Seq<Element>, b: Seq<Element>) -> bool {
    &&& element_views(a) == element_views(b)
    &&& a.len() == b.len()
    &&& forall|i: int| 0 <= i < a.len() ==> (#[trigger] a[i] is Name <==> b[i] is Name)
}

/// What every element satisfies: an indexed field has at least one index
/// (the invariant of `IndexedField`), so an element is an indexed field
/// exactly when it has indexes.
pub open spec fn valid_elements(elements: Seq<Element>) -> bool {
    forall|i: int|
        0 <= i < elements.len() ==> (#[trigger] elements[i] is IndexedField
            ==> elements[i].spec_indexes().len() > 0)
}

/// Rendering a path and parsing the text gives the same path back, when the
/// path has at least one element and each name holds no `.`, `[` or `]` and
/// is not empty where it has indexes. (Such a name would be split, or
/// refused, by parsing; a path of no elements renders as empty text, which
/// parses as one element with an empty name.)
pub proof fn lemma_parse_render(p: Path)
    requires
        valid_elements(p@),
        p@.len() >= 1,
        forall|i: int| 0 <= i < p@.len() ==> plain_element(#[trigger] element_views(p@)[i]),
    ensures
        parse_path_spec(p.render()) == Some(element_views(p@)),
        forall|r: Result<Path, PathParseError>|
            #[trigger] path_parses_to(p.render(), r) ==> (r matches Ok(q) && same_elements(q@, p@)),
{
    let es = element_views(p@);
    assert(render_elements(p@) =~= es.map_values(
        |e: (Seq<char>, Seq<usize>)| element_text(e),
    ));
    lemma_parse_joined(es);
    assert forall|r: Result<Path, PathParseError>|
        #[trigger] path_parses_to(p.render(), r) implies (r matches Ok(q) && same_elements(q@, p@)) by {
        if let Ok(q) = r {
            assert forall|i: int| 0 <= i < q@.len() implies (#[trigger] q@[i] is Name <==> p@[i] is Name) by {
                assert(element_views(q@)[i] == element_views(p@)[i]);
                assert(q@[i] is Name <==> q@[i].spec_indexes().len() == 0);
            }
        }
    }
}

} // verus!
