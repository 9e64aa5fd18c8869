//! DynamoDB values: scalars, sets, maps and lists, and references to values
//! held in the expression attribute values.
use vstd::prelude::*;

pub mod encode;
pub mod num;
pub mod order;
pub mod scalar;
pub mod set;
pub mod value_or_ref;

pub use self::num::Num;
pub use self::scalar::{render_scalar, Bytes, Scalar, ScalarV};
pub use self::set::{render_set, BinarySet, NumSet, SetV, StringSet, ValueSet};
pub use self::value_or_ref::{
    render_ref, render_value_or_ref, value_or_ref_of, Ref, StringOrRef, ValueOrRef,
};

use self::encode::base64_fits;
use self::order::{compare_strings, lemma_text_order, text_lt};
use crate::path::Name;
use crate::text::{join, lemma_join_push, string_of, write_str};

verus! {

/// A DynamoDB value.
pub enum Value {
    Scalar(Scalar),
    ValueSet(ValueSet),
    ValueMap(ValueMap),
    List(List),
}

/// A DynamoDB list: values that need not be of one type, in order.
pub struct List {
    pub list: Vec<Value>,
}

/// A DynamoDB map: values keyed by attribute name, each name once, in code
/// point order of the names.
pub struct ValueMap {
    entries: Vec<(Name, Value)>,
}

/// What a value holds. Sets and maps are held in their canonical order, so
/// two values are equal exactly when their views are.
pub enum ValueV {
    Scalar(ScalarV),
    ValueSet(SetV),
    ValueMap(Seq<(Seq<char>, ValueV)>),
    List(Seq<ValueV>),
}

/// What a value holds.
pub open spec fn value_view(v: Value) -> ValueV
    decreases v,
{
    match v {
        Value::Scalar(s) => ValueV::Scalar(s@),
        Value::ValueSet(s) => ValueV::ValueSet(s@),
        Value::ValueMap(m) => ValueV::ValueMap(map_view(m)),
        Value::List(l) => ValueV::List(values_view(l.list@)),
    }
}

/// The entries of a map: each name with what its value holds, in order.
pub closed spec fn map_view(m: ValueMap) -> Seq<(Seq<char>, ValueV)>
    decreases m,
{
    entries_view(m.entries@)
}

/// What each of some values holds, in order.
pub open spec fn values_view(s: Seq<Value>) -> Seq<ValueV>
    decreases s,
{
    if s.len() == 0 {
        seq![]
    } else {
        values_view(s.drop_last()).push(value_view(s.last()))
    }
}

/// The name and view of each map entry, in order.
pub closed spec fn entries_view(s: Seq<(Name, Value)>) -> Seq<(Seq<char>, ValueV)>
    decreases s,
{
    if s.len() == 0 {
        seq![]
    } else {
        entries_view(s.drop_last()).push((s.last().0@, value_view(s.last().1)))
    }
}

impl View for Value {
    type V = ValueV;

    open spec fn view(&self) -> ValueV {
        value_view(*self)
    }
}

impl View for List {
    type V = Seq<ValueV>;

    open spec fn view(&self) -> Seq<ValueV> {
        values_view(self.list@)
    }
}

impl View for ValueMap {
    type V = Seq<(Seq<char>, ValueV)>;

    open spec fn view(&self) -> Seq<(Seq<char>, ValueV)> {
        map_view(*self)
    }
}

/// Map keys in strictly increasing order.
pub open spec fn keys_sorted<V>(s: Seq<(Seq<char>, V)>) -> bool {
    forall|i: int, j: int| 0 <= i < j < s.len() ==> text_lt(#[trigger] s[i].0, #[trigger] s[j].0)
}

/// The map that a sequence of entries describes: a later entry for a name
/// replaces an earlier one.
pub open spec fn map_of(s: Seq<(Seq<char>, ValueV)>) -> Map<Seq<char>, ValueV>
    decreases s.len(),
{
    if s.len() == 0 {
        Map::empty()
    } else {
        map_of(s.drop_last()).insert(s.last().0, s.last().1)
    }
}

/// A value as it appears in an expression: a scalar or set as such, a list
/// as its values in brackets, a map as `name: value` entries in braces, each
/// separated by `, `.
pub open spec fn render_value(v: ValueV) -> Seq<char>
    decreases v,
{
    match v {
        ValueV::Scalar(s) => render_scalar(s),
        ValueV::ValueSet(s) => render_set(s),
        ValueV::ValueMap(es) => seq!['{'] + join(render_entries(es), seq![',', ' ']) + seq!['}'],
        ValueV::List(vs) => seq!['['] + join(render_values(vs), seq![',', ' ']) + seq![']'],
    }
}

/// The rendering of each value, in order.
pub open spec fn render_values(vs: Seq<ValueV>) -> Seq<Seq<char>>
    decreases vs,
{
    if vs.len() == 0 {
        seq![]
    } else {
        render_values(vs.drop_last()).push(render_value(vs.last()))
    }
}

/// The rendering of each map entry as `name: value`, in order.
pub open spec fn render_entries(es: Seq<(Seq<char>, ValueV)>) -> Seq<Seq<char>>
    decreases es,
{
    if es.len() == 0 {
        seq![]
    } else {
        render_entries(es.drop_last()).push(
            es.last().0 + seq![':', ' '] + render_value(es.last().1),
        )
    }
}

/// The views of some values, one by one.
pub proof fn lemma_values_view(s: Seq<Value>)
    ensures
        values_view(s).len() == s.len(),
        forall|i: int| 0 <= i < s.len() ==> #[trigger] values_view(s)[i] == value_view(s[i]),
    decreases s.len(),
{
    if s.len() > 0 {
        lemma_values_view(s.drop_last());
    }
}

/// The views of some map entries, one by one.
pub proof fn lemma_entries_view(s: Seq<(Name, Value)>)
    ensures
        entries_view(s).len() == s.len(),
        forall|i: int|
            0 <= i < s.len() ==> #[trigger] entries_view(s)[i] == (s[i].0@, value_view(s[i].1)),
    decreases s.len(),
{
    if s.len() > 0 {
        lemma_entries_view(s.drop_last());
    }
}

/// The renderings of some values, one by one.
pub proof fn lemma_render_values(vs: Seq<ValueV>)
    ensures
        render_values(vs).len() == vs.len(),
        forall|i: int| 0 <= i < vs.len() ==> #[trigger] render_values(vs)[i] == render_value(vs[i]),
    decreases vs.len(),
{
    if vs.len() > 0 {
        lemma_render_values(vs.drop_last());
    }
}

/// The renderings of some map entries, one by one.
pub proof fn lemma_render_entries(es: Seq<(Seq<char>, ValueV)>)
    ensures
        render_entries(es).len() == es.len(),
        forall|i: int|
            0 <= i < es.len() ==> #[trigger] render_entries(es)[i] == es[i].0 + seq![':', ' ']
                + render_value(es[i].1),
    decreases es.len(),
{
    if es.len() > 0 {
        lemma_render_entries(es.drop_last());
    }
}

/// For entries in strictly increasing order of name, the map they describe
/// holds exactly their names, each with its own value.
pub proof fn lemma_map_of_sorted(s: Seq<(Seq<char>, ValueV)>)
    requires
        keys_sorted(s),
    ensures
        forall|i: int|
            0 <= i < s.len() ==> #[trigger] map_of(s).contains_key(s[i].0) && map_of(s)[s[i].0]
                == s[i].1,
        forall|k: Seq<char>|
            #[trigger] map_of(s).contains_key(k) ==> exists|i: int| 0 <= i < s.len() && s[i].0 == k,
    decreases s.len(),
{
    if s.len() > 0 {
        let t = s.drop_last();
        assert(keys_sorted(t)) by {
            assert forall|i: int, j: int| 0 <= i < j < t.len() implies text_lt(
                #[trigger] t[i].0,
                #[trigger] t[j].0,
            ) by {
                assert(t[i] == s[i] && t[j] == s[j]);
            }
        }
        lemma_map_of_sorted(t);
        assert forall|i: int| 0 <= i < s.len() implies #[trigger] map_of(s).contains_key(s[i].0)
            && map_of(s)[s[i].0] == s[i].1 by {
            assert(map_of(s) == map_of(t).insert(s.last().0, s.last().1));
            if i < s.len() - 1 {
                assert(t[i] == s[i]);
                assert(map_of(t).contains_key(t[i].0));
                assert(text_lt(s[i].0, s[s.len() - 1].0));
                lemma_text_order(s[i].0, s[s.len() - 1].0, s[s.len() - 1].0);
            }
        }
        assert forall|k: Seq<char>| #[trigger] map_of(s).contains_key(k) implies exists|i: int|
            0 <= i < s.len() && s[i].0 == k by {
            if k != s.last().0 {
                assert(map_of(t).contains_key(k));
                let i = choose|i: int| 0 <= i < t.len() && t[i].0 == k;
                assert(s[i].0 == k);
            } else {
                assert(s[s.len() - 1].0 == k);
            }
        }
    }
}

/// Two sequences of entries with the same names and values, in strictly
/// increasing order of name, are equal.
pub proof fn lemma_sorted_entries_unique(a: Seq<(Seq<char>, ValueV)>, b: Seq<(Seq<char>, ValueV)>)
    requires
        keys_sorted(a),
        keys_sorted(b),
        map_of(a) == map_of(b),
    ensures
        a == b,
    decreases a.len() + b.len(),
{
    lemma_map_of_sorted(a);
    lemma_map_of_sorted(b);
    if a.len() == 0 && b.len() > 0 {
        assert(map_of(b).contains_key(b[0].0));
    } else if b.len() == 0 && a.len() > 0 {
        assert(map_of(a).contains_key(a[0].0));
    } else if a.len() > 0 && b.len() > 0 {
        let x = a.last();
        let y = b.last();
        assert(map_of(b).contains_key(x.0));
        assert(map_of(a).contains_key(y.0));
        let i = choose|i: int| 0 <= i < b.len() && b[i].0 == x.0;
        let j = choose|j: int| 0 <= j < a.len() && a[j].0 == y.0;
        lemma_text_order(x.0, y.0, x.0);
        if i < b.len() - 1 {
            assert(text_lt(b[i].0, y.0));
            if j < a.len() - 1 {
                assert(text_lt(a[j].0, x.0));
            }
        }
        if j < a.len() - 1 {
            assert(text_lt(a[j].0, x.0));
        }
        assert(x.0 == y.0);
        assert(x.1 == y.1);
        let a2 = a.drop_last();
        let b2 = b.drop_last();
        assert(keys_sorted(a2)) by {
            assert forall|p: int, q: int| 0 <= p < q < a2.len() implies text_lt(
                #[trigger] a2[p].0,
                #[trigger] a2[q].0,
            ) by {
                assert(a2[p] == a[p] && a2[q] == a[q]);
            }
        }
        assert(keys_sorted(b2)) by {
            assert forall|p: int, q: int| 0 <= p < q < b2.len() implies text_lt(
                #[trigger] b2[p].0,
                #[trigger] b2[q].0,
            ) by {
                assert(b2[p] == b[p] && b2[q] == b[q]);
            }
        }
        lemma_map_of_sorted(a2);
        lemma_map_of_sorted(b2);
        assert(map_of(a2) =~= map_of(b2)) by {
            assert forall|k: Seq<char>| map_of(a2).contains_key(k) implies map_of(b2).contains_key(
                k,
            ) && map_of(a2)[k] == map_of(b2)[k] by {
                let p = choose|p: int| 0 <= p < a2.len() && a2[p].0 == k;
                assert(text_lt(a[p].0, x.0));
                lemma_text_order(k, x.0, x.0);
                assert(map_of(a).contains_key(k));
                assert(map_of(b).contains_key(k));
                assert(map_of(b2).contains_key(k));
            }
            assert forall|k: Seq<char>| map_of(b2).contains_key(k) implies map_of(a2).contains_key(
                k,
            ) by {
                let q = choose|q: int| 0 <= q < b2.len() && b2[q].0 == k;
                assert(text_lt(b[q].0, y.0));
                lemma_text_order(k, y.0, y.0);
                assert(map_of(b).contains_key(k));
                assert(map_of(a).contains_key(k));
            }
        }
        lemma_sorted_entries_unique(a2, b2);
        assert(a =~= a2.push(x));
        assert(b =~= b2.push(y));
    } else {
        assert(a =~= b);
    }
}

/// Replacing the value of an entry of a sorted sequence replaces it in the
/// map.
proof fn lemma_map_of_update(e: Seq<(Seq<char>, ValueV)>, i: int, x: (Seq<char>, ValueV))
    requires
        keys_sorted(e),
        0 <= i < e.len(),
        e[i].0 == x.0,
    ensures
        keys_sorted(e.update(i, x)),
        map_of(e.update(i, x)) == map_of(e).insert(x.0, x.1),
{
    let f = e.update(i, x);
    assert(keys_sorted(f)) by {
        assert forall|p: int, q: int| 0 <= p < q < f.len() implies text_lt(
            #[trigger] f[p].0,
            #[trigger] f[q].0,
        ) by {
            assert(f[p].0 == e[p].0 && f[q].0 == e[q].0);
        }
    }
    lemma_map_of_sorted(e);
    lemma_map_of_sorted(f);
    let m1 = map_of(f);
    let m2 = map_of(e).insert(x.0, x.1);
    assert forall|q: Seq<char>| m1.contains_key(q) implies m2.contains_key(q) && m1[q] == m2[q] by {
        let j = choose|j: int| 0 <= j < f.len() && f[j].0 == q;
        assert(m1.contains_key(f[j].0));
        if j != i {
            assert(f[j] == e[j]);
            assert(map_of(e).contains_key(e[j].0));
            if j < i {
                assert(text_lt(e[j].0, e[i].0));
            } else {
                assert(text_lt(e[i].0, e[j].0));
            }
            lemma_text_order(e[j].0, e[i].0, e[i].0);
        }
    }
    assert forall|q: Seq<char>| m2.contains_key(q) implies m1.contains_key(q) by {
        if q == x.0 {
            assert(m1.contains_key(f[i].0));
        } else {
            let j = choose|j: int| 0 <= j < e.len() && e[j].0 == q;
            assert(f[j] == e[j]);
        }
    }
    assert(m1 =~= m2);
}

/// Inserting an entry with a new name into a sorted sequence, keeping it
/// sorted, inserts it into the map.
proof fn lemma_map_of_insert(e: Seq<(Seq<char>, ValueV)>, i: int, x: (Seq<char>, ValueV))
    requires
        keys_sorted(e),
        0 <= i <= e.len(),
        keys_sorted(e.insert(i, x)),
    ensures
        map_of(e.insert(i, x)) == map_of(e).insert(x.0, x.1),
{
    let f = e.insert(i, x);
    lemma_map_of_sorted(e);
    lemma_map_of_sorted(f);
    let m1 = map_of(f);
    let m2 = map_of(e).insert(x.0, x.1);
    assert forall|q: Seq<char>| m1.contains_key(q) implies m2.contains_key(q) && m1[q] == m2[q] by {
        let j = choose|j: int| 0 <= j < f.len() && f[j].0 == q;
        assert(m1.contains_key(f[j].0));
        if j < i {
            assert(f[j] == e[j]);
            assert(map_of(e).contains_key(e[j].0));
            assert(text_lt(f[j].0, f[i].0));
            lemma_text_order(q, x.0, x.0);
        } else if j > i {
            assert(f[j] == e[j - 1]);
            assert(map_of(e).contains_key(e[j - 1].0));
            assert(text_lt(f[i].0, f[j].0));
            lemma_text_order(q, x.0, x.0);
        }
    }
    assert forall|q: Seq<char>| m2.contains_key(q) implies m1.contains_key(q) by {
        if q == x.0 {
            assert(m1.contains_key(f[i].0));
        } else {
            let j = choose|j: int| 0 <= j < e.len() && e[j].0 == q;
            if j < i {
                assert(f[j] == e[j]);
            } else {
                assert(f[j + 1] == e[j]);
            }
        }
    }
    assert(m1 =~= m2);
}

/// Adds an entry to entries kept in strictly increasing order of name; an
/// entry with the same name is replaced.
fn map_insert(entries: &mut Vec<(Name, Value)>, k: Name, v: Value)
    requires
        keys_sorted(entries_view(old(entries)@)),
    ensures
        keys_sorted(entries_view(final(entries)@)),
        map_of(entries_view(final(entries)@)) == map_of(entries_view(old(entries)@)).insert(
            k@,
            v@,
        ),
{
    let ghost e = entries_view(entries@);
    proof {
        lemma_entries_view(entries@);
    }
    let mut i: usize = 0;
    while i < entries.len()
        invariant
            i <= entries@.len(),
            entries@ == old(entries)@,
            e == entries_view(entries@),
            e.len() == entries@.len(),
            forall|p: int| 0 <= p < i ==> text_lt(#[trigger] e[p].0, k@),
        ensures
            i <= entries@.len(),
            entries@ == old(entries)@,
            forall|p: int| 0 <= p < i ==> text_lt(#[trigger] e[p].0, k@),
            i == entries@.len() || e[i as int].0 == k@ || text_lt(k@, e[i as int].0),
        decreases entries@.len() - i,
    {
        let c = compare_strings(&entries[i].0.name, &k.name);
        proof {
            lemma_entries_view(entries@);
        }
        if c >= 0 {
            break;
        }
        i = i + 1;
    }
    let ghost x = (k@, v@);
    proof {
        lemma_entries_view(entries@);
    }
    if i < entries.len() && compare_strings(&entries[i].0.name, &k.name) == 0 {
        let _old = entries.remove(i);
        entries.insert(i, (k, v));
        proof {
            lemma_entries_view(entries@);
            assert(entries_view(entries@) =~= e.update(i as int, x));
            lemma_map_of_update(e, i as int, x);
        }
    } else {
        entries.insert(i, (k, v));
        proof {
            lemma_entries_view(entries@);
            let f = e.insert(i as int, x);
            assert(entries_view(entries@) =~= f);
            assert(keys_sorted(f)) by {
                assert forall|a: int, b: int| 0 <= a < b < f.len() implies text_lt(
                    #[trigger] f[a].0,
                    #[trigger] f[b].0,
                ) by {
                    if b < i {
                    } else if a < i && b == i {
                    } else if a < i && b > i {
                        lemma_text_order(f[a].0, x.0, f[b].0);
                        if i < e.len() {
                            lemma_text_order(x.0, e[i as int].0, f[b].0);
                        }
                    } else if a == i {
                        if i < e.len() {
                            lemma_text_order(x.0, e[i as int].0, f[b].0);
                        }
                    } else {
                    }
                }
            }
            lemma_map_of_insert(e, i as int, x);
        }
    }
}

impl ValueMap {
    #[verifier::type_invariant]
    spec fn sorted(self) -> bool {
        keys_sorted(entries_view(self.entries@))
    }

    /// A map of these entries. A later entry for a name replaces an earlier
    /// one; the entries are kept in code point order of their names.
    pub fn new(entries: Vec<(Name, Value)>) -> (r: ValueMap)
        ensures
            keys_sorted(r@),
            map_of(r@) == map_of(entries_view(entries@)),
    {
        let mut entries = entries;
        let ghost all = entries@;
        let mut kept: Vec<(Name, Value)> = Vec::new();
        let ghost mut taken: int = 0;
        assert(entries_view(kept@) =~= Seq::<(Seq<char>, ValueV)>::empty());
        assert(all.take(0) =~= Seq::<(Name, Value)>::empty());
        while entries.len() > 0
            invariant
                0 <= taken <= all.len(),
                entries@ == all.skip(taken),
                keys_sorted(entries_view(kept@)),
                map_of(entries_view(kept@)) == map_of(entries_view(all.take(taken))),
            decreases entries@.len(),
        {
            let (k, v) = entries.remove(0);
            assert((k, v) == all[taken]);
            let ghost kv = (k@, v@);
            map_insert(&mut kept, k, v);
            proof {
                let s = all.take(taken + 1);
                assert(s.drop_last() =~= all.take(taken));
                assert(entries_view(s) == entries_view(all.take(taken)).push(kv));
                assert(entries_view(s).drop_last() =~= entries_view(all.take(taken)));
                assert(map_of(entries_view(s)) == map_of(entries_view(all.take(taken))).insert(
                    kv.0,
                    kv.1,
                ));
                taken = taken + 1;
            }
            assert(entries@ =~= all.skip(taken));
        }
        assert(all.take(taken) =~= all);
        ValueMap { entries: kept }
    }

    /// The entries, in order of name.
    pub fn into_entries(self) -> (r: Vec<(Name, Value)>)
        ensures
            entries_view(r@) == self@,
    {
        self.entries
    }

    /// Appends the map as it appears in an expression: `name: value`
    /// entries separated by `, `, in braces.
    pub fn write_to(&self, out: &mut String)
        ensures
            final(out)@ == old(out)@ + render_value(ValueV::ValueMap(self@)),
        decreases self,
    {
        out.push('{');
        let ghost start = out@;
        let ghost es = self@;
        let ghost parts = render_entries(es);
        proof {
            lemma_entries_view(self.entries@);
            lemma_render_entries(es);
        }
        let mut i: usize = 0;
        while i < self.entries.len()
            invariant
                i <= self.entries@.len(),
                es == entries_view(self.entries@),
                es.len() == self.entries@.len(),
                parts == render_entries(es),
                parts.len() == es.len(),
                forall|k: int|
                    0 <= k < es.len() ==> #[trigger] parts[k] == es[k].0 + seq![':', ' ']
                        + render_value(es[k].1),
                forall|k: int|
                    0 <= k < es.len() ==> #[trigger] es[k] == (
                        self.entries@[k].0@,
                        value_view(self.entries@[k].1),
                    ),
                out@ == start + join(parts.take(i as int), seq![',', ' ']),
            decreases self.entries@.len() - i,
        {
            if i > 0 {
                out.push(',');
                out.push(' ');
            }
            let ghost before = out@;
            self.entries[i].0.write_to(out);
            out.push(':');
            out.push(' ');
            self.entries[i].1.write_to(out);
            proof {
                assert(out@ =~= before + parts[i as int]);
                lemma_join_push(parts.take(i as int), seq![',', ' '], parts[i as int]);
                assert(parts.take(i + 1) =~= parts.take(i as int).push(parts[i as int]));
            }
            i = i + 1;
            assert(out@ =~= start + join(parts.take(i as int), seq![',', ' ']));
        }
        assert(parts.take(i as int) =~= parts);
        out.push('}');
        assert(final(out)@ =~= old(out)@ + render_value(ValueV::ValueMap(self@)));
    }
}

impl List {
    /// A list of these values, in order.
    pub fn new(list: Vec<Value>) -> (r: List)
        ensures
            r.list == list,
    {
        List { list }
    }

    /// Appends the list as it appears in an expression: the values
    /// separated by `, `, in brackets.
    pub fn write_to(&self, out: &mut String)
        ensures
            final(out)@ == old(out)@ + render_value(ValueV::List(self@)),
        decreases self,
    {
        out.push('[');
        let ghost start = out@;
        let ghost vs = self@;
        let ghost parts = render_values(vs);
        proof {
            lemma_values_view(self.list@);
            lemma_render_values(vs);
        }
        let mut i: usize = 0;
        while i < self.list.len()
            invariant
                i <= self.list@.len(),
                vs == values_view(self.list@),
                vs.len() == self.list@.len(),
                parts == render_values(vs),
                parts.len() == vs.len(),
                forall|k: int| 0 <= k < vs.len() ==> #[trigger] parts[k] == render_value(vs[k]),
                forall|k: int| 0 <= k < vs.len() ==> #[trigger] vs[k] == value_view(self.list@[k]),
                out@ == start + join(parts.take(i as int), seq![',', ' ']),
            decreases self.list@.len() - i,
        {
            if i > 0 {
                out.push(',');
                out.push(' ');
            }
            self.list[i].write_to(out);
            proof {
                lemma_join_push(parts.take(i as int), seq![',', ' '], parts[i as int]);
                assert(parts.take(i + 1) =~= parts.take(i as int).push(parts[i as int]));
            }
            i = i + 1;
            assert(out@ =~= start + join(parts.take(i as int), seq![',', ' ']));
        }
        assert(parts.take(i as int) =~= parts);
        out.push(']');
        assert(final(out)@ =~= old(out)@ + render_value(ValueV::List(self@)));
    }
}

impl List {
    /// The list as it appears in an expression.
    pub fn to_string(&self) -> (r: String)
        ensures
            r@ == render_value(ValueV::List(self@)),
    {
        let mut out = String::new();
        self.write_to(&mut out);
        assert(out@ =~= render_value(ValueV::List(self@)));
        out
    }

    /// Whether two lists hold equal values, in the same order.
    pub fn same(&self, other: &List) -> (r: bool)
        ensures
            r == (self@ == other@),
        decreases self,
    {
        proof {
            lemma_values_view(self.list@);
            lemma_values_view(other.list@);
        }
        if self.list.len() != other.list.len() {
            return false;
        }
        let mut i: usize = 0;
        while i < self.list.len()
            invariant
                i <= self.list@.len(),
                self.list@.len() == other.list@.len(),
                self@.len() == self.list@.len(),
                other@.len() == other.list@.len(),
                forall|k: int| 0 <= k < self.list@.len() ==> #[trigger] self@[k] == value_view(self.list@[k]),
                forall|k: int| 0 <= k < other.list@.len() ==> #[trigger] other@[k] == value_view(other.list@[k]),
                forall|k: int| 0 <= k < i ==> #[trigger] self@[k] == other@[k],
            decreases self.list@.len() - i,
        {
            if !self.list[i].same(&other.list[i]) {
                assert(self@[i as int] != other@[i as int]);
                return false;
            }
            i = i + 1;
        }
        assert(self@ =~= other@);
        true
    }

    /// A copy of this list.
    pub fn clone_list(&self) -> (r: List)
        ensures
            r@ == self@,
        decreases self,
    {
        proof {
            lemma_values_view(self.list@);
        }
        let mut list: Vec<Value> = Vec::new();
        let mut i: usize = 0;
        while i < self.list.len()
            invariant
                i <= self.list@.len(),
                list@.len() == i,
                forall|k: int| 0 <= k < i ==> #[trigger] value_view(list@[k]) == value_view(self.list@[k]),
            decreases self.list@.len() - i,
        {
            let v = self.list[i].clone_value();
            list.push(v);
            i = i + 1;
        }
        proof {
            lemma_values_view(list@);
            assert(values_view(list@) =~= values_view(self.list@));
        }
        List { list }
    }
}

impl ValueMap {
    /// The map as it appears in an expression.
    pub fn to_string(&self) -> (r: String)
        ensures
            r@ == render_value(ValueV::ValueMap(self@)),
    {
        let mut out = String::new();
        self.write_to(&mut out);
        assert(out@ =~= render_value(ValueV::ValueMap(self@)));
        out
    }

    /// Whether two maps hold the same names with equal values.
    pub fn same(&self, other: &ValueMap) -> (r: bool)
        ensures
            r == (self@ == other@),
        decreases self,
    {
        proof {
            lemma_entries_view(self.entries@);
            lemma_entries_view(other.entries@);
        }
        if self.entries.len() != other.entries.len() {
            return false;
        }
        let mut i: usize = 0;
        while i < self.entries.len()
            invariant
                i <= self.entries@.len(),
                self.entries@.len() == other.entries@.len(),
                self@ == entries_view(self.entries@),
                other@ == entries_view(other.entries@),
                self@.len() == self.entries@.len(),
                other@.len() == other.entries@.len(),
                forall|k: int|
                    0 <= k < self.entries@.len() ==> #[trigger] self@[k] == (
                        self.entries@[k].0@,
                        value_view(self.entries@[k].1),
                    ),
                forall|k: int|
                    0 <= k < other.entries@.len() ==> #[trigger] other@[k] == (
                        other.entries@[k].0@,
                        value_view(other.entries@[k].1),
                    ),
                forall|k: int| 0 <= k < i ==> #[trigger] self@[k] == other@[k],
            decreases self.entries@.len() - i,
        {
            if compare_strings(&self.entries[i].0.name, &other.entries[i].0.name) != 0 {
                assert(self@[i as int] != other@[i as int]);
                return false;
            }
            if !self.entries[i].1.same(&other.entries[i].1) {
                assert(self@[i as int] != other@[i as int]);
                return false;
            }
            i = i + 1;
        }
        assert(self@ =~= other@);
        true
    }

    /// A copy of this map.
    pub fn clone_map(&self) -> (r: ValueMap)
        ensures
            r@ == self@,
        decreases self,
    {
        proof {
            use_type_invariant(self);
            lemma_entries_view(self.entries@);
        }
        let mut entries: Vec<(Name, Value)> = Vec::new();
        let mut i: usize = 0;
        while i < self.entries.len()
            invariant
                i <= self.entries@.len(),
                entries@.len() == i,
                forall|k: int|
                    0 <= k < i ==> #[trigger] entries@[k].0@ == self.entries@[k].0@ && value_view(
                        entries@[k].1,
                    ) == value_view(self.entries@[k].1),
            decreases self.entries@.len() - i,
        {
            let n = self.entries[i].0.clone_name();
            let v = self.entries[i].1.clone_value();
            entries.push((n, v));
            i = i + 1;
        }
        proof {
            lemma_entries_view(entries@);
            assert(entries_view(entries@) =~= entries_view(self.entries@));
        }
        ValueMap { entries }
    }
}

impl Value {
    /// A string value.
    pub fn new_string(value: String) -> (r: Value)
        ensures
            r == Value::Scalar(Scalar::String(value)),
    {
        Value::Scalar(Scalar::String(value))
    }

    /// A number in plain decimal form, such as `1000`.
    pub fn new_num(value: i128) -> (r: Value)
        ensures
            r@ == ValueV::Scalar(ScalarV::Num(crate::text::int_text(value as int))),
    {
        Value::Scalar(Scalar::new_num(value))
    }

    /// A number in exponent form with a lowercase `e`, such as `1e3`.
    pub fn new_num_lower_exp(value: i128) -> (r: Value)
        ensures
            r@ == ValueV::Scalar(ScalarV::Num(crate::text::exp_int_text(value as int, false))),
    {
        Value::Scalar(Scalar::new_num_lower_exp(value))
    }

    /// A number in exponent form with an uppercase `E`, such as `1E3`.
    pub fn new_num_upper_exp(value: i128) -> (r: Value)
        ensures
            r@ == ValueV::Scalar(ScalarV::Num(crate::text::exp_int_text(value as int, true))),
    {
        Value::Scalar(Scalar::new_num_upper_exp(value))
    }

    /// A boolean value.
    pub fn new_bool(b: bool) -> (r: Value)
        ensures
            r == Value::Scalar(Scalar::Bool(b)),
    {
        Value::Scalar(Scalar::Bool(b))
    }

    /// A binary value.
    pub fn new_binary(binary: Vec<u8>) -> (r: Value)
        requires
            base64_fits(binary@.len()),
        ensures
            r@ == ValueV::Scalar(ScalarV::Binary(binary@)),
    {
        Value::Scalar(Scalar::new_binary(binary))
    }

    /// The null value.
    pub fn new_null() -> (r: Value)
        ensures
            r == Value::Scalar(Scalar::Null),
    {
        Value::Scalar(Scalar::Null)
    }

    /// A string set value.
    pub fn new_string_set(string_set: StringSet) -> (r: Value)
        ensures
            r == Value::ValueSet(ValueSet::StringSet(string_set)),
    {
        Value::ValueSet(ValueSet::StringSet(string_set))
    }

    /// A number set value.
    pub fn new_num_set(num_set: NumSet) -> (r: Value)
        ensures
            r == Value::ValueSet(ValueSet::NumSet(num_set)),
    {
        Value::ValueSet(ValueSet::NumSet(num_set))
    }

    /// A binary set value.
    pub fn new_binary_set(binary_set: BinarySet) -> (r: Value)
        ensures
            r == Value::ValueSet(ValueSet::BinarySet(binary_set)),
    {
        Value::ValueSet(ValueSet::BinarySet(binary_set))
    }

    /// A map value.
    pub fn new_map(map: ValueMap) -> (r: Value)
        ensures
            r == Value::ValueMap(map),
    {
        Value::ValueMap(map)
    }

    /// A list value.
    pub fn new_list(list: List) -> (r: Value)
        ensures
            r == Value::List(list),
    {
        Value::List(list)
    }

    /// Whether two values are equal: of the same kind and holding the same
    /// contents (sets and maps compared as such, lists in order).
    pub fn same(&self, other: &Value) -> (r: bool)
        ensures
            r == (self@ == other@),
        decreases self,
    {
        match (self, other) {
            (Value::Scalar(a), Value::Scalar(b)) => a.same(b),
            (Value::ValueSet(a), Value::ValueSet(b)) => a.same(b),
            (Value::ValueMap(a), Value::ValueMap(b)) => a.same(b),
            (Value::List(a), Value::List(b)) => a.same(b),
            _ => false,
        }
    }

    /// A copy of this value.
    pub fn clone_value(&self) -> (r: Value)
        ensures
            r@ == self@,
        decreases self,
    {
        match self {
            Value::Scalar(s) => Value::Scalar(s.clone_scalar()),
            Value::ValueSet(s) => Value::ValueSet(s.clone_set()),
            Value::ValueMap(m) => Value::ValueMap(m.clone_map()),
            Value::List(l) => Value::List(l.clone_list()),
        }
    }

    /// Appends the value as it appears in an expression.
    pub fn write_to(&self, out: &mut String)
        ensures
            final(out)@ == old(out)@ + render_value(self@),
        decreases self,
    {
        match self {
            Value::Scalar(s) => s.write_to(out),
            Value::ValueSet(s) => s.write_to(out),
            Value::ValueMap(m) => m.write_to(out),
            Value::List(l) => l.write_to(out),
        }
    }

    /// The value as it appears in an expression.
    pub fn to_string(&self) -> (r: String)
        ensures
            r@ == render_value(self@),
    {
        let mut out = String::new();
        self.write_to(&mut out);
        assert(out@ =~= render_value(self@));
        out
    }
}

impl From<Scalar> for Value {
    fn from(value: Scalar) -> (r: Value) {
        Value::Scalar(value)
    }
}

impl vstd::std_specs::convert::FromSpecImpl<Scalar> for Value {
    open spec fn obeys_from_spec() -> bool {
        true
    }

    open spec fn from_spec(v: Scalar) -> Value {
        Value::Scalar(v)
    }
}

impl From<String> for Value {
    fn from(value: String) -> (r: Value) {
        Value::Scalar(Scalar::String(value))
    }
}

impl vstd::std_specs::convert::FromSpecImpl<String> for Value {
    open spec fn obeys_from_spec() -> bool {
        true
    }

    open spec fn from_spec(v: String) -> Value {
        Value::Scalar(Scalar::String(v))
    }
}

impl From<&str> for Value {
    fn from(value: &str) -> (r: Value)
        ensures
            r@ == ValueV::Scalar(ScalarV::String(value@)),
    {
        Value::Scalar(Scalar::String(string_of(value)))
    }
}

/// The contract of this conversion is on `from` itself.
impl vstd::std_specs::convert::FromSpecImpl<&str> for Value {
    open spec fn obeys_from_spec() -> bool {
        false
    }

    open spec fn from_spec(v: &str) -> Value {
        vstd::pervasive::arbitrary()
    }
}

impl From<Num> for Value {
    fn from(value: Num) -> (r: Value) {
        Value::Scalar(Scalar::Num(value))
    }
}

impl vstd::std_specs::convert::FromSpecImpl<Num> for Value {
    open spec fn obeys_from_spec() -> bool {
        true
    }

    open spec fn from_spec(v: Num) -> Value {
        Value::Scalar(Scalar::Num(v))
    }
}

impl From<bool> for Value {
    fn from(value: bool) -> (r: Value) {
        Value::Scalar(Scalar::Bool(value))
    }
}

impl vstd::std_specs::convert::FromSpecImpl<bool> for Value {
    open spec fn obeys_from_spec() -> bool {
        true
    }

    open spec fn from_spec(v: bool) -> Value {
        Value::Scalar(Scalar::Bool(v))
    }
}

impl From<ValueSet> for Value {
    fn from(value: ValueSet) -> (r: Value) {
        Value::ValueSet(value)
    }
}

impl vstd::std_specs::convert::FromSpecImpl<ValueSet> for Value {
    open spec fn obeys_from_spec() -> bool {
        true
    }

    open spec fn from_spec(v: ValueSet) -> Value {
        Value::ValueSet(v)
    }
}

impl From<StringSet> for Value {
    fn from(value: StringSet) -> (r: Value) {
        Value::ValueSet(ValueSet::StringSet(value))
    }
}

impl vstd::std_specs::convert::FromSpecImpl<StringSet> for Value {
    open spec fn obeys_from_spec() -> bool {
        true
    }

    open spec fn from_spec(v: StringSet) -> Value {
        Value::ValueSet(ValueSet::StringSet(v))
    }
}

impl From<NumSet> for Value {
    fn from(value: NumSet) -> (r: Value) {
        Value::ValueSet(ValueSet::NumSet(value))
    }
}

impl vstd::std_specs::convert::FromSpecImpl<NumSet> for Value {
    open spec fn obeys_from_spec() -> bool {
        true
    }

    open spec fn from_spec(v: NumSet) -> Value {
        Value::ValueSet(ValueSet::NumSet(v))
    }
}

impl From<BinarySet> for Value {
    fn from(value: BinarySet) -> (r: Value) {
        Value::ValueSet(ValueSet::BinarySet(value))
    }
}

impl vstd::std_specs::convert::FromSpecImpl<BinarySet> for Value {
    open spec fn obeys_from_spec() -> bool {
        true
    }

    open spec fn from_spec(v: BinarySet) -> Value {
        Value::ValueSet(ValueSet::BinarySet(v))
    }
}

impl From<ValueMap> for Value {
    fn from(value: ValueMap) -> (r: Value) {
        Value::ValueMap(value)
    }
}

impl vstd::std_specs::convert::FromSpecImpl<ValueMap> for Value {
    open spec fn obeys_from_spec() -> bool {
        true
    }

    open spec fn from_spec(v: ValueMap) -> Value {
        Value::ValueMap(v)
    }
}

impl From<List> for Value {
    fn from(value: List) -> (r: Value) {
        Value::List(value)
    }
}

impl vstd::std_specs::convert::FromSpecImpl<List> for Value {
    open spec fn obeys_from_spec() -> bool {
        true
    }

    open spec fn from_spec(v: List) -> Value {
        Value::List(v)
    }
}

} // verus!
