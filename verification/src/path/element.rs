//! The elements of a document path: attribute names and indexed fields.
use vstd::prelude::*;

use super::name::Name;
use crate::text::{
    decimal, find_char, first_index, has_char, is_digit, lemma_decimal_digits,
    lemma_first_index, lemma_first_index_concat, lemma_parse_decimal, parse_usize,
    parse_usize_spec, string_from, write_str, write_usize,
};

verus! {

/// A path element failed to parse, or a path did.
#[derive(Debug)]
pub struct PathParseError;

impl PathParseError {
    /// The message that describes this error.
    pub fn to_string(&self) -> (r: String)
        ensures
            r@ == "invalid document path"@,
    {
        String::from_str("invalid document path")
    }
}

/// A name with one or more indexes, such as `foo[3][7]`.
#[derive(Debug)]
pub struct IndexedField {
    name: Name,
    indexes: Vec<usize>,
}

impl IndexedField {
    /// An indexed field always has at least one index; a name with none is
    /// an `Element::Name`.
    #[verifier::type_invariant]
    spec fn has_indexes(self) -> bool {
        self.indexes@.len() > 0
    }
}

impl View for IndexedField {
    type V = (Seq<char>, Seq<usize>);

    /// The name and the indexes.
    closed spec fn view(&self) -> (Seq<char>, Seq<usize>) {
        (self.name@, self.indexes@)
    }
}

/// One element of a document path: `foo[3][7]`, `bar[2]` and `baz` in
/// `foo[3][7].bar[2].baz`.
#[derive(Debug)]
pub enum Element {
    Name(Name),
    IndexedField(IndexedField),
}

/// The rendering of indexes: `[i]` for each, in order.
pub open spec fn render_indexes(ix: Seq<usize>) -> Seq<char>
    decreases ix.len(),
{
    if ix.len() == 0 {
        seq![]
    } else {
        render_indexes(ix.drop_last()) + seq!['['] + decimal(ix.last() as nat) + seq![']']
    }
}

impl Element {
    /// The attribute name of this element.
    pub open spec fn spec_name(&self) -> Seq<char> {
        match self {
            Element::Name(n) => n@,
            Element::IndexedField(f) => f@.0,
        }
    }

    /// The indexes of this element (none for a plain name).
    pub open spec fn spec_indexes(&self) -> Seq<usize> {
        match self {
            Element::Name(_) => seq![],
            Element::IndexedField(f) => f@.1,
        }
    }

    /// The element as it appears in an expression: the name, then `[i]` for
    /// each index.
    pub open spec fn render(&self) -> Seq<char> {
        self.spec_name() + render_indexes(self.spec_indexes())
    }

    /// An attribute name element.
    pub fn new_name(name: Name) -> (r: Element)
        ensures
            r == Element::Name(name),
    {
        Element::Name(name)
    }

    /// An indexed field element, such as `foo[3]` or `foo[7][4]`; a plain name
    /// when there are no indexes.
    pub fn new_indexed_field<I: Indexes>(name: Name, indexes: I) -> (r: Element)
        ensures
            r.spec_name() == name@,
            r.spec_indexes() == indexes.spec_indexes(),
            r is Name <==> indexes.spec_indexes().len() == 0,
    {
        let indexes = indexes.into_indexes();
        if indexes.len() == 0 {
            Element::Name(name)
        } else {
            Element::IndexedField(IndexedField { name, indexes })
        }
    }

    /// Appends the element as it appears in an expression.
    pub fn write_to(&self, out: &mut String)
        ensures
            final(out)@ == old(out)@ + self.render(),
    {
        self.name_ref().write_to(out);
        self.write_indexes(out);
        assert(final(out)@ =~= old(out)@ + self.render());
    }

    /// The attribute name of this element.
    pub fn name_ref(&self) -> (r: &Name)
        ensures
            r@ == self.spec_name(),
    {
        match self {
            Element::Name(n) => n,
            Element::IndexedField(f) => &f.name,
        }
    }

    /// Appends `[i]` for each index of this element.
    pub fn write_indexes(&self, out: &mut String)
        ensures
            final(out)@ == old(out)@ + render_indexes(self.spec_indexes()),
    {
        match self {
            Element::Name(_) => {
                assert(final(out)@ =~= old(out)@ + render_indexes(self.spec_indexes()));
            },
            Element::IndexedField(f) => {
                let ghost start = out@;
                let mut i: usize = 0;
                assert(f.indexes@.take(0) =~= Seq::<usize>::empty());
                while i < f.indexes.len()
                    invariant
                        i <= f.indexes@.len(),
                        out@ == start + render_indexes(f.indexes@.take(i as int)),
                    decreases f.indexes@.len() - i,
                {
                    out.push('[');
                    write_usize(out, f.indexes[i]);
                    out.push(']');
                    assert(f.indexes@.take(i + 1).drop_last() =~= f.indexes@.take(i as int));
                    i = i + 1;
                    assert(out@ =~= start + render_indexes(f.indexes@.take(i as int)));
                }
                assert(f.indexes@.take(i as int) =~= f.indexes@);
                assert(final(out)@ =~= old(out)@ + render_indexes(self.spec_indexes()));
            },
        }
    }

    /// The element as it appears in an expression.
    pub fn to_string(&self) -> (r: String)
        ensures
            r@ == self.render(),
    {
        let mut out = String::new();
        self.write_to(&mut out);
        out
    }

    /// A copy of this element.
    pub fn clone_element(&self) -> (r: Element)
        ensures
            r.spec_name() == self.spec_name(),
            r.spec_indexes() == self.spec_indexes(),
            r is Name <==> self is Name,
    {
        match self {
            Element::Name(n) => Element::Name(n.clone_name()),
            Element::IndexedField(f) => {
                proof {
                    use_type_invariant(f);
                }
                Element::IndexedField(
                    IndexedField { name: f.name.clone_name(), indexes: f.indexes.clone() },
                )
            },
        }
    }

    /// Parses an element from text: a name with no brackets, or a non-empty
    /// name followed by one or more `[i]`, each `i` a `usize` literal.
    pub fn parse(s: &str) -> (r: Result<Element, PathParseError>)
        ensures
            element_parses_to(s@, r),
    {
        let v = crate::text::chars_of(s);
        assert(v@.subrange(0, v@.len() as int) =~= s@);
        parse_element_chars(&v, 0, v.len())
    }
}

/// What parsing an element gives: the name and indexes of a well-formed
/// element, or an error.
pub open spec fn element_parses_to(s: Seq<char>, r: Result<Element, PathParseError>) -> bool {
    match parse_element_spec(s) {
        Some((n, ix)) => r matches Ok(e) && e.spec_name() == n && e.spec_indexes() == ix && (
        e is Name <==> ix.len() == 0),
        None => r is Err,
    }
}

/// The indexes `[i][j]...` that make up all of `s`, or `None` when `s` is not
/// such a sequence. Each index runs to the first `]` after its `[`.
pub open spec fn parse_indexes_spec(s: Seq<char>) -> Option<Seq<usize>>
    decreases s.len(),
{
    if s.len() == 0 {
        Some(seq![])
    } else if s[0] != '[' || !has_char(s, ']') {
        None
    } else {
        let c = first_index(s, ']');
        if c <= 0 {
            None
        } else {
            match parse_usize_spec(s.subrange(1, c)) {
                None => None,
                Some(v) => match parse_indexes_spec(s.skip(c + 1)) {
                    Some(rest) => Some(seq![v] + rest),
                    None => None,
                },
            }
        }
    }
}

/// The name and indexes of a path element written as `s`: with no brackets,
/// all of `s` is the name; otherwise the name is the non-empty text before
/// the first `[`, holding no `]`, and the rest is one or more indexes.
pub open spec fn parse_element_spec(s: Seq<char>) -> Option<(Seq<char>, Seq<usize>)> {
    if !has_char(s, '[') && !has_char(s, ']') {
        Some((s, seq![]))
    } else if !has_char(s, '[') {
        None
    } else {
        let o = first_index(s, '[');
        if o == 0 || has_char(s.take(o), ']') {
            None
        } else {
            match parse_indexes_spec(s.skip(o)) {
                Some(ix) => Some((s.take(o), ix)),
                None => None,
            }
        }
    }
}

/// Parses `v[lo..hi]` as a sequence of indexes.
fn parse_indexes_chars(v: &Vec<char>, lo: usize, hi: usize) -> (r: Option<Vec<usize>>)
    requires
        lo <= hi <= v@.len(),
    ensures
        match parse_indexes_spec(v@.subrange(lo as int, hi as int)) {
            Some(ix) => r matches Some(w) && w@ == ix,
            None => r is None,
        },
{
    let ghost whole = v@.subrange(lo as int, hi as int);
    let mut indexes: Vec<usize> = Vec::new();
    let mut pos = lo;
    while pos < hi
        invariant
            lo <= pos <= hi <= v@.len(),
            whole == v@.subrange(lo as int, hi as int),
            parse_indexes_spec(whole) == match parse_indexes_spec(
                v@.subrange(pos as int, hi as int),
            ) {
                Some(rest) => Some(indexes@ + rest),
                None => None::<Seq<usize>>,
            },
        decreases hi - pos,
    {
        let ghost s = v@.subrange(pos as int, hi as int);
        if v[pos] != '[' {
            assert(s[0] != '[');
            return None;
        }
        let c = find_char(v, pos, hi, ']');
        if c == hi {
            return None;
        }
        assert(s[0] == '[');
        proof {
            lemma_first_index(s, ']');
        }
        let parsed = parse_usize(v, pos + 1, c);
        assert(s.subrange(1, c - pos) =~= v@.subrange(pos + 1, c as int));
        assert(s.skip(c - pos + 1) =~= v@.subrange(c + 1, hi as int));
        match parsed {
            None => {
                return None;
            },
            Some(val) => {
                let ghost before = indexes@;
                indexes.push(val);
                pos = c + 1;
                proof {
                    let rest = parse_indexes_spec(v@.subrange(pos as int, hi as int));
                    if let Some(r) = rest {
                        assert(before + (seq![val] + r) =~= indexes@ + r);
                    }
                }
            },
        }
    }
    assert(v@.subrange(pos as int, hi as int) =~= Seq::<char>::empty());
    assert(indexes@ + Seq::<usize>::empty() =~= indexes@);
    Some(indexes)
}

/// Parses `v[lo..hi]` as a path element.
pub(crate) fn parse_element_chars(v: &Vec<char>, lo: usize, hi: usize) -> (r: Result<
    Element,
    PathParseError,
>)
    requires
        lo <= hi <= v@.len(),
    ensures
        element_parses_to(v@.subrange(lo as int, hi as int), r),
{
    let ghost s = v@.subrange(lo as int, hi as int);
    let o = find_char(v, lo, hi, '[');
    let cl = find_char(v, lo, hi, ']');
    proof {
        lemma_first_index(s, '[');
        lemma_first_index(s, ']');
    }
    if o == hi && cl == hi {
        let n = string_from(v, lo, hi);
        return Ok(Element::Name(Name { name: n }));
    }
    if o == hi || o == lo {
        return Err(PathParseError);
    }
    let ghost head = s.take(o - lo);
    proof {
        lemma_first_index(head, ']');
        if cl < o {
            assert(head[cl - lo] == ']');
        } else {
            assert forall|j: int| 0 <= j < head.len() implies head[j] != ']' by {
                assert(head[j] == s[j]);
            }
        }
    }
    if cl < o {
        return Err(PathParseError);
    }
    let parsed = parse_indexes_chars(v, o, hi);
    assert(s.skip(o - lo) =~= v@.subrange(o as int, hi as int));
    match parsed {
        None => Err(PathParseError),
        Some(indexes) => {
            let n = string_from(v, lo, o);
            assert(n@ =~= s.take(o - lo));
            proof {
                let t = v@.subrange(o as int, hi as int);
                assert(t.len() > 0);
                assert(t[0] == '[');
            }
            Ok(Element::IndexedField(IndexedField { name: Name { name: n }, indexes }))
        },
    }
}

/// Indexes for an indexed field: a single `usize`, or an array, slice or
/// `Vec` of them.
pub trait Indexes: Sized {
    /// The indexes, in order.
    spec fn spec_indexes(&self) -> Seq<usize>;

    /// The indexes, in order.
    fn into_indexes(self) -> (r: Vec<usize>)
        ensures
            r@ == self.spec_indexes(),
    ;
}

impl Indexes for usize {
    open spec fn spec_indexes(&self) -> Seq<usize> {
        seq![*self]
    }

    fn into_indexes(self) -> (r: Vec<usize>) {
        let mut v = Vec::new();
        v.push(self);
        assert(v@ =~= seq![self]);
        v
    }
}

impl Indexes for Vec<usize> {
    open spec fn spec_indexes(&self) -> Seq<usize> {
        self@
    }

    fn into_indexes(self) -> (r: Vec<usize>) {
        self
    }
}

impl<'a> Indexes for &'a [usize] {
    open spec fn spec_indexes(&self) -> Seq<usize> {
        self@
    }

    fn into_indexes(self) -> (r: Vec<usize>) {
        let mut v = Vec::new();
        let mut i: usize = 0;
        while i < self.len()
            invariant
                i <= self@.len(),
                v@ == self@.take(i as int),
            decreases self@.len() - i,
        {
            v.push(self[i]);
            i = i + 1;
            assert(v@ =~= self@.take(i as int));
        }
        assert(self@.take(i as int) =~= self@);
        v
    }
}

impl<const N: usize> Indexes for [usize; N] {
    open spec fn spec_indexes(&self) -> Seq<usize> {
        self@
    }

    fn into_indexes(self) -> (r: Vec<usize>) {
        let mut v = Vec::new();
        let mut i: usize = 0;
        while i < N
            invariant
                i <= N,
                self@.len() == N,
                v@ == self@.take(i as int),
            decreases N - i,
        {
            v.push(self[i]);
            i = i + 1;
            assert(v@ =~= self@.take(i as int));
        }
        assert(self@.take(i as int) =~= self@);
        v
    }
}

/// A name that parsing keeps whole: it holds no `.`, `[` or `]`.
pub open spec fn plain_name(n: Seq<char>) -> bool {
    !has_char(n, '.') && !has_char(n, '[') && !has_char(n, ']')
}

/// Rendered indexes, seen from the front: the first index, then the rest.
pub proof fn lemma_render_indexes_front(ix: Seq<usize>)
    requires
        ix.len() > 0,
    ensures
        render_indexes(ix) == seq!['['] + decimal(ix[0] as nat) + seq![']'] + render_indexes(
            ix.drop_first(),
        ),
    decreases ix.len(),
{
    if ix.len() == 1 {
        assert(ix.drop_first() =~= Seq::<usize>::empty());
        assert(ix.drop_last() =~= Seq::<usize>::empty());
        assert(render_indexes(ix) =~= seq!['['] + decimal(ix[0] as nat) + seq![']']);
    } else {
        lemma_render_indexes_front(ix.drop_last());
        assert(ix.drop_last().drop_first() =~= ix.drop_first().drop_last());
        assert(ix.drop_first().last() == ix.last());
        assert(ix.drop_last()[0] == ix[0]);
        assert(render_indexes(ix) =~= seq!['['] + decimal(ix[0] as nat) + seq![']']
            + render_indexes(ix.drop_first()));
    }
}

/// Rendered indexes hold only brackets and digits.
pub proof fn lemma_render_indexes_chars(ix: Seq<usize>)
    ensures
        forall|i: int|
            0 <= i < render_indexes(ix).len() ==> #[trigger] render_indexes(ix)[i] == '['
                || render_indexes(ix)[i] == ']' || is_digit(render_indexes(ix)[i]),
    decreases ix.len(),
{
    if ix.len() > 0 {
        lemma_render_indexes_chars(ix.drop_last());
        lemma_decimal_digits(ix.last() as nat);
        let a = render_indexes(ix.drop_last());
        let d = decimal(ix.last() as nat);
        let s = render_indexes(ix);
        assert(s == a + seq!['['] + d + seq![']']);
        assert forall|i: int| 0 <= i < s.len() implies #[trigger] s[i] == '[' || s[i] == ']'
            || is_digit(s[i]) by {
            if i < a.len() {
                assert(s[i] == a[i]);
            } else if i == a.len() {
            } else if i < a.len() + 1 + d.len() {
                assert(s[i] == d[i - a.len() - 1]);
            }
        }
    }
}

/// Parsing rendered indexes gives them back.
#[verifier::rlimit(30)]
pub proof fn lemma_parse_indexes_render(ix: Seq<usize>)
    ensures
        parse_indexes_spec(render_indexes(ix)) == Some(ix),
    decreases ix.len(),
{
    if ix.len() > 0 {
        lemma_render_indexes_front(ix);
        lemma_decimal_digits(ix[0] as nat);
        let d = decimal(ix[0] as nat);
        let rest = render_indexes(ix.drop_first());
        let s = render_indexes(ix);
        let head = seq!['['] + d;
        let tail = seq![']'] + rest;
        assert(s =~= head + tail);
        lemma_first_index(head, ']');
        assert forall|j: int| 0 <= j < head.len() implies head[j] != ']' by {
            if j > 0 {
                assert(head[j] == d[j - 1]);
                assert(is_digit(d[j - 1]));
            }
        }
        lemma_first_index_concat(head, tail, ']');
        lemma_first_index(tail, ']');
        assert(first_index(tail, ']') == 0);
        let c = first_index(s, ']');
        assert(c == 1 + d.len());
        assert(s.subrange(1, c) =~= d);
        lemma_parse_decimal(ix[0]);
        assert(s.skip(c + 1) =~= rest);
        lemma_parse_indexes_render(ix.drop_first());
        assert(seq![ix[0]] + ix.drop_first() =~= ix);
        lemma_first_index(s, ']');
    } else {
        assert(render_indexes(ix) =~= Seq::<char>::empty());
        assert(ix =~= Seq::<usize>::empty());
    }
}

/// Parsing a rendered element gives back its name and indexes, when the
/// name holds no `.`, `[` or `]` and, for an indexed field, is not empty.
pub proof fn lemma_parse_element_render(n: Seq<char>, ix: Seq<usize>)
    requires
        plain_name(n),
        ix.len() > 0 ==> n.len() > 0,
    ensures
        parse_element_spec(n + render_indexes(ix)) == Some((n, ix)),
{
    let r = render_indexes(ix);
    let s = n + r;
    if ix.len() == 0 {
        assert(r =~= Seq::<char>::empty());
        assert(s =~= n);
        assert(ix =~= Seq::<usize>::empty());
    } else {
        lemma_render_indexes_front(ix);
        assert(r[0] == '[');
        lemma_first_index(r, '[');
        assert(first_index(r, '[') == 0);
        lemma_first_index_concat(n, r, '[');
        assert(first_index(s, '[') == n.len());
        assert(s.take(n.len() as int) =~= n);
        assert(s.skip(n.len() as int) =~= r);
        lemma_parse_indexes_render(ix);
        lemma_first_index(s, '[');
    }
}

} // verus!
