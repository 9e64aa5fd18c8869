//! DynamoDB sets: of strings, of numbers, and of binary values. Each holds
//! its members once, in order.
use vstd::prelude::*;

use super::encode::{base64_fits, base64_text, debug_string, debug_text};
use super::num::Num;
use super::order::{
    bytes_lt, compare_strings, lemma_bytes_order, lemma_insert_to_set, lemma_text_order, text_lt,
};
use super::scalar::Bytes;
use crate::text::{join, lemma_join_push, string_of, write_str};

verus! {

/// The texts of some strings.
pub open spec fn texts_of(v: Seq<String>) -> Seq<Seq<char>> {
    v.map_values(|s: String| s@)
}

/// The texts of some numbers.
pub open spec fn nums_of(v: Seq<Num>) -> Seq<Seq<char>> {
    v.map_values(|n: Num| n@)
}

/// The bytes of some binary values.
pub open spec fn bytes_of(v: Seq<Bytes>) -> Seq<Seq<u8>> {
    v.map_values(|b: Bytes| b@)
}

/// The byte strings of some vectors.
pub open spec fn vecs_of(v: Seq<Vec<u8>>) -> Seq<Seq<u8>> {
    v.map_values(|b: Vec<u8>| b@)
}

/// Texts in strictly increasing order.
pub open spec fn texts_sorted(s: Seq<Seq<char>>) -> bool {
    forall|i: int, j: int| 0 <= i < j < s.len() ==> text_lt(#[trigger] s[i], #[trigger] s[j])
}

/// Binary values in strictly increasing order.
pub open spec fn binaries_sorted(s: Seq<Seq<u8>>) -> bool {
    forall|i: int, j: int| 0 <= i < j < s.len() ==> bytes_lt(#[trigger] s[i], #[trigger] s[j])
}

/// Inserts a text into a sorted vector of strings, unless it is there
/// already.
fn insert_text(items: &mut Vec<String>, x: String)
    requires
        texts_sorted(texts_of(old(items)@)),
    ensures
        texts_sorted(texts_of(final(items)@)),
        texts_of(final(items)@).to_set() == texts_of(old(items)@).to_set().insert(x@),
{
    let ghost before = texts_of(items@);
    let mut i: usize = 0;
    while i < items.len()
        invariant
            i <= items@.len(),
            items@ == old(items)@,
            before == texts_of(items@),
            texts_sorted(before),
            forall|k: int| 0 <= k < i ==> text_lt(#[trigger] before[k], x@),
        ensures
            i <= items@.len(),
            items@ == old(items)@,
            forall|k: int| 0 <= k < i ==> text_lt(#[trigger] before[k], x@),
            i == items@.len() || text_lt(x@, before[i as int]),
        decreases items@.len() - i,
    {
        let c = compare_strings(&items[i], &x);
        if c == 0 {
            proof {
                assert(before[i as int] == x@);
                assert(before.to_set().contains(x@));
                assert(before.to_set().insert(x@) =~= before.to_set());
            }
            return;
        }
        if c > 0 {
            break;
        }
        i = i + 1;
    }
    let ghost xv = x@;
    items.insert(i, x);
    proof {
        let after = texts_of(items@);
        assert(after =~= before.insert(i as int, xv));
        lemma_insert_to_set(before, i as int, xv);
        assert forall|a: int, b: int| 0 <= a < b < after.len() implies text_lt(
            #[trigger] after[a],
            #[trigger] after[b],
        ) by {
            if b < i {
            } else if a < i && b == i {
            } else if a < i && b > i {
                lemma_text_order(after[a], xv, after[b]);
                if i < before.len() {
                    lemma_text_order(xv, before[i as int], after[b]);
                }
            } else if a == i {
                if i < before.len() {
                    lemma_text_order(xv, before[i as int], after[b]);
                    if b - 1 > i {
                        lemma_text_order(xv, before[i as int], before[b - 1]);
                    }
                }
            } else {
            }
        }
    }
}

/// Inserts binary data into a sorted vector, unless it is there already.
fn insert_binary(items: &mut Vec<Bytes>, x: Bytes)
    requires
        binaries_sorted(bytes_of(old(items)@)),
    ensures
        binaries_sorted(bytes_of(final(items)@)),
        bytes_of(final(items)@).to_set() == bytes_of(old(items)@).to_set().insert(x@),
{
    let ghost before = bytes_of(items@);
    let mut i: usize = 0;
    while i < items.len()
        invariant
            i <= items@.len(),
            items@ == old(items)@,
            before == bytes_of(items@),
            binaries_sorted(before),
            forall|k: int| 0 <= k < i ==> bytes_lt(#[trigger] before[k], x@),
        ensures
            i <= items@.len(),
            items@ == old(items)@,
            forall|k: int| 0 <= k < i ==> bytes_lt(#[trigger] before[k], x@),
            i == items@.len() || bytes_lt(x@, before[i as int]),
        decreases items@.len() - i,
    {
        let c = items[i].compare(&x);
        if c == 0 {
            proof {
                assert(before[i as int] == x@);
                assert(before.to_set().contains(x@));
                assert(before.to_set().insert(x@) =~= before.to_set());
            }
            return;
        }
        if c > 0 {
            break;
        }
        i = i + 1;
    }
    let ghost xv = x@;
    items.insert(i, x);
    proof {
        let after = bytes_of(items@);
        assert(after =~= before.insert(i as int, xv));
        lemma_insert_to_set(before, i as int, xv);
        assert forall|a: int, b: int| 0 <= a < b < after.len() implies bytes_lt(
            #[trigger] after[a],
            #[trigger] after[b],
        ) by {
            if b < i {
            } else if a < i && b == i {
            } else if a < i && b > i {
                lemma_bytes_order(after[a], xv, after[b]);
                if i < before.len() {
                    lemma_bytes_order(xv, before[i as int], after[b]);
                }
            } else if a == i {
                if i < before.len() {
                    lemma_bytes_order(xv, before[i as int], after[b]);
                    if b - 1 > i {
                        lemma_bytes_order(xv, before[i as int], before[b - 1]);
                    }
                }
            } else {
            }
        }
    }
}

/// A DynamoDB string set: each string once, in code point order.
pub struct StringSet {
    items: Vec<String>,
}

impl View for StringSet {
    type V = Seq<Seq<char>>;

    closed spec fn view(&self) -> Seq<Seq<char>> {
        texts_of(self.items@)
    }
}

impl StringSet {
    #[verifier::type_invariant]
    spec fn sorted(self) -> bool {
        texts_sorted(texts_of(self.items@))
    }

    /// A string set of these strings: duplicates are dropped and the rest
    /// kept in order.
    pub fn new(values: Vec<String>) -> (r: StringSet)
        ensures
            texts_sorted(r@),
            r@.to_set() == texts_of(values@).to_set(),
    {
        let mut values = values;
        let ghost all = values@;
        let mut items: Vec<String> = Vec::new();
        let ghost mut taken: int = 0;
        assert(texts_of(items@).to_set() =~= texts_of(all.take(0)).to_set());
        while values.len() > 0
            invariant
                0 <= taken <= all.len(),
                values@ == all.skip(taken),
                texts_sorted(texts_of(items@)),
                texts_of(items@).to_set() == texts_of(all.take(taken)).to_set(),
            decreases values@.len(),
        {
            let x = values.remove(0);
            assert(x == all[taken]);
            insert_text(&mut items, x);
            proof {
                assert(texts_of(all.take(taken + 1)) =~= texts_of(all.take(taken)).push(
                    all[taken]@,
                ));
                lemma_insert_to_set(
                    texts_of(all.take(taken)),
                    texts_of(all.take(taken)).len() as int,
                    all[taken]@,
                );
                assert(texts_of(all.take(taken)).insert(
                    texts_of(all.take(taken)).len() as int,
                    all[taken]@,
                ) =~= texts_of(all.take(taken)).push(all[taken]@));
                taken = taken + 1;
            }
            assert(values@ =~= all.skip(taken));
        }
        assert(all.take(taken) =~= all);
        StringSet { items }
    }

    /// Appends the set as it appears in an expression: each member quoted as
    /// `Debug` quotes it, separated by `, `, in brackets.
    pub fn write_to(&self, out: &mut String)
        ensures
            final(out)@ == old(out)@ + render_string_set(self@),
    {
        out.push('[');
        let ghost start = out@;
        let ghost parts = self@.map_values(|t: Seq<char>| debug_text(t));
        let mut i: usize = 0;
        while i < self.items.len()
            invariant
                i <= self.items@.len(),
                parts == self@.map_values(|t: Seq<char>| debug_text(t)),
                self@ == texts_of(self.items@),
                out@ == start + join(parts.take(i as int), seq![',', ' ']),
            decreases self.items@.len() - i,
        {
            if i > 0 {
                out.push(',');
                out.push(' ');
            }
            let d = debug_string(self.items[i].as_str());
            write_str(out, d.as_str());
            proof {
                lemma_join_push(parts.take(i as int), seq![',', ' '], parts[i as int]);
                assert(parts.take(i + 1) =~= parts.take(i as int).push(parts[i as int]));
            }
            i = i + 1;
            assert(out@ =~= start + join(parts.take(i as int), seq![',', ' ']));
        }
        assert(parts.take(i as int) =~= parts);
        out.push(']');
        assert(final(out)@ =~= old(out)@ + render_string_set(self@));
    }

    /// A copy of this set.
    pub fn clone_set(&self) -> (r: StringSet)
        ensures
            r@ == self@,
    {
        proof {
            use_type_invariant(self);
        }
        let mut items: Vec<String> = Vec::new();
        let mut i: usize = 0;
        while i < self.items.len()
            invariant
                i <= self.items@.len(),
                items@.len() == i,
                texts_of(items@) == texts_of(self.items@).take(i as int),
            decreases self.items@.len() - i,
        {
            items.push(string_of(self.items[i].as_str()));
            assert(texts_of(items@)[i as int] == texts_of(self.items@)[i as int]);
            i = i + 1;
            assert(texts_of(items@) =~= texts_of(self.items@).take(i as int));
        }
        assert(texts_of(self.items@).take(i as int) =~= texts_of(self.items@));
        StringSet { items }
    }

    /// The members, in order.
    pub fn members(&self) -> (r: Vec<String>)
        ensures
            texts_of(r@) == self@,
    {
        let mut r: Vec<String> = Vec::new();
        let mut i: usize = 0;
        while i < self.items.len()
            invariant
                i <= self.items@.len(),
                r@.len() == i,
                texts_of(r@) == texts_of(self.items@).take(i as int),
            decreases self.items@.len() - i,
        {
            r.push(self.items[i].clone());
            assert(texts_of(r@)[i as int] == texts_of(self.items@)[i as int]);
            i = i + 1;
            assert(texts_of(r@) =~= texts_of(self.items@).take(i as int));
        }
        assert(texts_of(self.items@).take(i as int) =~= texts_of(self.items@));
        r
    }

    /// Whether two sets hold the same members.
    pub fn same(&self, other: &StringSet) -> (r: bool)
        ensures
            r == (self@ == other@),
    {
        same_texts(&self.items, &other.items)
    }
}

/// Whether two vectors of strings hold the same texts, in the same order.
fn same_texts(a: &Vec<String>, b: &Vec<String>) -> (r: bool)
    ensures
        r == (texts_of(a@) == texts_of(b@)),
{
    if a.len() != b.len() {
        proof {
            if texts_of(a@) == texts_of(b@) {
                assert(texts_of(a@).len() == texts_of(b@).len());
            }
        }
        return false;
    }
    let mut i: usize = 0;
    while i < a.len()
        invariant
            i <= a@.len(),
            a@.len() == b@.len(),
            texts_of(a@).take(i as int) == texts_of(b@).take(i as int),
        decreases a@.len() - i,
    {
        if compare_strings(&a[i], &b[i]) != 0 {
            proof {
                if texts_of(a@) == texts_of(b@) {
                    assert(texts_of(a@)[i as int] == texts_of(b@)[i as int]);
                }
            }
            return false;
        }
        i = i + 1;
        assert(texts_of(a@).take(i as int) =~= texts_of(b@).take(i as int)) by {
            assert forall|k: int| 0 <= k < i implies texts_of(a@)[k] == texts_of(b@)[k] by {
                if k < i - 1 {
                    assert(texts_of(a@).take(i - 1)[k] == texts_of(b@).take(i - 1)[k]);
                }
            }
        }
    }
    assert(texts_of(a@) =~= texts_of(a@).take(i as int));
    assert(texts_of(b@) =~= texts_of(b@).take(i as int));
    true
}

/// A DynamoDB number set: each number once, in the order of its text.
pub struct NumSet {
    items: Vec<String>,
}

impl View for NumSet {
    type V = Seq<Seq<char>>;

    closed spec fn view(&self) -> Seq<Seq<char>> {
        texts_of(self.items@)
    }
}

impl NumSet {
    #[verifier::type_invariant]
    spec fn sorted(self) -> bool {
        texts_sorted(texts_of(self.items@))
    }

    /// A number set of these numbers: duplicates (by text) are dropped and
    /// the rest kept in the order of their text.
    pub fn new(values: Vec<Num>) -> (r: NumSet)
        ensures
            texts_sorted(r@),
            r@.to_set() == nums_of(values@).to_set(),
    {
        let mut values = values;
        let ghost all = values@;
        let mut set = NumSet { items: Vec::new() };
        let ghost mut taken: int = 0;
        assert(set@.to_set() =~= nums_of(all.take(0)).to_set());
        while values.len() > 0
            invariant
                0 <= taken <= all.len(),
                values@ == all.skip(taken),
                set@.to_set() == nums_of(all.take(taken)).to_set(),
            decreases values@.len(),
        {
            let x = values.remove(0);
            assert(x == all[taken]);
            set.insert(x);
            proof {
                assert(nums_of(all.take(taken + 1)) =~= nums_of(all.take(taken)).push(
                    all[taken]@,
                ));
                lemma_insert_to_set(
                    nums_of(all.take(taken)),
                    nums_of(all.take(taken)).len() as int,
                    all[taken]@,
                );
                assert(nums_of(all.take(taken)).insert(
                    nums_of(all.take(taken)).len() as int,
                    all[taken]@,
                ) =~= nums_of(all.take(taken)).push(all[taken]@));
                taken = taken + 1;
            }
            assert(values@ =~= all.skip(taken));
        }
        assert(all.take(taken) =~= all);
        proof {
            use_type_invariant(&set);
        }
        set
    }

    /// Adds a number to the set, unless a number with the same text is in it
    /// already.
    pub fn insert(&mut self, num: Num)
        ensures
            texts_sorted(final(self)@),
            final(self)@.to_set() == old(self)@.to_set().insert(num@),
    {
        proof {
            use_type_invariant(&*self);
        }
        let mut items = Vec::new();
        std::mem::swap(&mut items, &mut self.items);
        insert_text(&mut items, num.into_string());
        self.items = items;
    }

    /// Appends the set as it appears in an expression: the numbers separated
    /// by `, `, in brackets.
    pub fn write_to(&self, out: &mut String)
        ensures
            final(out)@ == old(out)@ + render_num_set(self@),
    {
        out.push('[');
        let ghost start = out@;
        let ghost parts = self@;
        let mut i: usize = 0;
        while i < self.items.len()
            invariant
                i <= self.items@.len(),
                parts == self@,
                self@ == texts_of(self.items@),
                out@ == start + join(parts.take(i as int), seq![',', ' ']),
            decreases self.items@.len() - i,
        {
            if i > 0 {
                out.push(',');
                out.push(' ');
            }
            write_str(out, self.items[i].as_str());
            proof {
                lemma_join_push(parts.take(i as int), seq![',', ' '], parts[i as int]);
                assert(parts.take(i + 1) =~= parts.take(i as int).push(parts[i as int]));
            }
            i = i + 1;
            assert(out@ =~= start + join(parts.take(i as int), seq![',', ' ']));
        }
        assert(parts.take(i as int) =~= parts);
        out.push(']');
        assert(final(out)@ =~= old(out)@ + render_num_set(self@));
    }

    /// A copy of this set.
    pub fn clone_set(&self) -> (r: NumSet)
        ensures
            r@ == self@,
    {
        proof {
            use_type_invariant(self);
        }
        let mut items: Vec<String> = Vec::new();
        let mut i: usize = 0;
        while i < self.items.len()
            invariant
                i <= self.items@.len(),
                items@.len() == i,
                texts_of(items@) == texts_of(self.items@).take(i as int),
            decreases self.items@.len() - i,
        {
            items.push(string_of(self.items[i].as_str()));
            assert(texts_of(items@)[i as int] == texts_of(self.items@)[i as int]);
            i = i + 1;
            assert(texts_of(items@) =~= texts_of(self.items@).take(i as int));
        }
        assert(texts_of(self.items@).take(i as int) =~= texts_of(self.items@));
        NumSet { items }
    }

    /// The members, in order.
    pub fn members(&self) -> (r: Vec<String>)
        ensures
            texts_of(r@) == self@,
    {
        let mut r: Vec<String> = Vec::new();
        let mut i: usize = 0;
        while i < self.items.len()
            invariant
                i <= self.items@.len(),
                r@.len() == i,
                texts_of(r@) == texts_of(self.items@).take(i as int),
            decreases self.items@.len() - i,
        {
            r.push(self.items[i].clone());
            assert(texts_of(r@)[i as int] == texts_of(self.items@)[i as int]);
            i = i + 1;
            assert(texts_of(r@) =~= texts_of(self.items@).take(i as int));
        }
        assert(texts_of(self.items@).take(i as int) =~= texts_of(self.items@));
        r
    }

    /// Whether two sets hold the same members.
    pub fn same(&self, other: &NumSet) -> (r: bool)
        ensures
            r == (self@ == other@),
    {
        same_texts(&self.items, &other.items)
    }
}

/// A DynamoDB binary set: each binary value once, in byte order.
pub struct BinarySet {
    items: Vec<Bytes>,
}

impl View for BinarySet {
    type V = Seq<Seq<u8>>;

    closed spec fn view(&self) -> Seq<Seq<u8>> {
        bytes_of(self.items@)
    }
}

impl BinarySet {
    #[verifier::type_invariant]
    spec fn sorted(self) -> bool {
        binaries_sorted(bytes_of(self.items@))
    }

    /// A binary set of these values: duplicates are dropped and the rest
    /// kept in byte order.
    pub fn new(values: Vec<Vec<u8>>) -> (r: BinarySet)
        requires
            forall|i: int| 0 <= i < values@.len() ==> base64_fits(#[trigger] values@[i]@.len()),
        ensures
            binaries_sorted(r@),
            r@.to_set() == vecs_of(values@).to_set(),
    {
        let mut values = values;
        let ghost all = values@;
        let mut items: Vec<Bytes> = Vec::new();
        let ghost mut taken: int = 0;
        assert(bytes_of(items@).to_set() =~= vecs_of(all.take(0)).to_set());
        while values.len() > 0
            invariant
                0 <= taken <= all.len(),
                values@ == all.skip(taken),
                forall|i: int| 0 <= i < all.len() ==> base64_fits(#[trigger] all[i]@.len()),
                binaries_sorted(bytes_of(items@)),
                bytes_of(items@).to_set() == vecs_of(all.take(taken)).to_set(),
            decreases values@.len(),
        {
            let x = values.remove(0);
            assert(x == all[taken]);
            insert_binary(&mut items, Bytes::new(x));
            proof {
                assert(vecs_of(all.take(taken + 1)) =~= vecs_of(all.take(taken)).push(
                    all[taken]@,
                ));
                lemma_insert_to_set(
                    vecs_of(all.take(taken)),
                    vecs_of(all.take(taken)).len() as int,
                    all[taken]@,
                );
                assert(vecs_of(all.take(taken)).insert(
                    vecs_of(all.take(taken)).len() as int,
                    all[taken]@,
                ) =~= vecs_of(all.take(taken)).push(all[taken]@));
                taken = taken + 1;
            }
            assert(values@ =~= all.skip(taken));
        }
        assert(all.take(taken) =~= all);
        BinarySet { items }
    }

    /// Appends the set as it appears in an expression: the base64 text of
    /// each member quoted as `Debug` quotes it, separated by `, `, in
    /// brackets.
    pub fn write_to(&self, out: &mut String)
        ensures
            final(out)@ == old(out)@ + render_binary_set(self@),
    {
        out.push('[');
        let ghost start = out@;
        let ghost parts = self@.map_values(|b: Seq<u8>| debug_text(base64_text(b)));
        let mut i: usize = 0;
        while i < self.items.len()
            invariant
                i <= self.items@.len(),
                parts == self@.map_values(|b: Seq<u8>| debug_text(base64_text(b))),
                self@ == bytes_of(self.items@),
                out@ == start + join(parts.take(i as int), seq![',', ' ']),
            decreases self.items@.len() - i,
        {
            if i > 0 {
                out.push(',');
                out.push(' ');
            }
            let text = self.items[i].to_base64();
            let d = debug_string(text.as_str());
            write_str(out, d.as_str());
            proof {
                lemma_join_push(parts.take(i as int), seq![',', ' '], parts[i as int]);
                assert(parts.take(i + 1) =~= parts.take(i as int).push(parts[i as int]));
            }
            i = i + 1;
            assert(out@ =~= start + join(parts.take(i as int), seq![',', ' ']));
        }
        assert(parts.take(i as int) =~= parts);
        out.push(']');
        assert(final(out)@ =~= old(out)@ + render_binary_set(self@));
    }

    /// A copy of this set.
    pub fn clone_set(&self) -> (r: BinarySet)
        ensures
            r@ == self@,
    {
        proof {
            use_type_invariant(self);
        }
        let mut items: Vec<Bytes> = Vec::new();
        let mut i: usize = 0;
        while i < self.items.len()
            invariant
                i <= self.items@.len(),
                items@.len() == i,
                bytes_of(items@) == bytes_of(self.items@).take(i as int),
            decreases self.items@.len() - i,
        {
            items.push(self.items[i].clone_bytes());
            assert(bytes_of(items@)[i as int] == bytes_of(self.items@)[i as int]);
            i = i + 1;
            assert(bytes_of(items@) =~= bytes_of(self.items@).take(i as int));
        }
        assert(bytes_of(self.items@).take(i as int) =~= bytes_of(self.items@));
        BinarySet { items }
    }

    /// The members, in order.
    pub fn members(&self) -> (r: Vec<Vec<u8>>)
        ensures
            vecs_of(r@) == self@,
    {
        let mut r: Vec<Vec<u8>> = Vec::new();
        let mut i: usize = 0;
        while i < self.items.len()
            invariant
                i <= self.items@.len(),
                r@.len() == i,
                vecs_of(r@) == bytes_of(self.items@).take(i as int),
            decreases self.items@.len() - i,
        {
            r.push(self.items[i].to_vec());
            assert(vecs_of(r@)[i as int] == bytes_of(self.items@)[i as int]);
            i = i + 1;
            assert(vecs_of(r@) =~= bytes_of(self.items@).take(i as int));
        }
        assert(bytes_of(self.items@).take(i as int) =~= bytes_of(self.items@));
        r
    }

    /// Whether two sets hold the same members.
    pub fn same(&self, other: &BinarySet) -> (r: bool)
        ensures
            r == (self@ == other@),
    {
        if self.items.len() != other.items.len() {
            proof {
                if self@ == other@ {
                    assert(self@.len() == other@.len());
                }
            }
            return false;
        }
        let mut i: usize = 0;
        while i < self.items.len()
            invariant
                i <= self.items@.len(),
                self.items@.len() == other.items@.len(),
                self@ == bytes_of(self.items@),
                other@ == bytes_of(other.items@),
                self@.take(i as int) == other@.take(i as int),
            decreases self.items@.len() - i,
        {
            if !self.items[i].same(&other.items[i]) {
                proof {
                    if self@ == other@ {
                        assert(self@[i as int] == other@[i as int]);
                    }
                }
                return false;
            }
            i = i + 1;
            assert(self@.take(i as int) =~= other@.take(i as int)) by {
                assert forall|k: int| 0 <= k < i implies self@[k] == other@[k] by {
                    if k < i - 1 {
                        assert(self@.take(i - 1)[k] == other@.take(i - 1)[k]);
                    }
                }
            }
        }
        assert(self@ =~= self@.take(i as int));
        assert(other@ =~= other@.take(i as int));
        true
    }
}

/// A string set as it appears in an expression.
pub open spec fn render_string_set(s: Seq<Seq<char>>) -> Seq<char> {
    seq!['['] + join(s.map_values(|t: Seq<char>| debug_text(t)), seq![',', ' ']) + seq![']']
}

/// A number set as it appears in an expression.
pub open spec fn render_num_set(s: Seq<Seq<char>>) -> Seq<char> {
    seq!['['] + join(s, seq![',', ' ']) + seq![']']
}

/// A binary set as it appears in an expression.
pub open spec fn render_binary_set(s: Seq<Seq<u8>>) -> Seq<char> {
    seq!['['] + join(s.map_values(|b: Seq<u8>| debug_text(base64_text(b))), seq![',', ' '])
        + seq![']']
}

/// A DynamoDB set of strings, of numbers, or of binary values.
pub enum ValueSet {
    StringSet(StringSet),
    NumSet(NumSet),
    BinarySet(BinarySet),
}

/// What a set holds: its members, in order.
pub enum SetV {
    Strings(Seq<Seq<char>>),
    Nums(Seq<Seq<char>>),
    Binaries(Seq<Seq<u8>>),
}

impl View for ValueSet {
    type V = SetV;

    open spec fn view(&self) -> SetV {
        match self {
            ValueSet::StringSet(s) => SetV::Strings(s@),
            ValueSet::NumSet(s) => SetV::Nums(s@),
            ValueSet::BinarySet(s) => SetV::Binaries(s@),
        }
    }
}

/// A set as it appears in an expression.
pub open spec fn render_set(s: SetV) -> Seq<char> {
    match s {
        SetV::Strings(t) => render_string_set(t),
        SetV::Nums(n) => render_num_set(n),
        SetV::Binaries(b) => render_binary_set(b),
    }
}

impl ValueSet {
    /// A string set.
    pub fn new_string_set(string_set: StringSet) -> (r: ValueSet)
        ensures
            r == ValueSet::StringSet(string_set),
    {
        ValueSet::StringSet(string_set)
    }

    /// A number set.
    pub fn new_num_set(num_set: NumSet) -> (r: ValueSet)
        ensures
            r == ValueSet::NumSet(num_set),
    {
        ValueSet::NumSet(num_set)
    }

    /// A binary set.
    pub fn new_binary_set(binary_set: BinarySet) -> (r: ValueSet)
        ensures
            r == ValueSet::BinarySet(binary_set),
    {
        ValueSet::BinarySet(binary_set)
    }

    /// Appends the set as it appears in an expression.
    pub fn write_to(&self, out: &mut String)
        ensures
            final(out)@ == old(out)@ + render_set(self@),
    {
        match self {
            ValueSet::StringSet(s) => s.write_to(out),
            ValueSet::NumSet(s) => s.write_to(out),
            ValueSet::BinarySet(s) => s.write_to(out),
        }
    }

    /// The set as it appears in an expression.
    pub fn to_string(&self) -> (r: String)
        ensures
            r@ == render_set(self@),
    {
        let mut out = String::new();
        self.write_to(&mut out);
        assert(out@ =~= render_set(self@));
        out
    }

    /// A copy of this set.
    pub fn clone_set(&self) -> (r: ValueSet)
        ensures
            r@ == self@,
    {
        match self {
            ValueSet::StringSet(s) => ValueSet::StringSet(s.clone_set()),
            ValueSet::NumSet(s) => ValueSet::NumSet(s.clone_set()),
            ValueSet::BinarySet(s) => ValueSet::BinarySet(s.clone_set()),
        }
    }

    /// Whether two sets hold the same members, of the same kind.
    pub fn same(&self, other: &ValueSet) -> (r: bool)
        ensures
            r == (self@ == other@),
    {
        match (self, other) {
            (ValueSet::StringSet(a), ValueSet::StringSet(b)) => a.same(b),
            (ValueSet::NumSet(a), ValueSet::NumSet(b)) => a.same(b),
            (ValueSet::BinarySet(a), ValueSet::BinarySet(b)) => a.same(b),
            _ => false,
        }
    }
}

/// A string set of these strings.
pub fn string_set(values: Vec<String>) -> (r: ValueSet)
    ensures
        r matches ValueSet::StringSet(s) && texts_sorted(s@) && s@.to_set() == texts_of(
            values@,
        ).to_set(),
{
    ValueSet::StringSet(StringSet::new(values))
}

/// A number set of these numbers.
pub fn num_set(values: Vec<Num>) -> (r: ValueSet)
    ensures
        r matches ValueSet::NumSet(s) && texts_sorted(s@) && s@.to_set() == nums_of(values@).to_set(),
{
    ValueSet::NumSet(NumSet::new(values))
}

/// A binary set of these values.
pub fn binary_set(values: Vec<Vec<u8>>) -> (r: ValueSet)
    requires
        forall|i: int| 0 <= i < values@.len() ==> base64_fits(#[trigger] values@[i]@.len()),
    ensures
        r matches ValueSet::BinarySet(s) && binaries_sorted(s@) && s@.to_set() == vecs_of(
            values@,
        ).to_set(),
{
    ValueSet::BinarySet(BinarySet::new(values))
}

/// A set's members are determined by which texts it holds: two sequences of
/// texts in strictly increasing order with the same members are equal. So a
/// string or number set built from the same strings in any order, with any
/// repetitions, is the same set.
pub proof fn lemma_sorted_texts_unique(a: Seq<Seq<char>>, b: Seq<Seq<char>>)
    requires
        texts_sorted(a),
        texts_sorted(b),
        a.to_set() == b.to_set(),
    ensures
        a == b,
    decreases a.len() + b.len(),
{
    if a.len() == 0 && b.len() > 0 {
        assert(b.to_set().contains(b[0]));
        assert(a.to_set().contains(b[0]));
    } else if b.len() == 0 && a.len() > 0 {
        assert(a.to_set().contains(a[0]));
        assert(b.to_set().contains(a[0]));
    } else if a.len() > 0 && b.len() > 0 {
        let x = a.last();
        let y = b.last();
        assert(a.to_set().contains(x));
        assert(b.to_set().contains(y));
        assert(b.to_set().contains(x));
        assert(a.to_set().contains(y));
        let i = choose|i: int| 0 <= i < b.len() && b[i] == x;
        let j = choose|j: int| 0 <= j < a.len() && a[j] == y;
        lemma_text_order(x, y, x);
        if i < b.len() - 1 {
            assert(text_lt(b[i], y));
            if j < a.len() - 1 {
                assert(text_lt(a[j], x));
            }
        }
        if j < a.len() - 1 {
            assert(text_lt(a[j], x));
        }
        assert(x == y);
        let a2 = a.drop_last();
        let b2 = b.drop_last();
        assert(texts_sorted(a2)) by {
            assert forall|p: int, q: int| 0 <= p < q < a2.len() implies text_lt(
                #[trigger] a2[p],
                #[trigger] a2[q],
            ) by {
                assert(a2[p] == a[p] && a2[q] == a[q]);
            }
        }
        assert(texts_sorted(b2)) by {
            assert forall|p: int, q: int| 0 <= p < q < b2.len() implies text_lt(
                #[trigger] b2[p],
                #[trigger] b2[q],
            ) by {
                assert(b2[p] == b[p] && b2[q] == b[q]);
            }
        }
        assert(a2.to_set() =~= b2.to_set()) by {
            assert forall|k: Seq<char>| a2.to_set().contains(k) implies b2.to_set().contains(k) by {
                let p = choose|p: int| 0 <= p < a2.len() && a2[p] == k;
                assert(text_lt(a[p], x));
                lemma_text_order(k, x, x);
                assert(a.to_set().contains(k));
                assert(b.to_set().contains(k));
                let q = choose|q: int| 0 <= q < b.len() && b[q] == k;
                if q == b.len() - 1 {
                    assert(k == y);
                }
                assert(b2[q] == k);
            }
            assert forall|k: Seq<char>| b2.to_set().contains(k) implies a2.to_set().contains(k) by {
                let q = choose|q: int| 0 <= q < b2.len() && b2[q] == k;
                assert(text_lt(b[q], y));
                lemma_text_order(k, y, y);
                assert(b.to_set().contains(k));
                assert(a.to_set().contains(k));
                let p = choose|p: int| 0 <= p < a.len() && a[p] == k;
                if p == a.len() - 1 {
                    assert(k == x);
                }
                assert(a2[p] == k);
            }
        }
        lemma_sorted_texts_unique(a2, b2);
        assert(a =~= a2.push(x));
        assert(b =~= b2.push(y));
    } else {
        assert(a =~= b);
    }
}

/// A binary set is determined by which values it holds: two sequences of
/// binary values in strictly increasing order with the same members are
/// equal. So a binary set built from the same values in any order, with any
/// repetitions, is the same set.
pub proof fn lemma_sorted_binaries_unique(a: Seq<Seq<u8>>, b: Seq<Seq<u8>>)
    requires
        binaries_sorted(a),
        binaries_sorted(b),
        a.to_set() == b.to_set(),
    ensures
        a == b,
    decreases a.len() + b.len(),
{
    if a.len() == 0 && b.len() > 0 {
        assert(b.to_set().contains(b[0]));
        assert(a.to_set().contains(b[0]));
    } else if b.len() == 0 && a.len() > 0 {
        assert(a.to_set().contains(a[0]));
        assert(b.to_set().contains(a[0]));
    } else if a.len() > 0 && b.len() > 0 {
        let x = a.last();
        let y = b.last();
        assert(a.to_set().contains(x));
        assert(b.to_set().contains(y));
        assert(b.to_set().contains(x));
        assert(a.to_set().contains(y));
        let i = choose|i: int| 0 <= i < b.len() && b[i] == x;
        let j = choose|j: int| 0 <= j < a.len() && a[j] == y;
        lemma_bytes_order(x, y, x);
        if i < b.len() - 1 {
            assert(bytes_lt(b[i], y));
            if j < a.len() - 1 {
                assert(bytes_lt(a[j], x));
            }
        }
        if j < a.len() - 1 {
            assert(bytes_lt(a[j], x));
        }
        assert(x == y);
        let a2 = a.drop_last();
        let b2 = b.drop_last();
        assert(binaries_sorted(a2)) by {
            assert forall|p: int, q: int| 0 <= p < q < a2.len() implies bytes_lt(
                #[trigger] a2[p],
                #[trigger] a2[q],
            ) by {
                assert(a2[p] == a[p] && a2[q] == a[q]);
            }
        }
        assert(binaries_sorted(b2)) by {
            assert forall|p: int, q: int| 0 <= p < q < b2.len() implies bytes_lt(
                #[trigger] b2[p],
                #[trigger] b2[q],
            ) by {
                assert(b2[p] == b[p] && b2[q] == b[q]);
            }
        }
        assert(a2.to_set() =~= b2.to_set()) by {
            assert forall|k: Seq<u8>| a2.to_set().contains(k) implies b2.to_set().contains(k) by {
                let p = choose|p: int| 0 <= p < a2.len() && a2[p] == k;
                assert(bytes_lt(a[p], x));
                lemma_bytes_order(k, x, x);
                assert(a.to_set().contains(k));
                assert(b.to_set().contains(k));
                let q = choose|q: int| 0 <= q < b.len() && b[q] == k;
                if q == b.len() - 1 {
                    assert(k == y);
                }
                assert(b2[q] == k);
            }
            assert forall|k: Seq<u8>| b2.to_set().contains(k) implies a2.to_set().contains(k) by {
                let q = choose|q: int| 0 <= q < b2.len() && b2[q] == k;
                assert(bytes_lt(b[q], y));
                lemma_bytes_order(k, y, y);
                assert(b.to_set().contains(k));
                assert(a.to_set().contains(k));
                let p = choose|p: int| 0 <= p < a.len() && a[p] == k;
                if p == a.len() - 1 {
                    assert(k == x);
                }
                assert(a2[p] == k);
            }
        }
        lemma_sorted_binaries_unique(a2, b2);
        assert(a =~= a2.push(x));
        assert(b =~= b2.push(y));
    } else {
        assert(a =~= b);
    }
}

} // verus!
