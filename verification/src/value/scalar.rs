//! DynamoDB scalar values: strings, numbers, booleans, binary data and null.
use vstd::prelude::*;

use super::encode::{base64_encode, base64_fits, base64_text, json_string, json_text};
use super::num::Num;
use crate::text::{string_of, write_str};

verus! {

/// Binary data, in an amount whose base64 text fits in memory.
pub struct Bytes {
    bytes: Vec<u8>,
}

impl View for Bytes {
    type V = Seq<u8>;

    closed spec fn view(&self) -> Seq<u8> {
        self.bytes@
    }
}

impl Bytes {
    #[verifier::type_invariant]
    spec fn fits(self) -> bool {
        base64_fits(self.bytes@.len())
    }

    /// Binary data holding these bytes.
    pub fn new(bytes: Vec<u8>) -> (r: Bytes)
        requires
            base64_fits(bytes@.len()),
        ensures
            r@ == bytes@,
    {
        Bytes { bytes }
    }

    /// The bytes, as a slice.
    pub fn as_slice(&self) -> (r: &[u8])
        ensures
            r@ == self@,
    {
        self.bytes.as_slice()
    }

    /// The base64 text of the bytes.
    pub fn to_base64(&self) -> (r: String)
        ensures
            r@ == base64_text(self@),
    {
        proof {
            use_type_invariant(self);
        }
        base64_encode(self.bytes.as_slice())
    }

    /// A copy of the bytes.
    pub fn clone_bytes(&self) -> (r: Bytes)
        ensures
            r@ == self@,
    {
        proof {
            use_type_invariant(self);
        }
        Bytes { bytes: self.bytes.clone() }
    }

    /// Whether two byte strings are equal.
    pub fn same(&self, other: &Bytes) -> (r: bool)
        ensures
            r == (self@ == other@),
    {
        super::order::compare_bytes(&self.bytes, &other.bytes) == 0
    }

    /// Compares two byte strings: negative when `self` comes first, zero when
    /// they are equal, positive when `other` comes first.
    pub fn compare(&self, other: &Bytes) -> (r: i8)
        ensures
            r == 0 <==> self@ == other@,
            r < 0 <==> super::order::bytes_lt(self@, other@),
            r > 0 <==> super::order::bytes_lt(other@, self@),
    {
        super::order::compare_bytes(&self.bytes, &other.bytes)
    }

    /// The bytes, as a vector.
    pub fn to_vec(&self) -> (r: Vec<u8>)
        ensures
            r@ == self@,
    {
        self.bytes.clone()
    }
}

/// A DynamoDB scalar value.
pub enum Scalar {
    String(String),
    Num(Num),
    Bool(bool),
    Binary(Bytes),
    Null,
}

/// What a scalar value holds.
pub enum ScalarV {
    String(Seq<char>),
    Num(Seq<char>),
    Bool(bool),
    Binary(Seq<u8>),
    Null,
}

impl View for Scalar {
    type V = ScalarV;

    open spec fn view(&self) -> ScalarV {
        match self {
            Scalar::String(s) => ScalarV::String(s@),
            Scalar::Num(n) => ScalarV::Num(n@),
            Scalar::Bool(b) => ScalarV::Bool(*b),
            Scalar::Binary(b) => ScalarV::Binary(b@),
            Scalar::Null => ScalarV::Null,
        }
    }
}

/// The text `true` or `false`.
pub open spec fn bool_text(b: bool) -> Seq<char> {
    if b {
        seq!['t', 'r', 'u', 'e']
    } else {
        seq!['f', 'a', 'l', 's', 'e']
    }
}

/// The text `NULL`.
pub open spec fn null_text() -> Seq<char> {
    seq!['N', 'U', 'L', 'L']
}

/// A scalar as it appears in an expression: a string as JSON, a number as
/// its text, a boolean as `true` or `false`, binary data as the JSON string
/// of its base64 text, and null as `NULL`.
pub open spec fn render_scalar(s: ScalarV) -> Seq<char> {
    match s {
        ScalarV::String(t) => json_text(t),
        ScalarV::Num(n) => n,
        ScalarV::Bool(b) => bool_text(b),
        ScalarV::Binary(b) => json_text(base64_text(b)),
        ScalarV::Null => null_text(),
    }
}

/// Appends `true` or `false`.
pub fn write_bool(out: &mut String, b: bool)
    ensures
        final(out)@ == old(out)@ + bool_text(b),
{
    if b {
        out.push('t');
        out.push('r');
        out.push('u');
        out.push('e');
    } else {
        out.push('f');
        out.push('a');
        out.push('l');
        out.push('s');
        out.push('e');
    }
    assert(final(out)@ =~= old(out)@ + bool_text(b));
}

impl Scalar {
    /// A string value.
    pub fn new_string(value: String) -> (r: Scalar)
        ensures
            r == Scalar::String(value),
    {
        Scalar::String(value)
    }

    /// A number in plain decimal form.
    pub fn new_num(value: i128) -> (r: Scalar)
        ensures
            r@ == ScalarV::Num(crate::text::int_text(value as int)),
    {
        Scalar::Num(Num::new(value))
    }

    /// A number in exponent form with a lowercase `e`.
    pub fn new_num_lower_exp(value: i128) -> (r: Scalar)
        ensures
            r@ == ScalarV::Num(crate::text::exp_int_text(value as int, false)),
    {
        Scalar::Num(Num::new_lower_exp(value))
    }

    /// A number in exponent form with an uppercase `E`.
    pub fn new_num_upper_exp(value: i128) -> (r: Scalar)
        ensures
            r@ == ScalarV::Num(crate::text::exp_int_text(value as int, true)),
    {
        Scalar::Num(Num::new_upper_exp(value))
    }

    /// A boolean value.
    pub fn new_bool(b: bool) -> (r: Scalar)
        ensures
            r == Scalar::Bool(b),
    {
        Scalar::Bool(b)
    }

    /// A binary value.
    pub fn new_binary(binary: Vec<u8>) -> (r: Scalar)
        requires
            base64_fits(binary@.len()),
        ensures
            r@ == ScalarV::Binary(binary@),
    {
        Scalar::Binary(Bytes::new(binary))
    }

    /// The null value.
    pub fn new_null() -> (r: Scalar)
        ensures
            r == Scalar::Null,
    {
        Scalar::Null
    }

    /// Appends the value as it appears in an expression.
    pub fn write_to(&self, out: &mut String)
        ensures
            final(out)@ == old(out)@ + render_scalar(self@),
    {
        match self {
            Scalar::String(s) => {
                let j = json_string(s.as_str());
                write_str(out, j.as_str());
            },
            Scalar::Num(n) => n.write_to(out),
            Scalar::Bool(b) => write_bool(out, *b),
            Scalar::Binary(b) => {
                let text = b.to_base64();
                let j = json_string(text.as_str());
                write_str(out, j.as_str());
            },
            Scalar::Null => {
                write_str(out, "NULL");
                proof {
                    reveal_strlit("NULL");
                }
                assert(final(out)@ =~= old(out)@ + null_text());
            },
        }
    }

    /// The value as it appears in an expression.
    pub fn to_string(&self) -> (r: String)
        ensures
            r@ == render_scalar(self@),
    {
        let mut out = String::new();
        self.write_to(&mut out);
        assert(out@ =~= render_scalar(self@));
        out
    }

    /// A copy of this value.
    pub fn clone_scalar(&self) -> (r: Scalar)
        ensures
            r@ == self@,
    {
        match self {
            Scalar::String(s) => Scalar::String(string_of(s.as_str())),
            Scalar::Num(n) => Scalar::Num(n.clone_num()),
            Scalar::Bool(b) => Scalar::Bool(*b),
            Scalar::Binary(b) => Scalar::Binary(b.clone_bytes()),
            Scalar::Null => Scalar::Null,
        }
    }

    /// Whether two scalars hold the same value.
    pub fn same(&self, other: &Scalar) -> (r: bool)
        ensures
            r == (self@ == other@),
    {
        match (self, other) {
            (Scalar::String(a), Scalar::String(b)) => super::order::text_equal(a, b),
            (Scalar::Num(a), Scalar::Num(b)) => super::order::text_equal(a.text(), b.text()),
            (Scalar::Bool(a), Scalar::Bool(b)) => *a == *b,
            (Scalar::Binary(a), Scalar::Binary(b)) => a.same(b),
            (Scalar::Null, Scalar::Null) => true,
            _ => false,
        }
    }
}

impl From<String> for Scalar {
    fn from(value: String) -> (r: Scalar) {
        Scalar::String(value)
    }
}

impl vstd::std_specs::convert::FromSpecImpl<String> for Scalar {
    open spec fn obeys_from_spec() -> bool {
        true
    }

    open spec fn from_spec(v: String) -> Scalar {
        Scalar::String(v)
    }
}

impl From<Num> for Scalar {
    fn from(value: Num) -> (r: Scalar) {
        Scalar::Num(value)
    }
}

impl vstd::std_specs::convert::FromSpecImpl<Num> for Scalar {
    open spec fn obeys_from_spec() -> bool {
        true
    }

    open spec fn from_spec(v: Num) -> Scalar {
        Scalar::Num(v)
    }
}

impl From<bool> for Scalar {
    fn from(value: bool) -> (r: Scalar) {
        Scalar::Bool(value)
    }
}

impl vstd::std_specs::convert::FromSpecImpl<bool> for Scalar {
    open spec fn obeys_from_spec() -> bool {
        true
    }

    open spec fn from_spec(v: bool) -> Scalar {
        Scalar::Bool(v)
    }
}

} // verus!
