//! DynamoDB numbers, held as the text DynamoDB receives.
use vstd::prelude::*;

use crate::text::{exp_int_text, int_text, string_of, write_exp, write_int, write_str};

verus! {

/// A DynamoDB numeric value, as the text that DynamoDB receives (and that an
/// expression shows).
pub struct Num {
    n: String,
}

impl View for Num {
    type V = Seq<char>;

    /// The text of the number.
    closed spec fn view(&self) -> Seq<char> {
        self.n@
    }
}

impl Num {
    /// A number in plain decimal form, such as `2600` or `-7`.
    pub fn new(value: i128) -> (r: Num)
        ensures
            r@ == int_text(value as int),
    {
        let mut n = String::new();
        write_int(&mut n, value);
        Num { n }
    }

    /// A number in exponent form with a lowercase `e`, as `{:e}` writes it:
    /// `2600` becomes `2.6e3`.
    pub fn new_lower_exp(value: i128) -> (r: Num)
        ensures
            r@ == exp_int_text(value as int, false),
    {
        let mut n = String::new();
        write_exp(&mut n, value, false);
        Num { n }
    }

    /// A number in exponent form with an uppercase `E`, as `{:E}` writes it:
    /// `2600` becomes `2.6E3`.
    pub fn new_upper_exp(value: i128) -> (r: Num)
        ensures
            r@ == exp_int_text(value as int, true),
    {
        let mut n = String::new();
        write_exp(&mut n, value, true);
        Num { n }
    }

    /// A number from text that already holds it, such as a formatted float
    /// or a number that DynamoDB returned; the text is kept as it is.
    pub fn from_string(n: String) -> (r: Num)
        ensures
            r@ == n@,
    {
        Num { n }
    }

    /// Appends the number as it appears in an expression.
    pub fn write_to(&self, out: &mut String)
        ensures
            final(out)@ == old(out)@ + self@,
    {
        write_str(out, self.n.as_str());
    }

    /// The number as it appears in an expression.
    pub fn to_string(&self) -> (r: String)
        ensures
            r@ == self@,
    {
        string_of(self.n.as_str())
    }

    /// A copy of this number.
    pub fn clone_num(&self) -> (r: Num)
        ensures
            r@ == self@,
    {
        Num { n: string_of(self.n.as_str()) }
    }

    /// The text of the number.
    pub(crate) fn text(&self) -> (r: &String)
        ensures
            r@ == self@,
    {
        &self.n
    }

    /// The text of the number.
    pub fn into_string(self) -> (r: String)
        ensures
            r@ == self@,
    {
        self.n
    }
}

} // verus!
