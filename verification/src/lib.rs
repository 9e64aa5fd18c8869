//! Building DynamoDB condition, filter, key condition, projection and update
//! expressions, with expression attribute names and values handled for you.
use vstd::prelude::*;

pub mod condition;
pub mod expression;
pub mod key;
pub mod operand;
pub mod path;
pub mod text;
pub mod update;
pub mod value;

pub use crate::expression::Expression;
pub use crate::path::Path;
pub use crate::value::{Num, Scalar, Value, ValueMap, ValueSet};

verus! {

} // verus!
