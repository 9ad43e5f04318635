//! Case conversion of identifiers. The conversions themselves are done by
//! the `inflector` crate; their results are named by uninterpreted spec
//! functions, so contracts can speak of them exactly.

use vstd::prelude::*;

verus! {

/// The PascalCase conversion of a character sequence.
pub uninterp spec fn pascal_of(s: Seq<char>) -> Seq<char>;

/// The snake_case conversion of a character sequence.
pub uninterp spec fn snake_of(s: Seq<char>) -> Seq<char>;

/// Relies on inflector's `to_pascal_case`: the result is a function of the
/// input characters alone, and every character it pushes is an alphanumeric
/// character (separators are dropped, the rest are case-adjusted), so the
/// result holds no brace, quote or newline.
#[verifier::external_body]
pub(crate) fn to_pascal(s: &str) -> (r: String)
    ensures
        r@ == pascal_of(s@),
        forall|i: int|
            0 <= i < r@.len() ==> r@[i] != '{' && r@[i] != '}' && r@[i] != '"' && r@[i] != '\n',
{
    inflector::cases::pascalcase::to_pascal_case(s)
}

/// Relies on inflector's `to_snake_case`: the result is a function of the
/// input characters alone, and every character it pushes is either an
/// alphanumeric character or the separator `_`, so the result holds no
/// brace, quote or newline.
#[verifier::external_body]
pub(crate) fn to_snake(s: &str) -> (r: String)
    ensures
        r@ == snake_of(s@),
        forall|i: int|
            0 <= i < r@.len() ==> r@[i] != '{' && r@[i] != '}' && r@[i] != '"' && r@[i] != '\n',
{
    inflector::cases::snakecase::to_snake_case(s)
}

} // verus!
