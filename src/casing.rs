//! Case conversion and character classes, as computed by outside code.
use convert_case::Case;
use convert_case::Casing;
use vstd::prelude::*;

verus! {

/// The PascalCase form of a text.
pub uninterp spec fn pascal_of(s: Seq<char>) -> Seq<char>;

/// The snake_case form of a text.
pub uninterp spec fn snake_of(s: Seq<char>) -> Seq<char>;

/// The kebab-case form of a text.
pub uninterp spec fn kebab_of(s: Seq<char>) -> Seq<char>;

/// Whether a character is uppercase in Unicode's sense.
pub uninterp spec fn upper_char(c: char) -> bool;

/// Relies on convert_case's `to_case(Case::Pascal)`: the result depends on the text alone.
#[verifier::external_body]
pub fn to_pascal(s: &str) -> (r: String)
    ensures
        r@ == pascal_of(s@),
{
    s.to_case(Case::Pascal)
}

/// Relies on convert_case's `to_case(Case::Snake)`: the result depends on the text alone.
#[verifier::external_body]
pub fn to_snake(s: &str) -> (r: String)
    ensures
        r@ == snake_of(s@),
{
    s.to_case(Case::Snake)
}

/// Relies on convert_case's `to_case(Case::Kebab)`: the result depends on the text alone.
#[verifier::external_body]
pub fn to_kebab(s: &str) -> (r: String)
    ensures
        r@ == kebab_of(s@),
{
    s.to_case(Case::Kebab)
}

/// Relies on std's `char::is_uppercase`: the Unicode `Uppercase` property of the character.
#[verifier::external_body]
pub fn is_upper(c: char) -> (r: bool)
    ensures
        r == upper_char(c),
{
    c.is_uppercase()
}

} // verus!
