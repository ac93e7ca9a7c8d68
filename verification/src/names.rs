//! Identifier derivation for the generated companion types: the partial
//! type's name, and the presence-flag names of the optional slots (Pascal
//! case of the field name for named records, a fixed prefix plus the field
//! index for positional records).

use vstd::prelude::*;

verus! {

/// What `convert_case` turns a string into under the Pascal case; the result
/// depends on the characters of the input alone.
pub uninterp spec fn pascal_of(s: Seq<char>) -> Seq<char>;

/// Relies on convert_case's `Casing::to_case` with `Case::Pascal`: a pure
/// reshaping of the input string, with no dependence on locale or
/// environment.
#[verifier::external_body]
pub fn to_pascal(s: &str) -> (r: String)
    ensures
        r@ == pascal_of(s@),
{
    convert_case::Casing::to_case(&s, convert_case::Case::Pascal)
}

/// Relies on enum_unit_core's `prefix`, which returns the fixed string used
/// to name the flags of positional fields.
#[verifier::external_body]
pub fn flag_prefix() -> (r: &'static str)
    ensures
        r@ == seq!['F'],
{
    enum_unit_core::prefix()
}

/// The decimal digit characters of `n`, most significant first.
pub open spec fn spec_decimal(n: nat) -> Seq<char>
    decreases n,
{
    if n < 10 {
        seq![digit_char(n)]
    } else {
        spec_decimal(n / 10) + seq![digit_char(n % 10)]
    }
}

/// The character for one decimal digit.
pub open spec fn digit_char(d: nat) -> char {
    if d == 0 {
        '0'
    } else if d == 1 {
        '1'
    } else if d == 2 {
        '2'
    } else if d == 3 {
        '3'
    } else if d == 4 {
        '4'
    } else if d == 5 {
        '5'
    } else if d == 6 {
        '6'
    } else if d == 7 {
        '7'
    } else if d == 8 {
        '8'
    } else {
        '9'
    }
}

/// One decimal digit as a string slice.
fn digit_str(d: usize) -> (r: &'static str)
    requires
        d < 10,
    ensures
        r@ == seq![digit_char(d as nat)],
{
    proof {
        reveal_strlit("0");
        reveal_strlit("1");
        reveal_strlit("2");
        reveal_strlit("3");
        reveal_strlit("4");
        reveal_strlit("5");
        reveal_strlit("6");
        reveal_strlit("7");
        reveal_strlit("8");
        reveal_strlit("9");
    }
    if d == 0 {
        "0"
    } else if d == 1 {
        "1"
    } else if d == 2 {
        "2"
    } else if d == 3 {
        "3"
    } else if d == 4 {
        "4"
    } else if d == 5 {
        "5"
    } else if d == 6 {
        "6"
    } else if d == 7 {
        "7"
    } else if d == 8 {
        "8"
    } else {
        "9"
    }
}

/// Renders `n` in decimal.
pub fn decimal(n: usize) -> (r: String)
    ensures
        r@ == spec_decimal(n as nat),
    decreases n,
{
    if n < 10 {
        String::from_str(digit_str(n))
    } else {
        let high = decimal(n / 10);
        high.concat(digit_str(n % 10))
    }
}

/// The name of the partial companion type: the record's name with an `Opt`
/// suffix.
pub fn partial_type_name(name: &String) -> (r: String)
    ensures
        r@ == name@ + seq!['O', 'p', 't'],
{
    proof {
        reveal_strlit("Opt");
    }
    let r = name.clone().concat("Opt");
    proof {
        assert(r@ =~= name@ + seq!['O', 'p', 't']);
    }
    r
}

/// The presence-flag name of a positional field: the fixed prefix followed
/// by the field's index in decimal.
pub fn positional_flag_name(index: usize) -> (r: String)
    ensures
        r@ == seq!['F'] + spec_decimal(index as nat),
{
    let r = String::from_str(flag_prefix()).concat(decimal(index).as_str());
    proof {
        assert(r@ =~= seq!['F'] + spec_decimal(index as nat));
    }
    r
}

} // verus!
