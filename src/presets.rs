use crate::generator::{GeneratorOptions, DEFAULT_LENGTH};
use vstd::prelude::*;

verus! {

/// Where `DEFAULT_LENGTH` stands among the length choices.
pub const DEFAULT_LENGTH_INDEX: u32 = 2;

/// The lengths a user picks from, ascending.
pub open spec fn length_choices() -> Seq<u8> {
    seq![4u8, 8u8, 16u8, 24u8, 32u8, 48u8]
}

/// The lengths a user picks from, ascending.
pub fn lengths() -> (r: Vec<u8>)
    ensures
        r@ == length_choices(),
{
    vec![4u8, 8u8, 16u8, 24u8, 32u8, 48u8]
}

/// The length choice at `index`, if there is one.
pub fn length_at(index: u32) -> (r: Option<u8>)
    ensures
        r == (if index < length_choices().len() {
            Some(length_choices()[index as int])
        } else {
            None::<u8>
        }),
{
    let choices = lengths();
    if (index as usize) < choices.len() {
        Some(choices[index as usize])
    } else {
        None
    }
}

/// Where `length` stands among the length choices, if it is one of them.
pub fn length_index(length: u8) -> (r: Option<u32>)
    ensures
        match r {
            Some(i) => i < length_choices().len() && length_choices()[i as int] == length,
            None => !length_choices().contains(length),
        },
{
    let choices = lengths();
    let mut i: usize = 0;
    while i < choices.len()
        invariant
            choices@ == length_choices(),
            i <= choices@.len(),
            forall|k: int| 0 <= k < i ==> choices@[k] != length,
        decreases choices@.len() - i,
    {
        if choices[i] == length {
            return Some(i as u32);
        }
        i = i + 1;
    }
    None
}

/// The options a session starts with: letters and digits, default length.
pub fn default_options() -> (r: GeneratorOptions)
    ensures
        r == (GeneratorOptions {
            upper_case: true,
            lower_case: true,
            digits: true,
            symbols: false,
            length: DEFAULT_LENGTH,
        }),
{
    GeneratorOptions { upper_case: true, lower_case: true, digits: true, symbols: false, length: DEFAULT_LENGTH }
}

/// Every class, 16 characters.
pub fn medium() -> (r: GeneratorOptions)
    ensures
        r == (GeneratorOptions { upper_case: true, lower_case: true, digits: true, symbols: true, length: 16 }),
{
    GeneratorOptions { upper_case: true, lower_case: true, digits: true, symbols: true, length: 16 }
}

/// Every class, 32 characters.
pub fn long() -> (r: GeneratorOptions)
    ensures
        r == (GeneratorOptions { upper_case: true, lower_case: true, digits: true, symbols: true, length: 32 }),
{
    GeneratorOptions { upper_case: true, lower_case: true, digits: true, symbols: true, length: 32 }
}

/// A classic Unix password: every class, 8 characters.
pub fn unix() -> (r: GeneratorOptions)
    ensures
        r == (GeneratorOptions { upper_case: true, lower_case: true, digits: true, symbols: true, length: 8 }),
{
    GeneratorOptions { upper_case: true, lower_case: true, digits: true, symbols: true, length: 8 }
}

/// A PIN: 4 digits.
pub fn pin() -> (r: GeneratorOptions)
    ensures
        r == (GeneratorOptions { upper_case: false, lower_case: false, digits: true, symbols: false, length: 4 }),
{
    GeneratorOptions { upper_case: false, lower_case: false, digits: true, symbols: false, length: 4 }
}

} // verus!
