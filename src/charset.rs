use vstd::prelude::*;

verus! {

/// One of the four built-in character classes.
#[derive(Clone, Copy, Debug, PartialEq, Eq, Structural)]
pub enum CharClass {
    UpperCase,
    LowerCase,
    Digits,
    Symbols,
}

/// The characters of a class, in their fixed order.
pub open spec fn class_seq(c: CharClass) -> Seq<char> {
    match c {
        CharClass::UpperCase => seq![
            'A', 'B', 'C', 'D', 'E', 'F', 'G', 'H', 'I', 'J', 'K', 'L', 'M',
            'N', 'O', 'P', 'Q', 'R', 'S', 'T', 'U', 'V', 'W', 'X', 'Y', 'Z',
        ],
        CharClass::LowerCase => seq![
            'a', 'b', 'c', 'd', 'e', 'f', 'g', 'h', 'i', 'j', 'k', 'l', 'm',
            'n', 'o', 'p', 'q', 'r', 's', 't', 'u', 'v', 'w', 'x', 'y', 'z',
        ],
        CharClass::Digits => seq!['0', '1', '2', '3', '4', '5', '6', '7', '8', '9'],
        CharClass::Symbols => seq![
            '@', '#', '$', '%', '&', '*', '(', ')', '-', '+', '=', '^', '.', ',',
        ],
    }
}

/// Whether `ch` is a member of class `c`.
pub open spec fn in_class(c: CharClass, ch: char) -> bool {
    class_seq(c).contains(ch)
}

/// The characters that are never emitted: they are easily confused with `1` and `0`.
pub open spec fn is_excluded(ch: char) -> bool {
    ch == 'I' || ch == 'l' || ch == 'O'
}

/// The characters of class `c`, in their fixed order.
pub fn class_chars(c: CharClass) -> (r: Vec<char>)
    ensures
        r@ == class_seq(c),
{
    match c {
        CharClass::UpperCase => vec![
            'A', 'B', 'C', 'D', 'E', 'F', 'G', 'H', 'I', 'J', 'K', 'L', 'M',
            'N', 'O', 'P', 'Q', 'R', 'S', 'T', 'U', 'V', 'W', 'X', 'Y', 'Z',
        ],
        CharClass::LowerCase => vec![
            'a', 'b', 'c', 'd', 'e', 'f', 'g', 'h', 'i', 'j', 'k', 'l', 'm',
            'n', 'o', 'p', 'q', 'r', 's', 't', 'u', 'v', 'w', 'x', 'y', 'z',
        ],
        CharClass::Digits => vec!['0', '1', '2', '3', '4', '5', '6', '7', '8', '9'],
        CharClass::Symbols => vec![
            '@', '#', '$', '%', '&', '*', '(', ')', '-', '+', '=', '^', '.', ',',
        ],
    }
}

/// The first character of every class may be emitted.
pub proof fn lemma_first_allowed(c: CharClass)
    ensures
        class_seq(c).len() > 0,
        !is_excluded(class_seq(c)[0]),
{
}

/// Returns whether `ch` may appear in a password.
pub fn check_character(ch: char) -> (r: bool)
    ensures
        r == !is_excluded(ch),
{
    !(ch == 'I' || ch == 'l' || ch == 'O')
}

} // verus!
