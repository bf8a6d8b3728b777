use crate::charset::{check_character, class_chars, class_seq, in_class, is_excluded, CharClass};
use rand::rngs::ThreadRng;
use rand::Rng;
use vstd::prelude::*;
use vstd::string::*;

verus! {

/// Passwords shorter than this are refused.
pub const MIN_LENGTH: u8 = 4;

/// The length used when a caller does not choose one.
pub const DEFAULT_LENGTH: u8 = 16;

/// Which character classes a password draws from, and how long it is.
#[derive(Clone, Copy, Debug, PartialEq, Eq, Structural)]
pub struct GeneratorOptions {
    pub upper_case: bool,
    pub lower_case: bool,
    pub digits: bool,
    pub symbols: bool,
    pub length: u8,
}

/// Why a request cannot be served.
#[derive(Clone, Copy, Debug, PartialEq, Eq, Structural)]
pub enum GenerateError {
    LengthTooShort,
    NoCharacterSetSelected,
}

impl GenerateError {
    /// A sentence for the user.
    pub fn message(&self) -> (r: String)
        ensures
            r@ == (match self {
                GenerateError::LengthTooShort => "Password length must be >= 4"@,
                GenerateError::NoCharacterSetSelected => "At least one character set must be selected"@,
            }),
    {
        match self {
            GenerateError::LengthTooShort => String::from_str("Password length must be >= 4"),
            GenerateError::NoCharacterSetSelected => String::from_str(
                "At least one character set must be selected",
            ),
        }
    }
}

impl GeneratorOptions {
    /// Whether class `c` is switched on.
    pub open spec fn is_enabled(&self, c: CharClass) -> bool {
        match c {
            CharClass::UpperCase => self.upper_case,
            CharClass::LowerCase => self.lower_case,
            CharClass::Digits => self.digits,
            CharClass::Symbols => self.symbols,
        }
    }

    /// Whether at least one class is switched on.
    pub open spec fn has_class(&self) -> bool {
        self.upper_case || self.lower_case || self.digits || self.symbols
    }

    /// The enabled classes in declaration order: upper case, lower case, digits, symbols.
    pub open spec fn enabled_classes(&self) -> Seq<CharClass> {
        let s1 = if self.upper_case { seq![CharClass::UpperCase] } else { Seq::empty() };
        let s2 = if self.lower_case { s1.push(CharClass::LowerCase) } else { s1 };
        let s3 = if self.digits { s2.push(CharClass::Digits) } else { s2 };
        if self.symbols { s3.push(CharClass::Symbols) } else { s3 }
    }

    /// The list of enabled classes holds exactly the enabled classes, and is empty
    /// exactly when none is enabled.
    pub proof fn lemma_enabled_classes(&self)
        ensures
            forall|c: CharClass| #[trigger]
                self.enabled_classes().contains(c) <==> self.is_enabled(c),
            self.enabled_classes().len() == 0 <==> !self.has_class(),
            self.enabled_classes().len() <= 4,
    {
        let s1: Seq<CharClass> = if self.upper_case { seq![CharClass::UpperCase] } else { Seq::empty() };
        let s2 = if self.lower_case { s1.push(CharClass::LowerCase) } else { s1 };
        let s3 = if self.digits { s2.push(CharClass::Digits) } else { s2 };
        let s4 = if self.symbols { s3.push(CharClass::Symbols) } else { s3 };
        assert(s4 == self.enabled_classes());
        assert forall|c: CharClass| #[trigger] s4.contains(c) <==> self.is_enabled(c) by {
            if self.is_enabled(c) {
                match c {
                    CharClass::UpperCase => assert(s4[0] == c),
                    CharClass::LowerCase => assert(s4[s2.len() - 1] == c),
                    CharClass::Digits => assert(s4[s3.len() - 1] == c),
                    CharClass::Symbols => assert(s4[s4.len() - 1] == c),
                }
            }
            if s4.contains(c) {
                let k = choose|k: int| 0 <= k < s4.len() && s4[k] == c;
                if !self.is_enabled(c) {
                    if k < s1.len() {
                        assert(s1[k] == c);
                    } else if k < s2.len() {
                        assert(s2[k] == c);
                    } else if k < s3.len() {
                        assert(s3[k] == c);
                    } else {
                        assert(s4[k] == c);
                    }
                }
            }
        }
    }

    /// The characters of each enabled class, in declaration order.
    pub fn get_character_sets(&self) -> (r: Vec<Vec<char>>)
        ensures
            r@.len() == self.enabled_classes().len(),
            forall|j: int| 0 <= j < r@.len() ==> #[trigger] r@[j]@ == class_seq(self.enabled_classes()[j]),
    {
        let mut character_sets: Vec<Vec<char>> = Vec::new();
        if self.upper_case {
            character_sets.push(class_chars(CharClass::UpperCase));
        }
        if self.lower_case {
            character_sets.push(class_chars(CharClass::LowerCase));
        }
        if self.digits {
            character_sets.push(class_chars(CharClass::Digits));
        }
        if self.symbols {
            character_sets.push(class_chars(CharClass::Symbols));
        }
        character_sets
    }
}

/// Whether some character of `password` is one of `charset`.
pub open spec fn shares_char(charset: Seq<char>, password: Seq<char>) -> bool {
    exists|k: int| 0 <= k < password.len() && charset.contains(#[trigger] password[k])
}

fn slice_contains(set: &[char], ch: char) -> (r: bool)
    ensures
        r == set@.contains(ch),
{
    let mut i: usize = 0;
    while i < set.len()
        invariant
            i <= set@.len(),
            forall|j: int| 0 <= j < i ==> set@[j] != ch,
        decreases set@.len() - i,
    {
        if set[i] == ch {
            return true;
        }
        i = i + 1;
    }
    false
}

/// Returns whether at least one character of `password` belongs to `charset`.
pub fn check_password(charset: &[char], password: &String) -> (r: bool)
    ensures
        r == shares_char(charset@, password@),
{
    let text = password.as_str();
    let n = text.unicode_len();
    let mut i: usize = 0;
    while i < n
        invariant
            n == password@.len(),
            text@ == password@,
            i <= n,
            forall|k: int| 0 <= k < i ==> !charset@.contains(#[trigger] password@[k]),
        decreases n - i,
    {
        let ch = text.get_char(i);
        if slice_contains(charset, ch) {
            return true;
        }
        i = i + 1;
    }
    false
}

/// The bound on draws for one character; each draw is excluded with
/// probability at most 2/26, so the bound is never reached in practice.
pub const MAX_DRAWS: u64 = u64::MAX;

/// The bound on whole-password attempts; for any valid request an attempt
/// covers every enabled class with positive probability, so the bound is
/// never reached in practice.
pub const MAX_ATTEMPTS: u64 = u64::MAX;

/// rand's thread-local generator, carried through as an opaque handle.
#[verifier::external_type_specification]
#[verifier::external_body]
pub struct ExThreadRng(ThreadRng);

/// Relies on rand::thread_rng: a handle to the lazily seeded thread-local generator.
pub assume_specification[ rand::thread_rng ]() -> ThreadRng;

/// Relies on String::push: appends one character at the end.
pub assume_specification[ String::push ](s: &mut String, ch: char)
    ensures
        final(s)@ == old(s)@.push(ch),
;

/// Relies on rand::Rng::gen_range over `0..n`: a value in that range; it
/// panics on an empty range, which `requires` leaves out.
#[verifier::external_body]
fn draw_below(rng: &mut ThreadRng, n: usize) -> (r: usize)
    requires
        n > 0,
    ensures
        r < n,
{
    rng.gen_range(0..n)
}

/// The sets handed to the drawing functions: non-empty, each with an allowed first character.
pub open spec fn drawable_sets(sets: Seq<Vec<char>>) -> bool {
    &&& sets.len() > 0
    &&& forall|j: int| 0 <= j < sets.len() ==> (#[trigger] sets[j])@.len() > 0 && !is_excluded(sets[j]@[0])
}

/// Whether `ch` belongs to one of `sets`.
pub open spec fn in_some_set(sets: Seq<Vec<char>>, ch: char) -> bool {
    exists|j: int| 0 <= j < sets.len() && (#[trigger] sets[j])@.contains(ch)
}

/// Every character of `s` belongs to one of `sets`.
pub open spec fn drawn_from_sets(sets: Seq<Vec<char>>, s: Seq<char>) -> bool {
    forall|k: int| 0 <= k < s.len() ==> in_some_set(sets, #[trigger] s[k])
}

/// Every one of `sets` has a character in `s`.
pub open spec fn covers_sets(sets: Seq<Vec<char>>, s: Seq<char>) -> bool {
    forall|j: int| 0 <= j < sets.len() ==> shares_char((#[trigger] sets[j])@, s)
}

/// No character of `s` is excluded.
pub open spec fn free_of_excluded(s: Seq<char>) -> bool {
    forall|k: int| 0 <= k < s.len() ==> !is_excluded(#[trigger] s[k])
}

/// Whether `ch` belongs to an enabled class of `o`.
pub open spec fn in_enabled_class(o: GeneratorOptions, ch: char) -> bool {
    exists|c: CharClass| o.is_enabled(c) && #[trigger] in_class(c, ch)
}

/// Every character of `s` belongs to an enabled class.
pub open spec fn uses_enabled_classes(o: GeneratorOptions, s: Seq<char>) -> bool {
    forall|k: int| 0 <= k < s.len() ==> in_enabled_class(o, #[trigger] s[k])
}

/// Every enabled class has a character in `s`.
pub open spec fn covers_enabled_classes(o: GeneratorOptions, s: Seq<char>) -> bool {
    forall|c: CharClass| o.is_enabled(c) ==> #[trigger] shares_char(class_seq(c), s)
}

/// Draws a character of `set` uniformly, redrawing while it is excluded.
/// Should `MAX_DRAWS` draws all be excluded, the first character of `set` is taken.
fn draw_character(rng: &mut ThreadRng, set: &Vec<char>) -> (ch: char)
    requires
        set@.len() > 0,
        !is_excluded(set@[0]),
    ensures
        set@.contains(ch),
        !is_excluded(ch),
{
    let mut draws: u64 = 0;
    while draws < MAX_DRAWS
        invariant
            set@.len() > 0,
        decreases MAX_DRAWS - draws,
    {
        let i = draw_below(rng, set.len());
        let ch = set[i];
        if check_character(ch) {
            assert(set@[i as int] == ch);
            return ch;
        }
        draws = draws + 1;
    }
    assert(set@[0] == set[0]);
    set[0]
}

/// One attempt: `length` characters, each from a uniformly chosen set.
fn attempt(rng: &mut ThreadRng, sets: &Vec<Vec<char>>, length: u8) -> (pw: String)
    requires
        drawable_sets(sets@),
    ensures
        pw@.len() == length,
        drawn_from_sets(sets@, pw@),
        free_of_excluded(pw@),
{
    let mut password = String::new();
    let mut i: u8 = 0;
    while i < length
        invariant
            drawable_sets(sets@),
            i <= length,
            password@.len() == i,
            drawn_from_sets(sets@, password@),
            free_of_excluded(password@),
        decreases length - i,
    {
        let j = draw_below(rng, sets.len());
        let set = &sets[j];
        assert(drawable_sets(sets@) ==> sets@[j as int]@.len() > 0);
        let ch = draw_character(rng, set);
        let ghost before = password@;
        password.push(ch);
        assert forall|k: int| 0 <= k < password@.len() implies in_some_set(sets@, #[trigger] password@[k]) by {
            if k < before.len() {
                assert(password@[k] == before[k]);
            } else {
                assert(sets@[j as int]@.contains(password@[k]));
            }
        }
        i = i + 1;
    }
    password
}

/// Returns whether every one of `sets` has a character in `password`.
fn check_coverage(sets: &Vec<Vec<char>>, password: &String) -> (r: bool)
    ensures
        r == covers_sets(sets@, password@),
{
    let mut j: usize = 0;
    while j < sets.len()
        invariant
            j <= sets@.len(),
            forall|m: int| 0 <= m < j ==> shares_char((#[trigger] sets@[m])@, password@),
        decreases sets@.len() - j,
    {
        if !check_password(sets[j].as_slice(), password) {
            return false;
        }
        j = j + 1;
    }
    true
}

/// A password built without chance: position `k` holds the first character of
/// set `k`, or of the last set once `k` is past it.
fn fallback_password(sets: &Vec<Vec<char>>, length: u8) -> (pw: String)
    requires
        drawable_sets(sets@),
        sets@.len() <= length,
    ensures
        pw@.len() == length,
        drawn_from_sets(sets@, pw@),
        free_of_excluded(pw@),
        covers_sets(sets@, pw@),
{
    let mut password = String::new();
    let mut i: u8 = 0;
    while i < length
        invariant
            drawable_sets(sets@),
            sets@.len() <= length,
            i <= length,
            password@.len() == i,
            drawn_from_sets(sets@, password@),
            free_of_excluded(password@),
            forall|m: int| 0 <= m < sets@.len() && m < i ==> password@[m] == (#[trigger] sets@[m])@[0],
        decreases length - i,
    {
        let j: usize = if (i as usize) < sets.len() { i as usize } else { sets.len() - 1 };
        let ch = sets[j][0];
        assert(sets@[j as int]@[0] == ch);
        let ghost before = password@;
        password.push(ch);
        assert forall|k: int| 0 <= k < password@.len() implies in_some_set(sets@, #[trigger] password@[k]) by {
            if k < before.len() {
                assert(password@[k] == before[k]);
            } else {
                assert(sets@[j as int]@.contains(password@[k]));
            }
        }
        i = i + 1;
    }
    assert forall|m: int| 0 <= m < sets@.len() implies shares_char((#[trigger] sets@[m])@, password@) by {
        assert(sets@[m]@.contains(password@[m]));
    }
    password
}

/// Generates a password of `options.length` characters that draws only on the
/// enabled classes, never holds `I`, `l` or `O`, and has at least one character
/// of every enabled class. Each position picks an enabled class uniformly, then
/// a character of it uniformly; a password that misses a class is thrown away
/// and drawn again whole. Should `MAX_ATTEMPTS` attempts all miss a class, the
/// password of `fallback_password` is returned instead, so that every valid
/// request is answered with a valid password.
pub fn generate(options: &GeneratorOptions) -> (r: Result<String, GenerateError>)
    ensures
        r == Err::<String, GenerateError>(GenerateError::LengthTooShort) <==> options.length < MIN_LENGTH,
        r == Err::<String, GenerateError>(GenerateError::NoCharacterSetSelected) <==> options.length
            >= MIN_LENGTH && !options.has_class(),
        r is Ok <==> options.length >= MIN_LENGTH && options.has_class(),
        r is Ok ==> r->Ok_0@.len() == options.length,
        r is Ok ==> uses_enabled_classes(*options, r->Ok_0@),
        r is Ok ==> free_of_excluded(r->Ok_0@),
        r is Ok ==> covers_enabled_classes(*options, r->Ok_0@),
{
    if options.length < MIN_LENGTH {
        return Err(GenerateError::LengthTooShort);
    }
    let character_sets = options.get_character_sets();
    proof {
        options.lemma_enabled_classes();
    }
    if character_sets.len() == 0 {
        return Err(GenerateError::NoCharacterSetSelected);
    }
    proof {
        assert forall|j: int| 0 <= j < character_sets@.len() implies (#[trigger] character_sets@[j])@.len() > 0
            && !is_excluded(character_sets@[j]@[0]) by {
            crate::charset::lemma_first_allowed(options.enabled_classes()[j]);
        }
    }
    let mut rng = rand::thread_rng();
    let mut attempts: u64 = 0;
    let mut password = String::new();
    let mut found = false;
    while attempts < MAX_ATTEMPTS && !found
        invariant
            drawable_sets(character_sets@),
            found ==> password@.len() == options.length && drawn_from_sets(character_sets@, password@)
                && free_of_excluded(password@) && covers_sets(character_sets@, password@),
        decreases MAX_ATTEMPTS - attempts,
    {
        password = attempt(&mut rng, &character_sets, options.length);
        found = check_coverage(&character_sets, &password);
        attempts = attempts + 1;
    }
    if !found {
        password = fallback_password(&character_sets, options.length);
    }
    proof {
        lemma_sets_to_classes(*options, character_sets@, password@);
    }
    Ok(password)
}

/// What holds of a password over the sets of `o` holds of it over the enabled classes of `o`.
proof fn lemma_sets_to_classes(o: GeneratorOptions, sets: Seq<Vec<char>>, s: Seq<char>)
    requires
        sets.len() == o.enabled_classes().len(),
        forall|j: int| 0 <= j < sets.len() ==> #[trigger] sets[j]@ == class_seq(o.enabled_classes()[j]),
        drawn_from_sets(sets, s),
        covers_sets(sets, s),
    ensures
        uses_enabled_classes(o, s),
        covers_enabled_classes(o, s),
{
    o.lemma_enabled_classes();
    assert forall|k: int| 0 <= k < s.len() implies in_enabled_class(o, #[trigger] s[k]) by {
        assert(in_some_set(sets, s[k]));
        let j = choose|j: int| 0 <= j < sets.len() && (#[trigger] sets[j])@.contains(s[k]);
        let c = o.enabled_classes()[j];
        assert(o.enabled_classes().contains(c));
        assert(o.is_enabled(c) && in_class(c, s[k]));
    }
    assert forall|c: CharClass| o.is_enabled(c) implies #[trigger] shares_char(class_seq(c), s) by {
        assert(o.enabled_classes().contains(c));
        let j = choose|j: int| 0 <= j < o.enabled_classes().len() && o.enabled_classes()[j] == c;
        assert(shares_char(sets[j]@, s));
    }
}

} // verus!
