use crate::text::{trim, trim_start, trimmed, white_space};
use vstd::prelude::*;

verus! {

/// The letter case that matched text is rewritten to.
#[derive(Clone, Copy, Debug, PartialEq, Eq, Structural)]
pub enum TargetCase {
    UpperCase,
    LowerCase,
}

/// The upper-case form of `text`.
pub uninterp spec fn uppercase_of(text: Seq<char>) -> Seq<char>;

/// The lower-case form of `text`.
pub uninterp spec fn lowercase_of(text: Seq<char>) -> Seq<char>;

/// `str::to_uppercase`: the Unicode upper-case form of the string, which
/// depends on the characters of the string alone.
#[verifier::external_body]
pub(crate) fn to_uppercase(text: &str) -> (r: String)
    ensures
        r@ == uppercase_of(text@),
{
    text.to_uppercase()
}

/// `str::to_lowercase`: the Unicode lower-case form of the string, which
/// depends on the characters of the string alone.
#[verifier::external_body]
pub(crate) fn to_lowercase(text: &str) -> (r: String)
    ensures
        r@ == lowercase_of(text@),
{
    text.to_lowercase()
}

/// The characters of the word that names the upper case.
pub open spec fn uppercase_word() -> Seq<char> {
    seq!['u', 'p', 'p', 'e', 'r', 'c', 'a', 's', 'e']
}

/// The characters of the word that names the lower case.
pub open spec fn lowercase_word() -> Seq<char> {
    seq!['l', 'o', 'w', 'e', 'r', 'c', 'a', 's', 'e']
}

/// A name as it is read: in lower case, without the white space around it.
pub open spec fn normalized(name: Seq<char>) -> Seq<char> {
    trimmed(lowercase_of(name))
}

/// Whether `name` names one of the two cases.
pub open spec fn names_case(name: Seq<char>) -> bool {
    normalized(name) == uppercase_word() || normalized(name) == lowercase_word()
}

/// The two words hold no white space, so trimming leaves them as they are.
pub proof fn lemma_case_words_trimmed()
    ensures
        trimmed(uppercase_word()) == uppercase_word(),
        trimmed(lowercase_word()) == lowercase_word(),
{
    assert(!white_space('u') && !white_space('l') && !white_space('e'));
    assert(trim_start(uppercase_word()) == uppercase_word());
    assert(trim_start(lowercase_word()) == lowercase_word());
}

/// The case that `name` stands for: the lower case when it names the lower
/// case, the upper case for every other name.
pub open spec fn case_named(name: Seq<char>) -> TargetCase {
    if normalized(name) == lowercase_word() {
        TargetCase::LowerCase
    } else {
        TargetCase::UpperCase
    }
}

impl TargetCase {
    /// `text` in this case.
    pub open spec fn mapped(self, text: Seq<char>) -> Seq<char> {
        match self {
            TargetCase::UpperCase => uppercase_of(text),
            TargetCase::LowerCase => lowercase_of(text),
        }
    }

    /// Rewrites `text` in this case.
    pub fn apply(self, text: &str) -> (r: String)
        ensures
            r@ == self.mapped(text@),
    {
        match self {
            TargetCase::UpperCase => to_uppercase(text),
            TargetCase::LowerCase => to_lowercase(text),
        }
    }
}

/// Whether `text` is the word "uppercase".
fn is_uppercase_word(text: &str) -> (r: bool)
    ensures
        r == (text@ == uppercase_word()),
{
    proof {
        reveal_strlit("uppercase");
    }
    let word = "uppercase";
    assert(word@ =~= uppercase_word());
    text.to_owned() == word.to_owned()
}

/// Whether `text` is the word "lowercase".
fn is_lowercase_word(text: &str) -> (r: bool)
    ensures
        r == (text@ == lowercase_word()),
{
    proof {
        reveal_strlit("lowercase");
    }
    let word = "lowercase";
    assert(word@ =~= lowercase_word());
    text.to_owned() == word.to_owned()
}

/// Whether `name` names one of the two cases, whatever the case of its own
/// letters and the white space around it.
pub fn is_case_name(name: &str) -> (r: bool)
    ensures
        r == names_case(name@),
{
    let lowered = to_lowercase(name);
    let word = trim(lowered.as_str());
    is_uppercase_word(word) || is_lowercase_word(word)
}

impl From<&str> for TargetCase {
    fn from(value: &str) -> (case: TargetCase) {
        let lowered = to_lowercase(value);
        if is_lowercase_word(trim(lowered.as_str())) {
            TargetCase::LowerCase
        } else {
            TargetCase::UpperCase
        }
    }
}

impl vstd::std_specs::convert::FromSpecImpl<&str> for TargetCase {
    open spec fn obeys_from_spec() -> bool {
        true
    }

    open spec fn from_spec(value: &str) -> TargetCase {
        case_named(value@)
    }
}

} // verus!
