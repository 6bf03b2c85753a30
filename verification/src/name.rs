//! Names of the resources of a plotline.

use vstd::std_specs::iter::IteratorSpec;
use vstd::prelude::*;

verus! {

broadcast use vstd::string::group_string_axioms;

/// The errors of building a [Name].
#[derive(Debug, PartialEq, Eq, Structural)]
pub enum Error {
    /// The string is not a valid name.
    NotAName,
}

impl Error {
    /// The text of the message describing the error.
    pub open spec fn message_text(self) -> Seq<char> {
        "invalid name"@
    }

    /// The message describing the error.
    pub fn message(&self) -> (text: String)
        ensures
            text@ == self.message_text(),
            text@ == "invalid name"@,
    {
        proof {
            reveal_strlit("invalid name");
        }
        String::from_str("invalid name")
    }
}

pub type Result<T> = core::result::Result<T, Error>;

/// The characters that no name may hold: line feed, carriage return and space.
pub open spec fn spec_is_invalid_char(c: char) -> bool {
    c == '\n' || c == '\r' || c == ' '
}

/// A valid name is a non-empty single word: no blank nor line break in it.
pub open spec fn valid_name(s: Seq<char>) -> bool {
    s.len() > 0 && forall|i: int| 0 <= i < s.len() ==> !spec_is_invalid_char(#[trigger] s[i])
}

/// The characters that no name may hold are exactly the line feed, the
/// carriage return and the space; a name is valid exactly when it is not
/// empty and holds none of them, whatever else it holds (letters of either
/// case, digits, punctuation).
pub proof fn lemma_valid_name_chars(s: Seq<char>, c: char)
    ensures
        spec_is_invalid_char(c) <==> (c == '\n' || c == '\r' || c == ' '),
        valid_name(s) <==> (s.len() > 0 && forall|i: int|
            0 <= i < s.len() ==> s[i] != '\n' && s[i] != '\r' && s[i] != ' '),
{
}

/// Returns true if, and only if, the given char c is an invalid character inside a name.
pub fn is_invalid_char(c: char) -> (invalid: bool)
    ensures
        invalid == spec_is_invalid_char(c),
{
    c == '\n' || c == '\r' || c == ' '
}

/// Returns true if, and only if, some character of `text` is invalid inside a name.
fn has_invalid_char(text: &str) -> (found: bool)
    ensures
        found == exists|i: int| 0 <= i < text@.len() && spec_is_invalid_char(#[trigger] text@[i]),
{
    let mut chars = text.chars();
    let ghost mut consumed: int = 0;
    loop
        invariant
            0 <= consumed <= text@.len(),
            chars.remaining() == text@.subrange(consumed, text@.len() as int),
            forall|j: int| 0 <= j < consumed ==> !spec_is_invalid_char(#[trigger] text@[j]),
        decreases text@.len() - consumed,
    {
        let ghost before = chars.remaining();
        match chars.next() {
            Some(c) => {
                assert(before[0] == text@[consumed]);
                if is_invalid_char(c) {
                    return true;
                }
                proof {
                    consumed = consumed + 1;
                    assert(chars.remaining() =~= text@.subrange(consumed, text@.len() as int));
                }
            },
            None => {
                assert(consumed == text@.len());
                return false;
            },
        }
    }
}

/// An Name identifies one or more resources.
#[derive(Debug)]
pub struct Name {
    name: String,
}

impl View for Name {
    type V = Seq<char>;

    closed spec fn view(&self) -> Seq<char> {
        self.name@
    }
}

impl Clone for Name {
    fn clone(&self) -> (copy: Self)
        ensures
            copy == *self,
    {
        Name { name: self.name.clone() }
    }
}

impl Eq for Name {

}

impl PartialEq for Name {
    fn eq(&self, other: &Self) -> (equal: bool) {
        self.name == other.name
    }
}

impl vstd::std_specs::cmp::PartialEqSpecImpl for Name {
    open spec fn obeys_eq_spec() -> bool {
        true
    }

    open spec fn eq_spec(&self, other: &Self) -> bool {
        self@ == other@
    }
}

impl Name {
    /// A name must consist of a single word string.
    pub fn try_from(value: String) -> (name: Result<Self>)
        ensures
            name matches Ok(n) ==> n@ == value@,
            name is Ok <==> valid_name(value@),
            name matches Err(e) ==> e == Error::NotAName,
    {
        if value.as_str().is_empty() || has_invalid_char(value.as_str()) {
            return Err(Error::NotAName);
        }
        Ok(Name { name: value })
    }

    /// Returns the name as a string slice.
    pub fn as_ref(&self) -> (text: &str)
        ensures
            text@ == self@,
    {
        self.name.as_str()
    }

    /// Returns a copy of the name as a string.
    pub fn to_string(&self) -> (text: String)
        ensures
            text@ == self@,
    {
        self.name.clone()
    }
}

} // verus!
