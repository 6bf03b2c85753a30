//! Unique identifiers of the resources of a plotline.

use vstd::prelude::*;

verus! {

/// The errors of building an [Id].
#[derive(Debug, PartialEq, Eq)]
pub enum Error {
    /// The text is not a valid UUID; holds the reason the parser gave.
    Uuid(String),
}

impl Error {
    /// The text of the message describing the error: `uuid: ` followed by
    /// the reason.
    pub open spec fn message_text(self) -> Seq<char> {
        match self {
            Error::Uuid(reason) => "uuid: "@ + reason@,
        }
    }

    /// The message describing the error: `uuid: ` followed by the reason.
    pub fn message(&self) -> (text: String)
        ensures
            text@ == self.message_text(),
            self matches Error::Uuid(reason) ==> text@ == "uuid: "@ + reason@,
    {
        match self {
            Error::Uuid(reason) => {
                proof {
                    reveal_strlit("uuid: ");
                }
                let mut text = String::from_str("uuid: ");
                text.append(reason.as_str());
                text
            },
        }
    }
}

pub type Result<T> = core::result::Result<T, Error>;

/// Identifiable qualifies a resource of being uniquely identifiable.
pub trait Identifiable {
    /// The identifier of the resource.
    spec fn spec_id(&self) -> Id;

    /// Returns the identifier of the resource.
    fn id(&self) -> (id: Id)
        ensures
            id == self.spec_id(),
    ;
}

/// The lowercase hexadecimal digit of the given value, which is below 16.
pub open spec fn hex_digit(n: int) -> char {
    if n < 10 {
        (48 + n) as char
    } else {
        (87 + n) as char
    }
}

/// The `k`-th hexadecimal digit of the 32 that make up `v`, the most
/// significant first.
pub open spec fn nibble(v: u128, k: int) -> int {
    (v as int / vstd::arithmetic::power::pow(16, (31 - k) as nat)) % 16
}

/// The position, among the 32 digits of a UUID, of the character at `i` of
/// its hyphenated text.
pub open spec fn digit_position(i: int) -> int {
    if i < 8 {
        i
    } else if i < 13 {
        i - 1
    } else if i < 18 {
        i - 2
    } else if i < 23 {
        i - 3
    } else {
        i - 4
    }
}

/// The hyphenated text of a UUID: its 32 lowercase hexadecimal digits, most
/// significant first, in groups of 8, 4, 4, 4 and 12 joined by hyphens.
pub open spec fn uuid_text(v: u128) -> Seq<char> {
    Seq::new(
        36,
        |i: int|
            if i == 8 || i == 13 || i == 18 || i == 23 {
                '-'
            } else {
                hex_digit(nibble(v, digit_position(i)))
            },
    )
}

/// The value of the UUID that `uuid::Uuid::parse_str` reads in the given
/// text, if it reads one.
pub uninterp spec fn uuid_parse(text: Seq<char>) -> Option<u128>;

/// Calls `uuid::Uuid::parse_str`, turning the UUID it reads into its 128-bit
/// value and its error into the error's message. The value is named by
/// [uuid_parse]; the crate documents that it reads back any text it writes,
/// so the hyphenated text of a value gives that value. Which other texts it
/// accepts, and the words of its messages, are left unsaid.
#[verifier::external_body]
fn parse_uuid(text: &str) -> (parsed: core::result::Result<u128, String>)
    ensures
        parsed matches Ok(v) ==> uuid_parse(text@) == Some(v),
        parsed is Err ==> uuid_parse(text@) is None,
        parsed is Ok || (forall|v: u128| #[trigger] uuid_text(v) != text@),
        parsed matches Ok(w) ==> (forall|v: u128| #[trigger] uuid_text(v) == text@ ==> w == v),
{
    match uuid::Uuid::parse_str(text) {
        Ok(uuid) => Ok(uuid.as_u128()),
        Err(error) => Err(error.to_string()),
    }
}

/// Calls the `Display` implementation of `uuid::Uuid` (through `to_string`)
/// on the UUID of the given value, which writes its hyphenated lowercase text.
#[verifier::external_body]
fn format_uuid(v: u128) -> (text: String)
    ensures
        text@ == uuid_text(v),
{
    uuid::Uuid::from_u128(v).to_string()
}

/// Calls `uuid::Uuid::new_v4`, which returns a random UUID of version 4 and
/// of the RFC variant: the claim is only on those fixed bits.
#[verifier::external_body]
fn random_uuid() -> (v: u128)
    ensures
        (v >> 76u128) & 0xfu128 == 4,
        (v >> 62u128) & 0x3u128 == 2,
{
    uuid::Uuid::new_v4().as_u128()
}

/// An Id uniquely identifies a resource; ids are ordered and hashed by the
/// value of their UUID.
#[derive(Debug, Hash, PartialOrd, Ord)]
pub struct Id {
    uuid: u128,
}

impl View for Id {
    type V = u128;

    closed spec fn view(&self) -> u128 {
        self.uuid
    }
}

impl Clone for Id {
    fn clone(&self) -> (copy: Self)
        ensures
            copy == *self,
    {
        *self
    }
}

impl Copy for Id {

}

impl Eq for Id {

}

impl PartialEq for Id {
    fn eq(&self, other: &Self) -> (equal: bool) {
        self.uuid == other.uuid
    }
}

impl vstd::std_specs::cmp::PartialEqSpecImpl for Id {
    open spec fn obeys_eq_spec() -> bool {
        true
    }

    open spec fn eq_spec(&self, other: &Self) -> bool {
        self@ == other@
    }
}

impl Default for Id {
    /// Returns a random generated id.
    fn default() -> (id: Self)
        ensures
            (id@ >> 76u128) & 0xfu128 == 4,
            (id@ >> 62u128) & 0x3u128 == 2,
    {
        Id { uuid: random_uuid() }
    }
}

impl Id {
    /// Two ids are the same exactly when their values are.
    pub proof fn lemma_view_injective(a: Self, b: Self)
        ensures
            a@ == b@ <==> a == b,
    {
    }

    /// Returns the id whose UUID has the given 128-bit value.
    pub fn from_u128(value: u128) -> (id: Self)
        ensures
            id@ == value,
    {
        Id { uuid: value }
    }

    /// Returns the 128-bit value of the id's UUID.
    pub fn as_u128(&self) -> (value: u128)
        ensures
            value == self@,
    {
        self.uuid
    }

    /// Parses an id out of the text of a UUID.
    pub fn try_from(value: String) -> (id: Result<Self>)
        ensures
            id matches Ok(i) ==> uuid_parse(value@) == Some(i@),
            id is Err <==> uuid_parse(value@) is None,
            id is Ok || (forall|v: u128| #[trigger] uuid_text(v) != value@),
            id matches Ok(i) ==> (forall|v: u128| #[trigger] uuid_text(v) == value@ ==> i@ == v),
    {
        match parse_uuid(value.as_str()) {
            Ok(uuid) => Ok(Id { uuid }),
            Err(error) => Err(Error::Uuid(error)),
        }
    }

    /// Returns the hyphenated lowercase text of the id's UUID.
    pub fn to_string(&self) -> (text: String)
        ensures
            text@ == uuid_text(self@),
    {
        format_uuid(self.uuid)
    }
}

} // verus!
