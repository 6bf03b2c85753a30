//! Text layouts of an entity.

use super::Entity;
use crate::id::uuid_text;
use std::marker::PhantomData;
use vstd::prelude::*;

verus! {

broadcast use vstd::string::group_string_axioms;

/// `count` spaces.
pub open spec fn spaces(count: nat) -> Seq<char> {
    Seq::new(count, |i: int| ' ')
}

/// The text padded on the right with spaces up to `width` characters, or the
/// text itself when it is not shorter.
pub open spec fn pad_right(text: Seq<char>, width: nat) -> Seq<char> {
    if text.len() < width {
        text + spaces((width - text.len()) as nat)
    } else {
        text
    }
}

/// Returns the text padded on the right with spaces up to `width` characters.
pub fn pad(text: &str, width: usize) -> (padded: String)
    ensures
        padded@ == pad_right(text@, width as nat),
{
    let mut padded = String::from_str(text);
    let length = text.unicode_len();
    let mut count = length;
    proof {
        reveal_strlit(" ");
    }
    while count < width
        invariant
            length == text@.len(),
            length <= count || width <= count || count == length,
            count >= length,
            count < width ==> padded@ == text@ + spaces((count - length) as nat),
            count >= width ==> padded@ == pad_right(text@, width as nat),
        decreases width - count,
    {
        padded.append(" ");
        proof {
            reveal_strlit(" ");
            assert(spaces((count + 1 - length) as nat) =~= spaces((count - length) as nat)
                + " "@);
        }
        count = count + 1;
        proof {
            if count >= width {
                assert(padded@ =~= pad_right(text@, width as nat));
            }
        }
    }
    proof {
        if length >= width {
            assert(padded@ == text@);
        }
    }
    padded
}

/// Displays the [Entity] in a single line.
pub struct Row;

/// Displays the [Entity] in different lines.
pub struct Column;

/// Implements diffent strategies of display for [Entity].
pub struct EntityFmt<'a, S> {
    pub style: PhantomData<S>,
    pub entity: &'a Entity,
}

/// The single line of an entity: its name padded to 15 characters, a space,
/// its id padded to 40, and a line break.
pub open spec fn row_text(entity: Entity) -> Seq<char> {
    pad_right(entity.name@, 15) + " "@ + pad_right(uuid_text(entity.id@), 40) + "\n"@
}

/// The lines of an entity: `NAME` and `UUID`, each padded to 10 characters,
/// followed by a space and the name or the id.
pub open spec fn column_text(entity: Entity) -> Seq<char> {
    pad_right("NAME"@, 10) + " "@ + entity.name@ + "\n"@ + pad_right("UUID"@, 10) + " "@
        + uuid_text(entity.id@) + "\n"@
}

/// The headers of the row-like display: `NAME` padded to 15 characters, a
/// space and `UUID` padded to 40.
pub open spec fn headers_text() -> Seq<char> {
    pad_right("NAME"@, 15) + " "@ + pad_right("UUID"@, 40)
}

impl<'a> EntityFmt<'a, Row> {
    /// Returns the string of headers corresponding to the row-like display.
    pub fn headers() -> (text: String)
        ensures
            text@ == headers_text(),
    {
        let mut text = pad("NAME", 15);
        text.append(" ");
        let uuid = pad("UUID", 40);
        text.append(uuid.as_str());
        text
    }

    /// Returns an instance of [EntityFmt] that displays the given entity in a single line.
    pub fn row(entity: &'a Entity) -> (fmt: Self)
        ensures
            *fmt.entity == *entity,
    {
        EntityFmt { style: PhantomData, entity }
    }

    /// The text of the entity in a single line.
    pub fn to_string(&self) -> (text: String)
        ensures
            text@ == row_text(*self.entity),
    {
        let name = self.entity.name.to_string();
        let id = self.entity.id.to_string();
        let mut text = pad(name.as_str(), 15);
        text.append(" ");
        let id_text = pad(id.as_str(), 40);
        text.append(id_text.as_str());
        text.append("\n");
        text
    }
}

impl<'a> EntityFmt<'a, Column> {
    /// Returns an instance of [EntityFmt] that displays the given entity in different lines.
    pub fn column(entity: &'a Entity) -> (fmt: Self)
        ensures
            *fmt.entity == *entity,
    {
        EntityFmt { style: PhantomData, entity }
    }

    /// The text of the entity in different lines.
    pub fn to_string(&self) -> (text: String)
        ensures
            text@ == column_text(*self.entity),
    {
        let mut text = pad("NAME", 10);
        text.append(" ");
        text.append(self.entity.name.as_ref());
        text.append("\n");
        let uuid = pad("UUID", 10);
        text.append(uuid.as_str());
        text.append(" ");
        let id = self.entity.id.to_string();
        text.append(id.as_str());
        text.append("\n");
        text
    }
}

} // verus!
