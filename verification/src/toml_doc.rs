//! The configuration file as an editable document, by way of the `toml_edit`
//! crate: edits leave comments, blank lines and the order of the fields alone.
//! What the crate does to them is taken on trust, and stated of each call below.

use vstd::multiset::Multiset;
use vstd::prelude::*;

use crate::text;

verus! {

/// The editable documents of the `toml_edit` crate.
#[verifier::external_type_specification]
#[verifier::external_body]
pub struct ExDocumentMut(toml_edit::DocumentMut);

// ---------------------------------------------------------------------------
// What a document says
// ---------------------------------------------------------------------------

/// One cell of an array in an array.
#[verifier::ext_equal]
pub enum Cell {
    Text(Seq<char>),
    /// Anything but a string, by its value.
    Other(Seq<char>),
}

/// One slot of an array.
#[verifier::ext_equal]
pub enum Slot {
    Cells(Seq<Cell>),
    /// Anything but an array, by its value.
    Other(Seq<char>),
}

/// One field of a section.
#[verifier::ext_equal]
pub enum Field {
    Text(Seq<char>),
    Array(Seq<Slot>),
    /// Anything else, by its value: a number, a date, a table with all it holds.
    Other(Seq<char>),
}

/// One top-level entry of a document.
#[verifier::ext_equal]
pub enum Section {
    Table(Map<Seq<char>, Field>),
    /// Anything but a table, by its value.
    Other(Seq<char>),
}

/// The comments of some stretch of a document.
pub type Notes = Multiset<Seq<char>>;

/// How one slot of an array is written.
#[verifier::ext_equal]
pub struct SlotLayout {
    /// The white space and comments before it, and behind it; line ends are
    /// without a carriage return, as the crate writes them.
    pub before: Seq<char>,
    pub behind: Seq<char>,
    /// The comments in these two.
    pub beside: Notes,
    /// The comments between its own brackets.
    pub within: Notes,
}

/// How the end of an array is written.
#[verifier::ext_equal]
pub struct Closing {
    /// Whether a comma follows the last slot, if there is one.
    pub comma: bool,
    /// The white space and comments before the bracket that closes the array,
    /// behind what belongs to the last slot.
    pub text: Seq<char>,
}

/// What a document holds, and how it is written.
///
/// Fields are found by their section and key. A field is written as a line where
/// it is a value or made of dotted keys, and under headers of its own where it is
/// a table.
#[verifier::ext_equal]
pub struct Contents {
    /// The top-level entries.
    pub sections: Map<Seq<char>, Section>,
    /// The names of the top-level entries, in the order in which they are first
    /// written.
    pub order: Seq<Seq<char>>,
    /// For each section that is a table, the fields that are written as lines, in
    /// the order in which they are first written.
    pub lines: Map<Seq<char>, Seq<Seq<char>>>,
    /// All comments.
    pub comments: Notes,
    /// For each section that is a table, the comments above its header and at the
    /// end of its line.
    pub headers: Map<Seq<char>, Notes>,
    /// For each field, the comments above its line and at the end of it; none for
    /// a table.
    pub beside: Map<(Seq<char>, Seq<char>), Notes>,
    /// For each field, the comments between its brackets; for a table, all that
    /// it holds, those of its headers too.
    pub within: Map<(Seq<char>, Seq<char>), Notes>,
    /// For each field that is a value, what is written between the equals sign and
    /// the value, and between the value and the end of its line.
    pub sides: Map<(Seq<char>, Seq<char>), (Seq<char>, Seq<char>)>,
    /// For each field, what is written above it: the blank lines, comments and
    /// other white space between the end of the line before and its own line, or
    /// for a table each of its lines and headers, in the order in which they are
    /// written. Line ends are without a carriage return, as the crate writes them.
    pub above: Map<(Seq<char>, Seq<char>), Seq<Seq<char>>>,
    /// For each section that is a table and whose header was read, what is written
    /// above the header. One that an edit added gets a blank line when it is
    /// written, unless it comes first.
    pub heads: Map<Seq<char>, Seq<char>>,
    /// For each top-level entry that is no table, what is written above each of
    /// its lines and headers.
    pub tops: Map<Seq<char>, Seq<Seq<char>>>,
    /// What is written below the last line.
    pub tail: Seq<char>,
    /// For each field that is an array, how its slots are written.
    pub slots: Map<(Seq<char>, Seq<char>), Seq<SlotLayout>>,
    /// For each field that is an array, how its end is written.
    pub closings: Map<(Seq<char>, Seq<char>), Closing>,
}

/// What a document holds, and how it is written.
pub uninterp spec fn toml_contents(doc: toml_edit::DocumentMut) -> Contents;

/// What parsing a text as a `toml_edit::DocumentMut` gives: the contents of the
/// document, or the message of the error.
pub uninterp spec fn toml_reading(text: Seq<char>) -> Result<Contents, Seq<char>>;

/// Whether every header that a document is written with has a place of its own,
/// as in a document that was parsed. A header that an edit added is placed by the
/// ones before it.
pub uninterp spec fn toml_settled(doc: toml_edit::DocumentMut) -> bool;

/// A reading that succeeded.
pub open spec fn is_reading(reading: Result<Contents, Seq<char>>, contents: Contents) -> bool {
    reading matches Ok(found) && found == contents
}

/// Whether what is written above each header stayed.
pub open spec fn is_kept(old: Map<Seq<char>, Seq<char>>, new: Map<Seq<char>, Seq<char>>) -> bool {
    forall|s: Seq<char>| #[trigger]
        old.contains_key(s) ==> new.contains_key(s) && new[s] == old[s]
}

/// Whether an array reads back as it is written: with the same slots and the same
/// end. What stood in an empty array before the bracket closes reads as part of a
/// slot that was added to it, so that such an array is left out.
pub open spec fn is_array_read_back(
    now: Contents,
    c: Contents,
    place: (Seq<char>, Seq<char>),
) -> bool {
    let closing = c.closings[place];
    c.slots.contains_key(place) ==> {
        &&& now.slots.contains_key(place)
        &&& c.slots[place].len() == 0 ==> now.slots[place].len() == 0 && now.closings[place].text
            == closing.text
        &&& c.slots[place].len() > 0 && (closing.comma || closing.text.len() == 0) ==> {
            &&& now.slots[place] == c.slots[place]
            &&& now.closings[place] == closing
        }
    }
}

/// Whether `now` is what reading `c` back from its text finds: the same in
/// everything, but that a header that an edit added has something above it now,
/// and that the first slot of an array may have taken over what stood in it.
pub open spec fn is_read_back(now: Contents, c: Contents) -> bool {
    &&& now == (Contents { slots: now.slots, closings: now.closings, heads: now.heads, ..c })
    &&& is_kept(c.heads, now.heads)
    &&& forall|place: (Seq<char>, Seq<char>)| #[trigger] is_array_read_back(now, c, place)
}

/// A reading that succeeded, with what the contents read back as.
pub open spec fn reads_as(reading: Result<Contents, Seq<char>>, contents: Contents) -> bool {
    reading matches Ok(found) && is_read_back(found, contents)
}

/// The fields of a section, if it is there and is a table.
pub open spec fn table_at(
    sections: Map<Seq<char>, Section>,
    section: Seq<char>,
) -> Option<Map<Seq<char>, Field>> {
    if sections.contains_key(section) {
        match sections[section] {
            Section::Table(fields) => Some(fields),
            Section::Other(_) => None,
        }
    } else {
        None
    }
}

/// An empty document.
pub open spec fn nothing() -> Contents {
    Contents {
        sections: Map::empty(),
        order: Seq::empty(),
        lines: Map::empty(),
        comments: Multiset::empty(),
        headers: Map::empty(),
        beside: Map::empty(),
        within: Map::empty(),
        sides: Map::empty(),
        above: Map::empty(),
        heads: Map::empty(),
        tops: Map::empty(),
        tail: Seq::empty(),
        slots: Map::empty(),
        closings: Map::empty(),
    }
}

/// Whether what is filed of a document belongs to what it holds: each table has
/// its lines and its header, each field its comments and what is written above
/// it, each slot its layout, and nothing else is filed.
pub open spec fn is_consistent(c: Contents) -> bool {
    &&& forall|s: Seq<char>| #[trigger] c.order.contains(s) == c.sections.contains_key(s)
    &&& forall|s: Seq<char>| #[trigger]
        c.lines.contains_key(s) == (table_at(c.sections, s) is Some)
    &&& forall|s: Seq<char>| #[trigger]
        c.headers.contains_key(s) == (table_at(c.sections, s) is Some)
    &&& forall|s: Seq<char>, k: Seq<char>| #[trigger]
        lines_at(c, s).contains(k) ==> field_at(c.sections, s, k) is Some
    &&& forall|s: Seq<char>, k: Seq<char>| #[trigger]
        c.beside.contains_key((s, k)) == (field_at(c.sections, s, k) is Some)
    &&& forall|s: Seq<char>, k: Seq<char>| #[trigger]
        c.within.contains_key((s, k)) == (field_at(c.sections, s, k) is Some)
    &&& forall|s: Seq<char>, k: Seq<char>| #[trigger]
        c.sides.contains_key((s, k)) ==> field_at(c.sections, s, k) is Some
    &&& forall|s: Seq<char>, k: Seq<char>| #[trigger]
        c.above.contains_key((s, k)) == (field_at(c.sections, s, k) is Some)
    &&& forall|s: Seq<char>| #[trigger]
        c.heads.contains_key(s) ==> table_at(c.sections, s) is Some
    &&& forall|s: Seq<char>, k: Seq<char>| #[trigger]
        c.slots.contains_key((s, k)) == (array_at(c.sections, s, k) is Some)
    &&& forall|s: Seq<char>, k: Seq<char>|
        array_at(c.sections, s, k) is Some ==> (#[trigger] c.slots[(s, k)]).len() == array_at(
            c.sections,
            s,
            k,
        )->0.len()
    &&& forall|s: Seq<char>, k: Seq<char>| #[trigger]
        c.closings.contains_key((s, k)) == (array_at(c.sections, s, k) is Some)
    &&& forall|s: Seq<char>, k: Seq<char>|
        #![trigger c.closings[(s, k)]]
        array_at(c.sections, s, k) is Some && c.slots[(s, k)].len() > 0 && !c.closings[(s, k)].comma
            ==> c.closings[(s, k)].text.len() == 0
}

/// A table without fields.
pub open spec fn no_fields() -> Map<Seq<char>, Field> {
    Map::empty()
}

/// A field, if it is there.
pub open spec fn field_at(
    sections: Map<Seq<char>, Section>,
    section: Seq<char>,
    key: Seq<char>,
) -> Option<Field> {
    match table_at(sections, section) {
        Some(fields) => if fields.contains_key(key) {
            Some(fields[key])
        } else {
            None
        },
        None => None,
    }
}

/// The text of a field, if it is there and is a string.
pub open spec fn text_at(
    sections: Map<Seq<char>, Section>,
    section: Seq<char>,
    key: Seq<char>,
) -> Option<Seq<char>> {
    match field_at(sections, section, key) {
        Some(Field::Text(t)) => Some(t),
        _ => None,
    }
}

/// The slots of a field, if it is there and is an array.
pub open spec fn array_at(
    sections: Map<Seq<char>, Section>,
    section: Seq<char>,
    key: Seq<char>,
) -> Option<Seq<Slot>> {
    match field_at(sections, section, key) {
        Some(Field::Array(slots)) => Some(slots),
        _ => None,
    }
}

/// The sections with one field set.
pub open spec fn with_field(
    sections: Map<Seq<char>, Section>,
    section: Seq<char>,
    key: Seq<char>,
    field: Field,
) -> Map<Seq<char>, Section> {
    sections.insert(section, Section::Table(table_at(sections, section)->0.insert(key, field)))
}

/// The slot that holds two strings.
pub open spec fn pair_slot(from: Seq<char>, to: Seq<char>) -> Slot {
    Slot::Cells(seq![Cell::Text(from), Cell::Text(to)])
}

// ---------------------------------------------------------------------------
// What an edit does
// ---------------------------------------------------------------------------

/// The comments filed for a field; none where there is no such field.
pub open spec fn notes_at(
    c: Contents,
    notes: Map<(Seq<char>, Seq<char>), Notes>,
    place: (Seq<char>, Seq<char>),
) -> Notes {
    if field_at(c.sections, place.0, place.1) is Some {
        notes[place]
    } else {
        Multiset::empty()
    }
}

/// The fields of a section that are written as lines; none where it is no table.
pub open spec fn lines_at(c: Contents, section: Seq<char>) -> Seq<Seq<char>> {
    if table_at(c.sections, section) is Some {
        c.lines[section]
    } else {
        Seq::empty()
    }
}

/// The names without `name`.
pub open spec fn without(names: Seq<Seq<char>>, name: Seq<char>) -> Seq<Seq<char>>
    decreases names.len(),
{
    if names.len() == 0 {
        names
    } else if names.last() == name {
        without(names.drop_last(), name)
    } else {
        without(names.drop_last(), name).push(names.last())
    }
}

/// Leaving a name out a second time changes nothing.
pub proof fn without_is_idempotent(names: Seq<Seq<char>>, name: Seq<char>)
    ensures
        without(without(names, name), name) == without(names, name),
    decreases names.len(),
{
    if names.len() > 0 {
        let front = without(names.drop_last(), name);
        without_is_idempotent(names.drop_last(), name);
        assert(front.push(names.last()).drop_last() == front);
    }
}

/// Names that do not hold `name` stay as they are without it.
pub proof fn without_absent(names: Seq<Seq<char>>, name: Seq<char>)
    requires
        !names.contains(name),
    ensures
        without(names, name) == names,
    decreases names.len(),
{
    if names.len() > 0 {
        let front = names.drop_last();
        assert(names[names.len() - 1] != name);
        assert(!front.contains(name)) by {
            if front.contains(name) {
                let i = choose|i: int| 0 <= i < front.len() && front[i] == name;
                assert(names[i] == name);
            }
        }
        without_absent(front, name);
        assert(front.push(names.last()) == names);
    }
}

/// The contents with an empty section added, in the given order.
pub open spec fn section_added(
    c: Contents,
    section: Seq<char>,
    order: Seq<Seq<char>>,
) -> Contents {
    Contents {
        sections: c.sections.insert(section, Section::Table(no_fields())),
        order,
        lines: c.lines.insert(section, Seq::empty()),
        headers: c.headers.insert(section, Multiset::empty()),
        ..c
    }
}

/// Whether `new` is `old` with an empty section added: the other entries keep
/// their order.
pub open spec fn is_section_added(old: Contents, new: Contents, section: Seq<char>) -> bool {
    &&& new == section_added(old, section, new.order)
    &&& new.order.contains(section)
    &&& without(new.order, section) == without(old.order, section)
}

/// The contents with a section removed that holds nothing but `key`, or nothing
/// at all, in the given order. Only its own comments go.
pub open spec fn section_removed(
    c: Contents,
    section: Seq<char>,
    key: Seq<char>,
    order: Seq<Seq<char>>,
) -> Contents {
    let place = (section, key);
    Contents {
        sections: c.sections.remove(section),
        order,
        lines: c.lines.remove(section),
        comments: c.comments.sub(c.headers[section]).sub(notes_at(c, c.beside, place)).sub(
            notes_at(c, c.within, place),
        ),
        headers: c.headers.remove(section),
        beside: c.beside.remove(place),
        within: c.within.remove(place),
        sides: c.sides.remove(place),
        above: c.above.remove(place),
        heads: c.heads.remove(section),
        tops: c.tops,
        tail: c.tail,
        slots: c.slots.remove(place),
        closings: c.closings.remove(place),
    }
}

/// Whether `new` is `old` with a section removed that held at most one field.
pub open spec fn is_section_removed(old: Contents, new: Contents, section: Seq<char>) -> bool {
    forall|key: Seq<char>|
        table_at(old.sections, section)->0.remove(key) == no_fields() ==> new
            == #[trigger] section_removed(old, section, key, new.order)
}

/// Whether a section holds at most one field.
pub open spec fn is_nearly_empty(c: Contents, section: Seq<char>) -> bool {
    table_at(c.sections, section) matches Some(fields) && exists|key: Seq<char>| #[trigger]
        fields.remove(key) == no_fields()
}

/// The contents with a field removed, in the given order. Only its own comments
/// go.
pub open spec fn field_removed(
    c: Contents,
    section: Seq<char>,
    key: Seq<char>,
    order: Seq<Seq<char>>,
) -> Contents {
    let place = (section, key);
    Contents {
        sections: c.sections.insert(
            section,
            Section::Table(table_at(c.sections, section)->0.remove(key)),
        ),
        order,
        lines: c.lines.insert(section, without(c.lines[section], key)),
        comments: c.comments.sub(notes_at(c, c.beside, place)).sub(notes_at(c, c.within, place)),
        beside: c.beside.remove(place),
        within: c.within.remove(place),
        sides: c.sides.remove(place),
        above: c.above.remove(place),
        slots: c.slots.remove(place),
        closings: c.closings.remove(place),
        ..c
    }
}

/// Whether `new` is `old` with a field removed.
pub open spec fn is_field_removed(
    old: Contents,
    new: Contents,
    section: Seq<char>,
    key: Seq<char>,
) -> bool {
    new == field_removed(old, section, key, new.order)
}

/// Whether `order` is in order after a field was removed from a section. The other
/// entries keep their order, and so does the section itself where the field was a
/// line and other lines are left, or was not there.
pub open spec fn is_order_after_removal(
    c: Contents,
    section: Seq<char>,
    key: Seq<char>,
    order: Seq<Seq<char>>,
) -> bool {
    let lines = lines_at(c, section);
    &&& without(order, section) == without(c.order, section)
    &&& lines.contains(key) && without(lines, key).len() > 0 ==> order == c.order
    &&& field_at(c.sections, section, key) is None ==> order == c.order
}

/// What is written on the two sides of a field's value; one space before it where
/// it is not there yet.
pub open spec fn sides_at(c: Contents, place: (Seq<char>, Seq<char>)) -> (Seq<char>, Seq<char>) {
    if c.sides.contains_key(place) {
        c.sides[place]
    } else {
        (" "@, ""@)
    }
}

/// How the slots of a newly set value are written: there are none.
pub open spec fn fresh_slots(
    slots: Map<(Seq<char>, Seq<char>), Seq<SlotLayout>>,
    place: (Seq<char>, Seq<char>),
    value: Field,
) -> Map<(Seq<char>, Seq<char>), Seq<SlotLayout>> {
    if value is Array {
        slots.insert(place, Seq::empty())
    } else {
        slots.remove(place)
    }
}

/// Where a field that was set is written: the order of the top-level entries, the
/// lines of its section, and what is written above it.
#[verifier::ext_equal]
pub struct Placing {
    pub order: Seq<Seq<char>>,
    pub lines: Seq<Seq<char>>,
    pub above: Seq<Seq<char>>,
}

/// Where a field is written.
pub open spec fn placing_of(c: Contents, section: Seq<char>, key: Seq<char>) -> Placing {
    Placing { order: c.order, lines: c.lines[section], above: c.above[(section, key)] }
}

/// How the end of a newly set value is written: with nothing before the bracket.
pub open spec fn fresh_closings(
    closings: Map<(Seq<char>, Seq<char>), Closing>,
    place: (Seq<char>, Seq<char>),
    value: Field,
) -> Map<(Seq<char>, Seq<char>), Closing> {
    if value is Array {
        closings.insert(place, Closing { comma: false, text: Seq::empty() })
    } else {
        closings.remove(place)
    }
}

/// The contents with a field set to a value without comments in it, written at the
/// given place. What stands on the two sides of the value stays, and with it the
/// comments there; only those within the old value go.
pub open spec fn field_set(
    c: Contents,
    section: Seq<char>,
    key: Seq<char>,
    value: Field,
    placing: Placing,
) -> Contents {
    let place = (section, key);
    Contents {
        sections: with_field(c.sections, section, key, value),
        order: placing.order,
        lines: c.lines.insert(section, placing.lines),
        comments: c.comments.sub(notes_at(c, c.within, place)),
        beside: c.beside.insert(place, notes_at(c, c.beside, place)),
        within: c.within.insert(place, Multiset::empty()),
        sides: c.sides.insert(place, sides_at(c, place)),
        above: c.above.insert(place, placing.above),
        slots: fresh_slots(c.slots, place, value),
        closings: fresh_closings(c.closings, place, value),
        ..c
    }
}

/// Whether `lines` are those of the section after a field was set. A line stays
/// where it was, a new field comes last, and the other lines keep their order.
pub open spec fn is_lines_after_set(
    c: Contents,
    section: Seq<char>,
    key: Seq<char>,
    lines: Seq<Seq<char>>,
) -> bool {
    let present = field_at(c.sections, section, key) is Some;
    &&& without(lines, key) == without(lines_at(c, section), key)
    &&& present && lines_at(c, section).contains(key) ==> lines == lines_at(c, section)
    &&& !present ==> lines == lines_at(c, section).push(key)
}

/// Whether `order` is in order after a field was set. The other entries keep their
/// order, and so does the section itself where it had lines and the field is new
/// or was one of them.
pub open spec fn is_order_after_set(
    c: Contents,
    section: Seq<char>,
    key: Seq<char>,
    order: Seq<Seq<char>>,
) -> bool {
    let present = field_at(c.sections, section, key) is Some;
    let lines = lines_at(c, section);
    &&& without(order, section) == without(c.order, section)
    &&& lines.len() > 0 && (!present || lines.contains(key)) ==> order == c.order
}

/// Whether `above` is what is written above a field after it was set: what was
/// written above the old value, nothing above a new field, and no blank line above
/// one that was a table.
pub open spec fn is_above_after_set(
    c: Contents,
    place: (Seq<char>, Seq<char>),
    above: Seq<Seq<char>>,
) -> bool {
    if field_at(c.sections, place.0, place.1) is None {
        above == seq![""@]
    } else if c.sides.contains_key(place) {
        above == c.above[place]
    } else {
        above.len() == 1 && !above[0].contains('\n')
    }
}

/// Whether no header goes with a field, or every other one has its own place: then
/// setting or removing the field keeps the order of the rest.
pub open spec fn is_steady(settled: bool, c: Contents, place: (Seq<char>, Seq<char>)) -> bool {
    settled || field_at(c.sections, place.0, place.1) is None || c.sides.contains_key(place)
}

/// Whether `new` is `old` with a field of a section set to a value.
pub open spec fn is_field_set(
    old: Contents,
    new: Contents,
    section: Seq<char>,
    key: Seq<char>,
    value: Field,
) -> bool {
    &&& new == field_set(old, section, key, value, placing_of(new, section, key))
    &&& is_lines_after_set(old, section, key, new.lines[section])
    &&& is_above_after_set(old, (section, key), new.above[(section, key)])
}

/// The contents with a field set, in a section that may be new.
pub open spec fn field_put(
    c: Contents,
    section: Seq<char>,
    key: Seq<char>,
    value: Field,
    placing: Placing,
) -> Contents {
    let ready = if c.sections.contains_key(section) {
        c
    } else {
        section_added(c, section, placing.order)
    };
    field_set(ready, section, key, value, placing)
}

/// Whether a field that was set, in a section that may be new, is written where it
/// should be.
pub open spec fn is_placed(
    c: Contents,
    section: Seq<char>,
    key: Seq<char>,
    placing: Placing,
) -> bool {
    &&& is_order_after_set(c, section, key, placing.order)
    &&& is_lines_after_set(c, section, key, placing.lines)
    &&& is_above_after_set(c, (section, key), placing.above)
}

/// Adding a section and setting a field of it puts the field.
pub proof fn put_in_new_section(
    c: Contents,
    ready: Contents,
    new: Contents,
    section: Seq<char>,
    key: Seq<char>,
    value: Field,
)
    requires
        !c.sections.contains_key(section),
        is_section_added(c, ready, section),
        is_field_set(ready, new, section, key, value),
        is_order_after_set(ready, section, key, new.order),
    ensures
        new == field_put(c, section, key, value, placing_of(new, section, key)),
        is_placed(c, section, key, placing_of(new, section, key)),
{
    let again = section_added(c, section, new.order);
    assert(field_at(again.sections, section, key) is None);
    assert(field_at(ready.sections, section, key) is None);
    assert(new == field_set(again, section, key, value, placing_of(new, section, key)));
}

/// The contents with a pair of strings in a slot. What stands on the two sides of
/// the slot stays; only the comments within it go.
pub open spec fn pair_set(
    c: Contents,
    section: Seq<char>,
    key: Seq<char>,
    i: int,
    from: Seq<char>,
    to: Seq<char>,
) -> Contents {
    let place = (section, key);
    let slot = c.slots[place][i];
    Contents {
        sections: with_field(
            c.sections,
            section,
            key,
            Field::Array(array_at(c.sections, section, key)->0.update(i, pair_slot(from, to))),
        ),
        comments: c.comments.sub(slot.within),
        within: c.within.insert(place, c.within[place].sub(slot.within)),
        slots: c.slots.insert(
            place,
            c.slots[place].update(i, SlotLayout { within: Multiset::empty(), ..slot }),
        ),
        ..c
    }
}

/// The contents with a pair of strings appended to an array, on a line of its
/// own.
pub open spec fn pair_added(
    c: Contents,
    section: Seq<char>,
    key: Seq<char>,
    from: Seq<char>,
    to: Seq<char>,
) -> Contents {
    let place = (section, key);
    let layout = SlotLayout {
        before: "\n    "@,
        behind: ""@,
        beside: Multiset::empty(),
        within: Multiset::empty(),
    };
    Contents {
        sections: with_field(
            c.sections,
            section,
            key,
            Field::Array(array_at(c.sections, section, key)->0.push(pair_slot(from, to))),
        ),
        slots: c.slots.insert(place, c.slots[place].push(layout)),
        ..c
    }
}

/// The contents with a slot removed from an array. Only the comments beside and
/// within the slot go.
pub open spec fn slot_removed(c: Contents, section: Seq<char>, key: Seq<char>, i: int) -> Contents {
    let place = (section, key);
    let slot = c.slots[place][i];
    Contents {
        sections: with_field(
            c.sections,
            section,
            key,
            Field::Array(array_at(c.sections, section, key)->0.remove(i)),
        ),
        comments: c.comments.sub(slot.beside).sub(slot.within),
        within: c.within.insert(place, c.within[place].sub(slot.beside).sub(slot.within)),
        slots: c.slots.insert(place, c.slots[place].remove(i)),
        ..c
    }
}

/// Whether an edit from `a` to `b` left everything but one field alone: all that
/// other sections and the other fields of its section hold, their comments, the
/// blank lines and white space above them and in their arrays, what is written
/// beside their values, and their order.
pub open spec fn same_elsewhere(
    a: Contents,
    b: Contents,
    section: Seq<char>,
    key: Seq<char>,
) -> bool {
    let place = (section, key);
    &&& a.sections.remove(section) == b.sections.remove(section)
    &&& forall|k: Seq<char>|
        k != key ==> #[trigger] field_at(b.sections, section, k) == field_at(
            a.sections,
            section,
            k,
        )
    &&& without(a.order, section) == without(b.order, section)
    &&& a.lines.remove(section) == b.lines.remove(section)
    &&& a.headers.remove(section) == b.headers.remove(section)
    &&& a.beside.remove(place) == b.beside.remove(place)
    &&& a.within.remove(place) == b.within.remove(place)
    &&& a.sides.remove(place) == b.sides.remove(place)
    &&& a.above.remove(place) == b.above.remove(place)
    &&& is_kept(a.heads.remove(section), b.heads)
    &&& a.tops == b.tops
    &&& a.tail == b.tail
    &&& forall|other: (Seq<char>, Seq<char>)|
        other != place ==> #[trigger] is_array_read_back(b, a, other)
    &&& table_at(a.sections, section) is Some && table_at(b.sections, section) is Some ==> {
        &&& is_kept(a.heads, b.heads)
        &&& a.headers[section] == b.headers[section]
        &&& without(a.lines[section], key) == without(b.lines[section], key)
    }
}

/// How many quotes of one kind, without anything between them, `s` ends with.
pub open spec fn quote_run(s: Seq<char>) -> nat
    decreases s.len(),
{
    if s.len() == 0 || (s.last() != '\'' && s.last() != '"') {
        0
    } else if s.len() > 1 && s[s.len() - 2] == s.last() {
        quote_run(s.drop_last()) + 1
    } else {
        1
    }
}

/// Whether `s` can be written: nowhere does it hold more than 255 quotes of one
/// kind in a row.
pub open spec fn is_writable(s: Seq<char>) -> bool {
    forall|k: int| 0 <= k <= s.len() ==> #[trigger] quote_run(s.take(k)) <= 255
}

/// Whether `s` can be written to a document.
pub fn writable(s: &str) -> (r: bool)
    ensures
        r == is_writable(s@),
{
    let chars = text::chars_of(s);
    let n: usize = chars.len();
    let mut run: usize = 0;
    for i in 0..n
        invariant
            n == chars@.len(),
            chars@ == s@,
            run == quote_run(chars@.take(i as int)),
            run <= 255,
            forall|k: int| 0 <= k <= i ==> #[trigger] quote_run(chars@.take(k)) <= 255,
    {
        let ghost now = chars@.take(i + 1);
        assert(now.drop_last() == chars@.take(i as int));
        assert(now.last() == chars@[i as int]);
        if i > 0 {
            assert(now[i - 1] == chars@[i - 1]);
        }
        let c = chars[i];
        if c != '\'' && c != '"' {
            run = 0;
        } else if i > 0 && chars[i - 1] == c {
            run = run + 1;
        } else {
            run = 1;
        }
        if run > 255 {
            return false;
        }
    }
    true
}


// ---------------------------------------------------------------------------
// Documents
// ---------------------------------------------------------------------------

/// A document. Values come from [`ConfigDocument::parse`] and
/// [`ConfigDocument::new`], and change by the edits below alone.
#[derive(Debug)]
pub struct ConfigDocument {
    doc: toml_edit::DocumentMut,
}

/// What a top-level entry is.
#[derive(Debug, Clone, Copy, PartialEq, Eq, Structural)]
pub enum SectionKind {
    Absent,
    Table,
    Other,
}

impl ConfigDocument {
    /// What the document holds, and how it is written.
    pub closed spec fn contents(self) -> Contents {
        toml_contents(self.doc)
    }

    /// Whether every header has a place of its own, as in a document that was
    /// parsed and that no section was added to.
    pub closed spec fn is_settled(self) -> bool {
        toml_settled(self.doc)
    }

    /// The top-level entries of the document.
    pub open spec fn sections(self) -> Map<Seq<char>, Section> {
        self.contents().sections
    }
}

/// Parsing a text as a `toml_edit::DocumentMut`; the outcome is named. The
/// parser numbers the headers as it finds them.
#[verifier::external_body]
fn parse_document(text: &str) -> (r: Result<ConfigDocument, String>)
    ensures
        match r {
            Ok(d) => {
                &&& is_reading(toml_reading(text@), toml_contents(d.doc))
                &&& is_consistent(toml_contents(d.doc))
                &&& toml_settled(d.doc)
            },
            Err(e) => toml_reading(text@) matches Err(why) && why == e@,
        },
{
    match text.parse::<toml_edit::DocumentMut>() {
        Ok(doc) => Ok(ConfigDocument { doc }),
        Err(e) => Err(e.to_string()),
    }
}

/// `toml_edit::DocumentMut::new`: an empty document, without headers.
#[verifier::external_body]
fn empty_document() -> (r: ConfigDocument)
    ensures
        toml_contents(r.doc) == nothing(),
        toml_settled(r.doc),
{
    ConfigDocument { doc: toml_edit::DocumentMut::new() }
}

/// Rendering a `toml_edit::DocumentMut`: the text reads as what the document
/// holds, with the same comments in the same places, the same blank lines, and
/// everything in the same order. Not stated is the white space inside a line's key
/// and a header's brackets, and what parsing finds around the slots of an array
/// that was empty but for white space and comments when a slot was added: they end
/// up behind that slot.
#[verifier::external_body]
fn render_document(d: &ConfigDocument) -> (r: String)
    ensures
        reads_as(toml_reading(r@), toml_contents(d.doc)),
{
    d.doc.to_string()
}

/// `toml_edit::Table::get` on the root, and what kind of item it finds.
#[verifier::external_body]
fn kind_in(d: &ConfigDocument, section: &str) -> (r: SectionKind)
    ensures
        r == kind_of(toml_contents(d.doc), section@),
{
    match d.doc.get(section) {
        None => SectionKind::Absent,
        Some(toml_edit::Item::Table(_)) => SectionKind::Table,
        Some(_) => SectionKind::Other,
    }
}

/// What a top-level entry is.
pub open spec fn kind_of(c: Contents, section: Seq<char>) -> SectionKind {
    if !c.sections.contains_key(section) {
        SectionKind::Absent
    } else if c.sections[section] is Table {
        SectionKind::Table
    } else {
        SectionKind::Other
    }
}

/// `toml_edit::Table::insert` on the root, of an empty table: it gets a header of
/// its own, without comments. Where the header is written is not stated; it
/// depends on how the tables before it were nested.
#[verifier::external_body]
fn insert_table(d: &mut ConfigDocument, section: &str)
    requires
        !toml_contents(old(d).doc).sections.contains_key(section@),
    ensures
        is_section_added(toml_contents(old(d).doc), toml_contents(final(d).doc), section@),
{
    d.doc.insert(section, toml_edit::Item::Table(toml_edit::Table::new()));
}

/// `toml_edit::Table::remove` on the root, of a table with at most one field: the
/// table goes with that field and the comments of both.
#[verifier::external_body]
fn remove_table(d: &mut ConfigDocument, section: &str)
    requires
        is_nearly_empty(toml_contents(old(d).doc), section@),
    ensures
        is_section_removed(toml_contents(old(d).doc), toml_contents(final(d).doc), section@),
        toml_settled(old(d).doc) ==> toml_contents(final(d).doc).order == without(
            toml_contents(old(d).doc).order,
            section@,
        ),
{
    d.doc.remove(section);
}

/// Whether a table has `n` fields.
pub open spec fn is_count(fields: Map<Seq<char>, Field>, n: usize) -> bool {
    fields.dom().finite() && fields.dom().len() == n
}

/// `toml_edit::Table::len` of a section: the number of its fields.
#[verifier::external_body]
fn count_in(d: &ConfigDocument, section: &str) -> (r: usize)
    requires
        table_at(toml_contents(d.doc).sections, section@) is Some,
    ensures
        is_count(table_at(toml_contents(d.doc).sections, section@)->0, r),
{
    d.doc[section].as_table().unwrap().len()
}

/// `toml_edit::Table::contains_key` of a section.
#[verifier::external_body]
fn holds_key(d: &ConfigDocument, section: &str, key: &str) -> (r: bool)
    requires
        table_at(toml_contents(d.doc).sections, section@) is Some,
    ensures
        r == table_at(toml_contents(d.doc).sections, section@)->0.contains_key(key@),
{
    d.doc[section].as_table().unwrap().contains_key(key)
}

/// `toml_edit::Item::as_str` of a field.
#[verifier::external_body]
fn text_in(d: &ConfigDocument, section: &str, key: &str) -> (r: Option<String>)
    ensures
        text::held(r) == text_at(toml_contents(d.doc).sections, section@, key@),
{
    d.doc.get(section)?.as_table()?.get(key)?.as_str().map(str::to_owned)
}

/// Whether `r` is what is written on the two sides of a field's value, if it is a
/// value.
pub open spec fn are_sides(
    r: Option<(String, String)>,
    c: Contents,
    place: (Seq<char>, Seq<char>),
) -> bool {
    match r {
        Some(sides) => c.sides.contains_key(place) && c.sides[place] == (sides.0@, sides.1@),
        None => !c.sides.contains_key(place),
    }
}

/// `toml_edit::Value::decor` of a field that is a value: what is written on its
/// two sides.
#[verifier::external_body]
fn sides_in(d: &ConfigDocument, section: &str, key: &str) -> (r: Option<(String, String)>)
    ensures
        are_sides(r, toml_contents(d.doc), (section@, key@)),
{
    let decor = d.doc.get(section)?.as_table()?.get(key)?.as_value()?.decor();
    let before = decor.prefix().and_then(|raw| raw.as_str()).unwrap_or("");
    let behind = decor.suffix().and_then(|raw| raw.as_str()).unwrap_or("");
    Some((before.to_owned(), behind.to_owned()))
}

/// `toml_edit::Table`'s `IndexMut`, assigned a string with the given text on its
/// two sides. The field keeps its line and what is written above it; a new one
/// comes last.
///
/// The crate counts a run of quotes in eight bits when it writes a string, so
/// longer runs are left out.
#[verifier::external_body]
fn assign_text(
    d: &mut ConfigDocument,
    section: &str,
    key: &str,
    value: &str,
    before: &str,
    behind: &str,
)
    requires
        table_at(toml_contents(old(d).doc).sections, section@) is Some,
        is_writable(value@),
        sides_at(toml_contents(old(d).doc), (section@, key@)) == (before@, behind@),
    ensures
        is_field_set(
            toml_contents(old(d).doc),
            toml_contents(final(d).doc),
            section@,
            key@,
            Field::Text(value@),
        ),
        is_steady(toml_settled(old(d).doc), toml_contents(old(d).doc), (section@, key@))
            ==> is_order_after_set(
            toml_contents(old(d).doc),
            section@,
            key@,
            toml_contents(final(d).doc).order,
        ),
{
    let item = toml_edit::Value::from(value).decorated(before, behind);
    d.doc[section].as_table_mut().unwrap()[key] = toml_edit::Item::Value(item);
}

/// `toml_edit::Table::remove` of a field, where another one is left: the field
/// goes with its comments.
#[verifier::external_body]
fn remove_field(d: &mut ConfigDocument, section: &str, key: &str)
    requires
        table_at(toml_contents(old(d).doc).sections, section@) is Some,
        table_at(toml_contents(old(d).doc).sections, section@)->0.remove(key@) != no_fields(),
    ensures
        is_field_removed(toml_contents(old(d).doc), toml_contents(final(d).doc), section@, key@),
        is_steady(toml_settled(old(d).doc), toml_contents(old(d).doc), (section@, key@))
            ==> is_order_after_removal(
            toml_contents(old(d).doc),
            section@,
            key@,
            toml_contents(final(d).doc).order,
        ),
{
    d.doc[section].as_table_mut().unwrap().remove(key);
}

/// The text of a cell, if it is a string.
pub open spec fn cell_text(cell: Cell) -> Option<Seq<char>> {
    match cell {
        Cell::Text(t) => Some(t),
        Cell::Other(_) => None,
    }
}

/// Whether `seen` is what can be seen of a slot: the cells of an array, each a
/// string or something else; or nothing for a slot that is no array.
pub open spec fn shows_slot(seen: Option<Vec<Option<String>>>, slot: Slot) -> bool {
    match (seen, slot) {
        (Some(texts), Slot::Cells(cells)) => texts@.len() == cells.len() && forall|j: int|
            0 <= j < cells.len() ==> text::held(#[trigger] texts@[j]) == cell_text(cells[j]),
        (None, Slot::Other(_)) => true,
        _ => false,
    }
}

/// Whether `seen` is what can be seen of the slots of an array.
pub open spec fn shows(seen: Seq<Option<Vec<Option<String>>>>, slots: Seq<Slot>) -> bool {
    seen.len() == slots.len() && forall|i: int|
        0 <= i < slots.len() ==> shows_slot(#[trigger] seen[i], slots[i])
}

/// Whether `r` is what can be seen of a field: its slots, if it is an array.
pub open spec fn shows_field(
    r: Option<Vec<Option<Vec<Option<String>>>>>,
    field: Option<Seq<Slot>>,
) -> bool {
    match (r, field) {
        (Some(seen), Some(slots)) => shows(seen@, slots),
        (None, None) => true,
        _ => false,
    }
}

/// The slots of a field by way of `toml_edit::Array::iter`, each one by
/// `toml_edit::Value::as_array` and its cells by `toml_edit::Value::as_str`.
#[verifier::external_body]
fn slots_in(d: &ConfigDocument, section: &str, key: &str) -> (r: Option<
    Vec<Option<Vec<Option<String>>>>,
>)
    ensures
        shows_field(r, array_at(toml_contents(d.doc).sections, section@, key@)),
{
    let array = d.doc.get(section)?.as_table()?.get(key)?.as_value()?.as_array()?;
    let cell = |c: &toml_edit::Value| c.as_str().map(str::to_owned);
    Some(array.iter().map(|slot| Some(slot.as_array()?.iter().map(cell).collect())).collect())
}

/// `toml_edit::Table`'s `IndexMut`, assigned an empty array with the given text on
/// its two sides. The field keeps its line and what is written above it; a new one
/// comes last.
#[verifier::external_body]
fn assign_empty_array(d: &mut ConfigDocument, section: &str, key: &str, before: &str, behind: &str)
    requires
        table_at(toml_contents(old(d).doc).sections, section@) is Some,
        sides_at(toml_contents(old(d).doc), (section@, key@)) == (before@, behind@),
    ensures
        is_field_set(
            toml_contents(old(d).doc),
            toml_contents(final(d).doc),
            section@,
            key@,
            Field::Array(Seq::empty()),
        ),
        is_steady(toml_settled(old(d).doc), toml_contents(old(d).doc), (section@, key@))
            ==> is_order_after_set(
            toml_contents(old(d).doc),
            section@,
            key@,
            toml_contents(final(d).doc).order,
        ),
{
    let item = toml_edit::Value::from(toml_edit::Array::new()).decorated(before, behind);
    d.doc[section].as_table_mut().unwrap()[key] = toml_edit::Item::Value(item);
}

/// `s` without carriage returns.
pub open spec fn no_returns(s: Seq<char>) -> Seq<char> {
    s.filter(|c: char| c != '\r')
}

/// `toml_edit::Value::decor` of a slot: the white space and comments on its two
/// sides, as they were read.
#[verifier::external_body]
fn slot_sides_in(d: &ConfigDocument, section: &str, key: &str, i: usize) -> (r: (String, String))
    requires
        array_at(toml_contents(d.doc).sections, section@, key@) matches Some(slots) && i
            < slots.len(),
    ensures
        no_returns(r.0@) == toml_contents(d.doc).slots[(section@, key@)][i as int].before,
        no_returns(r.1@) == toml_contents(d.doc).slots[(section@, key@)][i as int].behind,
{
    let array = d.doc[section].as_table().unwrap()[key].as_array().unwrap();
    let decor = array.get(i).unwrap().decor();
    let before = decor.prefix().and_then(|raw| raw.as_str()).unwrap_or("");
    let behind = decor.suffix().and_then(|raw| raw.as_str()).unwrap_or("");
    (before.to_owned(), behind.to_owned())
}

/// Whether `sides` are those of a slot, but for carriage returns.
pub open spec fn are_slot_sides(
    c: Contents,
    place: (Seq<char>, Seq<char>),
    i: int,
    sides: (String, String),
) -> bool {
    &&& c.slots[place][i].before == no_returns(sides.0@)
    &&& c.slots[place][i].behind == no_returns(sides.1@)
}

/// `toml_edit::Array::replace_formatted` with an array of two strings, between
/// what stood on the two sides of the slot before.
#[verifier::external_body]
fn replace_pair(
    d: &mut ConfigDocument,
    section: &str,
    key: &str,
    i: usize,
    from: &str,
    to: &str,
    sides: (String, String),
)
    requires
        array_at(toml_contents(old(d).doc).sections, section@, key@) matches Some(slots) && i
            < slots.len(),
        is_writable(from@),
        is_writable(to@),
        are_slot_sides(toml_contents(old(d).doc), (section@, key@), i as int, sides),
    ensures
        toml_contents(final(d).doc) == pair_set(
            toml_contents(old(d).doc),
            section@,
            key@,
            i as int,
            from@,
            to@,
        ),
{
    let pair = toml_edit::Value::from(toml_edit::Array::from_iter([from, to]));
    let table = d.doc[section].as_table_mut().unwrap();
    let array = table[key].as_array_mut().unwrap();
    array.replace_formatted(i, pair.decorated(sides.0, sides.1));
}

/// `toml_edit::Array::push_formatted` with an array of two strings on a line of
/// its own.
#[verifier::external_body]
fn push_pair(d: &mut ConfigDocument, section: &str, key: &str, from: &str, to: &str, indent: &str)
    requires
        array_at(toml_contents(old(d).doc).sections, section@, key@) is Some,
        is_writable(from@),
        is_writable(to@),
        indent@ == "\n    "@,
    ensures
        toml_contents(final(d).doc) == pair_added(
            toml_contents(old(d).doc),
            section@,
            key@,
            from@,
            to@,
        ),
{
    let pair = toml_edit::Value::from(toml_edit::Array::from_iter([from, to]));
    let table = d.doc[section].as_table_mut().unwrap();
    table[key].as_array_mut().unwrap().push_formatted(pair.decorated(indent, ""));
}

/// `toml_edit::Array::remove` of a slot: it goes with the comments beside and
/// within it.
#[verifier::external_body]
fn remove_slot_in(d: &mut ConfigDocument, section: &str, key: &str, i: usize)
    requires
        array_at(toml_contents(old(d).doc).sections, section@, key@) matches Some(slots) && i
            < slots.len(),
    ensures
        toml_contents(final(d).doc) == slot_removed(
            toml_contents(old(d).doc),
            section@,
            key@,
            i as int,
        ),
{
    let table = d.doc[section].as_table_mut().unwrap();
    table[key].as_array_mut().unwrap().remove(i);
}

/// Without one field nothing is left exactly where there are no fields, or this
/// is the only one.
proof fn only_field(fields: Map<Seq<char>, Field>, key: Seq<char>, n: usize)
    requires
        is_count(fields, n),
    ensures
        (fields.remove(key) == no_fields()) == (n == 0 || (n == 1 && fields.contains_key(key))),
{
    let names = fields.dom();
    let rest = names.remove(key);
    assert(fields.remove(key).dom() =~= rest);
    if rest.len() == 0 {
        assert(rest =~= Set::empty()) by {
            if exists|k: Seq<char>| rest.contains(k) {
                let k = choose|k: Seq<char>| rest.contains(k);
                assert(rest.remove(k).len() + 1 == rest.len());
            }
        }
        assert(fields.remove(key) =~= no_fields());
    } else if fields.remove(key) == no_fields() {
        assert(rest =~= Set::empty());
    }
}

impl ConfigDocument {
    /// Parse the text of a configuration file; the error says what is wrong.
    pub fn parse(text: &str) -> (r: Result<ConfigDocument, String>)
        ensures
            match r {
                Ok(d) => {
                    &&& is_reading(toml_reading(text@), d.contents())
                    &&& is_consistent(d.contents())
                    &&& d.is_settled()
                },
                Err(e) => toml_reading(text@) matches Err(why) && why == e@,
            },
    {
        parse_document(text)
    }

    /// An empty document.
    pub fn new() -> (r: ConfigDocument)
        ensures
            r.contents() == nothing(),
            r.is_settled(),
    {
        empty_document()
    }

    /// The text of the document. Parsing it gives back what the document holds:
    /// the same entries, comments and blank lines, in the same order.
    pub fn to_text(&self) -> (r: String)
        ensures
            reads_as(toml_reading(r@), self.contents()),
    {
        render_document(self)
    }

    /// What the entry `section` is.
    pub fn kind(&self, section: &str) -> (r: SectionKind)
        ensures
            r == kind_of(self.contents(), section@),
    {
        kind_in(self, section)
    }

    /// Add an empty section.
    pub fn add_section(&mut self, section: &str)
        requires
            !old(self).sections().contains_key(section@),
        ensures
            is_section_added(old(self).contents(), final(self).contents(), section@),
    {
        insert_table(self, section)
    }

    /// The text of a field, if it is there and is a string.
    pub fn text(&self, section: &str, key: &str) -> (r: Option<String>)
        ensures
            text::held(r) == text_at(self.sections(), section@, key@),
    {
        text_in(self, section, key)
    }

    /// What is written on the two sides of a field's value; one space before it
    /// where it is no value yet.
    fn sides(&self, section: &str, key: &str) -> (r: (String, String))
        ensures
            sides_at(self.contents(), (section@, key@)) == (r.0@, r.1@),
    {
        match sides_in(self, section, key) {
            Some(sides) => sides,
            None => (" ".to_owned(), "".to_owned()),
        }
    }

    /// Set a field to a string. What is written on the two sides of an old value
    /// stays.
    pub fn set_text(&mut self, section: &str, key: &str, value: &str)
        requires
            table_at(old(self).sections(), section@) is Some,
            is_writable(value@),
        ensures
            is_field_set(
                old(self).contents(),
                final(self).contents(),
                section@,
                key@,
                Field::Text(value@),
            ),
            is_steady(old(self).is_settled(), old(self).contents(), (section@, key@))
                ==> is_order_after_set(
                old(self).contents(),
                section@,
                key@,
                final(self).contents().order,
            ),
    {
        let (before, behind) = self.sides(section, key);
        assign_text(self, section, key, value, before.as_str(), behind.as_str())
    }

    /// Remove a field, and the section with it where nothing else is left.
    pub fn clear(&mut self, section: &str, key: &str)
        requires
            table_at(old(self).sections(), section@) is Some,
        ensures
            if table_at(old(self).sections(), section@)->0.remove(key@) == no_fields() {
                &&& final(self).contents() == section_removed(
                    old(self).contents(),
                    section@,
                    key@,
                    final(self).contents().order,
                )
                &&& old(self).is_settled() ==> final(self).contents().order == without(
                    old(self).contents().order,
                    section@,
                )
            } else {
                &&& is_field_removed(old(self).contents(), final(self).contents(), section@, key@)
                &&& is_steady(old(self).is_settled(), old(self).contents(), (section@, key@))
                    ==> is_order_after_removal(
                    old(self).contents(),
                    section@,
                    key@,
                    final(self).contents().order,
                )
            },
    {
        let ghost fields = table_at(self.sections(), section@)->0;
        let n: usize = count_in(self, section);
        proof {
            only_field(fields, key@, n);
        }
        if n == 0 || (n == 1 && holds_key(self, section, key)) {
            assert(fields.remove(key@) == no_fields());
            remove_table(self, section);
        } else {
            remove_field(self, section, key);
        }
    }

    /// The slots of a field, if it is there and is an array.
    pub fn slots(&self, section: &str, key: &str) -> (r: Option<Vec<Option<Vec<Option<String>>>>>)
        ensures
            shows_field(r, array_at(self.sections(), section@, key@)),
    {
        slots_in(self, section, key)
    }

    /// Set a field to an empty array. What is written on the two sides of an old
    /// value stays.
    pub fn set_empty_array(&mut self, section: &str, key: &str)
        requires
            table_at(old(self).sections(), section@) is Some,
        ensures
            is_field_set(
                old(self).contents(),
                final(self).contents(),
                section@,
                key@,
                Field::Array(Seq::empty()),
            ),
            is_steady(old(self).is_settled(), old(self).contents(), (section@, key@))
                ==> is_order_after_set(
                old(self).contents(),
                section@,
                key@,
                final(self).contents().order,
            ),
    {
        let (before, behind) = self.sides(section, key);
        assign_empty_array(self, section, key, before.as_str(), behind.as_str())
    }

    /// Put a pair of strings into a slot. What stands on the two sides of the slot
    /// stays, so that the file keeps its shape.
    pub fn set_pair(&mut self, section: &str, key: &str, i: usize, from: &str, to: &str)
        requires
            array_at(old(self).sections(), section@, key@) matches Some(slots) && i < slots.len(),
            is_writable(from@),
            is_writable(to@),
        ensures
            final(self).contents() == pair_set(
                old(self).contents(),
                section@,
                key@,
                i as int,
                from@,
                to@,
            ),
    {
        let sides = slot_sides_in(self, section, key, i);
        replace_pair(self, section, key, i, from, to, sides)
    }

    /// Append a pair of strings, on a line of its own.
    pub fn add_pair(&mut self, section: &str, key: &str, from: &str, to: &str)
        requires
            array_at(old(self).sections(), section@, key@) is Some,
            is_writable(from@),
            is_writable(to@),
        ensures
            final(self).contents() == pair_added(
                old(self).contents(),
                section@,
                key@,
                from@,
                to@,
            ),
    {
        push_pair(self, section, key, from, to, "\n    ")
    }

    /// Remove a slot.
    pub fn remove_slot(&mut self, section: &str, key: &str, i: usize)
        requires
            array_at(old(self).sections(), section@, key@) matches Some(slots) && i < slots.len(),
        ensures
            final(self).contents() == slot_removed(
                old(self).contents(),
                section@,
                key@,
                i as int,
            ),
    {
        remove_slot_in(self, section, key, i)
    }
}

// ---------------------------------------------------------------------------
// Laws
// ---------------------------------------------------------------------------

/// How long a run of quotes is: at least as long as there are equal quotes at the
/// end.
proof fn runs_are_counted(s: Seq<char>, n: nat)
    requires
        n > 0,
    ensures
        quote_run(s) >= n <==> s.len() >= n && (s.last() == '\'' || s.last() == '"') && (forall|
            i: int,
        |
            s.len() - n <= i < s.len() ==> #[trigger] s[i] == s.last()),
    decreases s.len(),
{
    if s.len() > 0 && (s.last() == '\'' || s.last() == '"') && n > 1 {
        let front = s.drop_last();
        if s.len() > 1 && s[s.len() - 2] == s.last() {
            runs_are_counted(front, (n - 1) as nat);
            assert(front.last() == s.last());
            if quote_run(s) >= n {
                assert forall|i: int| s.len() - n <= i < s.len() implies #[trigger] s[i]
                    == s.last() by {
                    if i < s.len() - 1 {
                        assert(front[i] == s[i]);
                    }
                }
            }
            if s.len() >= n && (forall|i: int|
                s.len() - n <= i < s.len() ==> #[trigger] s[i] == s.last()) {
                assert forall|i: int|
                    front.len() - (n - 1) <= i < front.len() implies #[trigger] front[i]
                    == front.last() by {
                    assert(front[i] == s[i]);
                }
            }
        } else if s.len() > 1 {
            assert(s[s.len() - 2] != s.last());
        }
    }
}

/// Whether 256 quotes of one kind stand in a row, from the given place on.
pub open spec fn is_long_run(s: Seq<char>, at: int) -> bool {
    &&& 0 <= at
    &&& at + 256 <= s.len()
    &&& s[at] == '\'' || s[at] == '"'
    &&& forall|i: int| at <= i < at + 256 ==> #[trigger] s[i] == s[at]
}

/// A text can be written exactly where no 256 quotes of one kind stand in a row in
/// it.
pub proof fn only_long_runs_of_quotes_are_refused(s: Seq<char>)
    ensures
        is_writable(s) <==> forall|at: int| !is_long_run(s, at),
{
    if is_writable(s) {
        assert forall|at: int| !is_long_run(s, at) by {
            if is_long_run(s, at) {
                let part = s.take(at + 256);
                assert(part.last() == s[at + 255]);
                assert(s[at + 255] == s[at]);
                assert forall|i: int| part.len() - 256 <= i < part.len() implies #[trigger] part[i]
                    == part.last() by {
                    assert(part[i] == s[i]);
                }
                runs_are_counted(part, 256);
                assert(quote_run(s.take(at + 256)) <= 255);
            }
        }
    }
    if forall|at: int| !is_long_run(s, at) {
        assert forall|k: int| 0 <= k <= s.len() implies #[trigger] quote_run(s.take(k)) <= 255 by {
            let part = s.take(k);
            runs_are_counted(part, 256);
            if quote_run(part) >= 256 {
                let at = k - 256;
                assert(part[at] == s[at]);
                assert forall|i: int| at <= i < at + 256 implies #[trigger] s[i] == s[at] by {
                    assert(part[i] == s[i]);
                }
                assert(is_long_run(s, at));
            }
        }
    }
}

/// A value that was not there stands one space behind its equals sign, with nothing
/// behind it; another keeps what it had.
pub proof fn new_values_stand_one_space_off(c: Contents, place: (Seq<char>, Seq<char>))
    ensures
        !c.sides.contains_key(place) ==> sides_at(c, place) == (" "@, ""@),
        c.sides.contains_key(place) ==> sides_at(c, place) == c.sides[place],
{
}

/// Leaving a name out leaves the others, in their order.
pub proof fn the_other_names_stay(a: Seq<Seq<char>>, b: Seq<Seq<char>>, name: Seq<char>, other: Seq<char>)
    ensures
        without(a + b, name) == without(a, name) + without(b, name),
        without(seq![name], name).len() == 0,
        other != name ==> without(seq![other], name) == seq![other],
    decreases b.len(),
{
    reveal_with_fuel(without, 2);
    assert(seq![name].drop_last() =~= Seq::<Seq<char>>::empty());
    assert(seq![other].drop_last() =~= Seq::<Seq<char>>::empty());
    if b.len() == 0 {
        assert(a + b =~= a);
        assert(without(a, name) + without(b, name) =~= without(a, name));
    } else {
        the_other_names_stay(a, b.drop_last(), name, other);
        assert((a + b).drop_last() =~= a + b.drop_last());
        assert((a + b).last() == b.last());
        assert(without(a + b, name) =~= without(a, name) + without(b, name));
    }
}

} // verus!
