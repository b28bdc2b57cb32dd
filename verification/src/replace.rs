//! The replacements in the configuration file: adding, removing and listing
//! them without disturbing the rest of the file.

use vstd::prelude::*;

use crate::text;
use crate::toml_doc;
use crate::toml_doc::{
    Cell, ConfigDocument, Contents, Field, Notes, Placing, Section, SectionKind, Slot,
};

verus! {

/// What adding a replacement did.
#[derive(Debug, PartialEq, Eq)]
pub enum AddOutcome {
    Added,
    Updated { previous: String },
}

/// Why the configuration file cannot be edited.
#[derive(Debug, PartialEq, Eq)]
pub enum EditError {
    /// The file is no TOML.
    Malformed { detail: String },
    /// The section to be edited is something else than a table.
    NotATable { section: String },
}

impl EditError {
    /// The message for this error.
    pub open spec fn text(self) -> Seq<char> {
        match self {
            EditError::Malformed { detail } => detail@,
            EditError::NotATable { section } => section@ + " is not a table"@,
        }
    }

    /// The message for this error.
    pub fn message(&self) -> (r: String)
        ensures
            r@ == self.text(),
    {
        match self {
            EditError::Malformed { detail } => detail.clone(),
            EditError::NotATable { section } => text::concat2(
                section.as_str(),
                " is not a table",
            ),
        }
    }
}

// ---------------------------------------------------------------------------
// What the file says
// ---------------------------------------------------------------------------

/// The replacement in a slot: the first two cells, where both are strings.
pub open spec fn entry_in(slot: Slot) -> Option<(Seq<char>, Seq<char>)> {
    match slot {
        Slot::Cells(cells) => if cells.len() >= 2 {
            match (cells[0], cells[1]) {
                (Cell::Text(from), Cell::Text(to)) => Some((from, to)),
                _ => None,
            }
        } else {
            None
        },
        Slot::Other(_) => None,
    }
}

/// The replacements in the given slots, in order. Slots of another shape are
/// passed over.
pub open spec fn entries(slots: Seq<Slot>) -> Seq<(Seq<char>, Seq<char>)>
    decreases slots.len(),
{
    if slots.len() == 0 {
        Seq::empty()
    } else {
        match entry_in(slots.last()) {
            Some(entry) => entries(slots.drop_last()).push(entry),
            None => entries(slots.drop_last()),
        }
    }
}

/// Whether the slot holds a replacement of `from`, whatever its case.
pub open spec fn is_for(slot: Slot, from: Seq<char>) -> bool {
    entry_in(slot) matches Some(entry) && text::lowered(entry.0) == text::lowered(from)
}

/// The place of the first replacement of `from`, whatever its case.
pub open spec fn place_of(slots: Seq<Slot>, from: Seq<char>) -> Option<int>
    decreases slots.len(),
{
    if slots.len() == 0 {
        None
    } else {
        match place_of(slots.drop_last(), from) {
            Some(i) => Some(i),
            None => if is_for(slots.last(), from) {
                Some(slots.len() - 1)
            } else {
                None
            },
        }
    }
}

/// The slots of the replacements; none where there is no such array.
pub open spec fn replacement_slots(sections: Map<Seq<char>, Section>) -> Seq<Slot> {
    match toml_doc::array_at(sections, "postprocess"@, "replacements"@) {
        Some(slots) => slots,
        None => Seq::empty(),
    }
}

/// The sections with the given slots for the replacements.
pub open spec fn with_replacements(
    sections: Map<Seq<char>, Section>,
    slots: Seq<Slot>,
) -> Map<Seq<char>, Section> {
    let fields = match toml_doc::table_at(sections, "postprocess"@) {
        Some(fields) => fields,
        None => Map::empty(),
    };
    sections.insert(
        "postprocess"@,
        Section::Table(fields.insert("replacements"@, Field::Array(slots))),
    )
}

/// The slots after a replacement was added: in place of the first one for the
/// same text, else at the end.
pub open spec fn slots_added(slots: Seq<Slot>, from: Seq<char>, to: Seq<char>) -> Seq<Slot> {
    match place_of(slots, from) {
        Some(i) => slots.update(i, toml_doc::pair_slot(from, to)),
        None => slots.push(toml_doc::pair_slot(from, to)),
    }
}

/// The slots after the first replacement of `from` was removed.
pub open spec fn slots_removed(slots: Seq<Slot>, from: Seq<char>) -> Seq<Slot> {
    match place_of(slots, from) {
        Some(i) => slots.remove(i),
        None => slots,
    }
}

/// What replaces `from`: the second text of its first replacement.
pub open spec fn lookup(slots: Seq<Slot>, from: Seq<char>) -> Option<Seq<char>> {
    match place_of(slots, from) {
        Some(i) => Some((entry_in(slots[i])->0).1),
        None => None,
    }
}

/// Whether the replacements are there, as an array.
pub open spec fn has_array(c: Contents) -> bool {
    toml_doc::array_at(c.sections, "postprocess"@, "replacements"@) is Some
}

/// Where the replacements are written.
pub open spec fn placing_of(c: Contents) -> Placing {
    toml_doc::placing_of(c, "postprocess"@, "replacements"@)
}

/// The contents with an array of replacements, which is a new one at the given
/// place where there was none.
pub open spec fn readied(c: Contents, placing: Placing) -> Contents {
    if has_array(c) {
        c
    } else {
        toml_doc::field_put(
            c,
            "postprocess"@,
            "replacements"@,
            Field::Array(Seq::empty()),
            placing,
        )
    }
}

/// The contents after a replacement was added, with the array at the given place
/// where there was none. What stands on the two sides of a slot stays with it, and
/// a new one starts a line.
pub open spec fn added(
    c: Contents,
    from: Seq<char>,
    to: Seq<char>,
    placing: Placing,
) -> Contents {
    let ready = readied(c, placing);
    match place_of(replacement_slots(c.sections), from) {
        Some(i) => toml_doc::pair_set(ready, "postprocess"@, "replacements"@, i, from, to),
        None => toml_doc::pair_added(ready, "postprocess"@, "replacements"@, from, to),
    }
}

/// Whether the array of replacements is written where it should be: where it was,
/// if there was one.
pub open spec fn is_placed(c: Contents, placing: Placing) -> bool {
    if has_array(c) {
        placing == placing_of(c)
    } else {
        toml_doc::is_placed(c, "postprocess"@, "replacements"@, placing)
    }
}

/// Whether `now` is what is read back of the contents `c` with an array of
/// replacements.
pub open spec fn is_readied(c: Contents, now: Contents) -> bool {
    &&& toml_doc::is_read_back(now, readied(c, placing_of(now)))
    &&& is_placed(c, placing_of(now))
}

/// Whether `now` is what is read back of the contents `c` with a replacement
/// added.
pub open spec fn is_added(c: Contents, now: Contents, from: Seq<char>, to: Seq<char>) -> bool {
    &&& toml_doc::is_read_back(now, added(c, from, to, placing_of(now)))
    &&& is_placed(c, placing_of(now))
}

/// The contents after the replacement of `from` was removed.
pub open spec fn removed(c: Contents, from: Seq<char>) -> Contents {
    match place_of(replacement_slots(c.sections), from) {
        Some(i) => toml_doc::slot_removed(c, "postprocess"@, "replacements"@, i),
        None => c,
    }
}

/// Whether the entry `postprocess` is there and is something else than a table.
pub open spec fn is_blocked(sections: Map<Seq<char>, Section>) -> bool {
    sections.contains_key("postprocess"@) && sections["postprocess"@] is Other
}

/// Whether `outcome` tells what adding a replacement of `from` did.
pub open spec fn tells(outcome: AddOutcome, slots: Seq<Slot>, from: Seq<char>) -> bool {
    match lookup(slots, from) {
        Some(before) => outcome matches AddOutcome::Updated { previous } && previous@ == before,
        None => outcome is Added,
    }
}

/// The place is one of a replacement of `from`, and the first such.
pub proof fn place_is_first(slots: Seq<Slot>, from: Seq<char>)
    ensures
        match place_of(slots, from) {
            Some(i) => {
                &&& 0 <= i < slots.len()
                &&& is_for(slots[i], from)
                &&& forall|j: int| 0 <= j < i ==> !is_for(#[trigger] slots[j], from)
            },
            None => forall|j: int| 0 <= j < slots.len() ==> !is_for(#[trigger] slots[j], from),
        },
    decreases slots.len(),
{
    if slots.len() > 0 {
        place_is_first(slots.drop_last(), from);
        assert forall|j: int|
            place_of(slots, from) is None && 0 <= j < slots.len() implies !is_for(
            #[trigger] slots[j],
            from,
        ) by {
            if j < slots.len() - 1 {
                assert(slots.drop_last()[j] == slots[j]);
            }
        }
        assert forall|j: int|
            place_of(slots, from) is Some && 0 <= j < place_of(slots, from)->0 implies !is_for(
            #[trigger] slots[j],
            from,
        ) by {
            if j < slots.len() - 1 {
                assert(slots.drop_last()[j] == slots[j]);
            }
        }
    }
}

/// There is at most one first place.
proof fn place_is_the_first(slots: Seq<Slot>, from: Seq<char>, i: int)
    requires
        0 <= i < slots.len(),
        is_for(slots[i], from),
        forall|j: int| 0 <= j < i ==> !is_for(#[trigger] slots[j], from),
    ensures
        place_of(slots, from) == Some(i),
{
    place_is_first(slots, from);
}

/// Where nothing is for `from`, there is no place.
proof fn no_place(slots: Seq<Slot>, from: Seq<char>)
    requires
        forall|j: int| 0 <= j < slots.len() ==> !is_for(#[trigger] slots[j], from),
    ensures
        place_of(slots, from) is None,
{
    place_is_first(slots, from);
}

// ---------------------------------------------------------------------------
// Documents
// ---------------------------------------------------------------------------

/// The replacement in a slot.
fn entry_at(seen: &Option<Vec<Option<String>>>, Ghost(slot): Ghost<Slot>) -> (r: Option<
    (String, String),
>)
    requires
        toml_doc::shows_slot(*seen, slot),
    ensures
        match r {
            Some(pair) => entry_in(slot) == Some((pair.0@, pair.1@)),
            None => entry_in(slot) is None,
        },
{
    match seen {
        Some(texts) => {
            if texts.len() < 2 {
                return None;
            }
            assert(text::held(texts@[0]) == toml_doc::cell_text(slot->Cells_0[0]));
            assert(text::held(texts@[1]) == toml_doc::cell_text(slot->Cells_0[1]));
            match (&texts[0], &texts[1]) {
                (Some(from), Some(to)) => Some((from.clone(), to.clone())),
                _ => None,
            }
        },
        None => None,
    }
}

/// The slots of the replacements.
fn slots_of(doc: &ConfigDocument) -> (r: Vec<Option<Vec<Option<String>>>>)
    ensures
        toml_doc::shows(r@, replacement_slots(doc.sections())),
{
    match doc.slots("postprocess", "replacements") {
        Some(slots) => slots,
        None => Vec::new(),
    }
}

/// The place of the first replacement of `from`, with what replaces it.
fn find(
    seen: &Vec<Option<Vec<Option<String>>>>,
    from: &str,
    Ghost(slots): Ghost<Seq<Slot>>,
) -> (r: Option<(usize, String)>)
    requires
        toml_doc::shows(seen@, slots),
    ensures
        match r {
            Some((i, to)) => {
                &&& i < slots.len()
                &&& place_of(slots, from@) == Some(i as int)
                &&& lookup(slots, from@) == Some(to@)
            },
            None => place_of(slots, from@) is None,
        },
{
    for i in 0..seen.len()
        invariant
            toml_doc::shows(seen@, slots),
            forall|j: int| 0 <= j < i ==> !is_for(#[trigger] slots[j], from@),
    {
        match entry_at(&seen[i], Ghost(slots[i as int])) {
            Some((key, to)) => {
                if text::same_ignoring_case(key.as_str(), from) {
                    proof {
                        place_is_the_first(slots, from@, i as int);
                    }
                    return Some((i, to));
                }
            },
            None => {},
        }
    }
    proof {
        no_place(slots, from@);
    }
    None
}

/// Whether adding a replacement is known to keep the order of a document's
/// entries: nothing with a header of its own stands for the replacements, or all
/// headers have their own places.
pub open spec fn is_steady(doc: ConfigDocument) -> bool {
    has_array(doc.contents()) || toml_doc::is_steady(
        doc.is_settled(),
        doc.contents(),
        ("postprocess"@, "replacements"@),
    )
}

/// Make sure that there is an array of replacements, unless its section is
/// something else than a table.
fn ready(doc: &mut ConfigDocument) -> (r: Result<(), EditError>)
    ensures
        if is_blocked(old(doc).sections()) {
            &&& r matches Err(EditError::NotATable { section }) && section@ == "postprocess"@
            &&& *final(doc) == *old(doc)
        } else {
            &&& r is Ok
            &&& has_array(final(doc).contents())
            &&& replacement_slots(final(doc).sections()) == replacement_slots(old(doc).sections())
            &&& final(doc).contents() == readied(
                old(doc).contents(),
                placing_of(final(doc).contents()),
            )
            &&& is_steady(*old(doc)) ==> is_readied(old(doc).contents(), final(doc).contents())
        },
{
    let ghost before = doc.contents();
    match doc.kind("postprocess") {
        SectionKind::Other => Err(EditError::NotATable { section: "postprocess".to_owned() }),
        SectionKind::Absent => {
            doc.add_section("postprocess");
            let ghost middle = doc.contents();
            doc.set_empty_array("postprocess", "replacements");
            proof {
                toml_doc::put_in_new_section(
                    before,
                    middle,
                    doc.contents(),
                    "postprocess"@,
                    "replacements"@,
                    Field::Array(Seq::empty()),
                );
            }
            Ok(())
        },
        SectionKind::Table => {
            if doc.slots("postprocess", "replacements").is_none() {
                doc.set_empty_array("postprocess", "replacements");
            }
            Ok(())
        },
    }
}

/// Add a replacement to a document. One for the same text, whatever its case,
/// is overwritten in place; else the new one is appended on a line of its own.
pub fn apply_add(doc: &mut ConfigDocument, from: &str, to: &str) -> (r: Result<
    AddOutcome,
    EditError,
>)
    requires
        toml_doc::is_writable(from@),
        toml_doc::is_writable(to@),
    ensures
        if is_blocked(old(doc).sections()) {
            &&& r matches Err(EditError::NotATable { section }) && section@ == "postprocess"@
            &&& *final(doc) == *old(doc)
        } else {
            &&& r matches Ok(outcome) && tells(
                outcome,
                replacement_slots(old(doc).sections()),
                from@,
            )
            &&& final(doc).contents() == added(
                old(doc).contents(),
                from@,
                to@,
                placing_of(final(doc).contents()),
            )
            &&& is_steady(*old(doc)) ==> is_added(
                old(doc).contents(),
                final(doc).contents(),
                from@,
                to@,
            )
        },
{
    match ready(doc) {
        Ok(_) => {},
        Err(e) => {
            return Err(e);
        },
    }
    let seen = slots_of(doc);
    match find(&seen, from, Ghost(replacement_slots(doc.sections()))) {
        Some((i, previous)) => {
            doc.set_pair("postprocess", "replacements", i, from, to);
            Ok(AddOutcome::Updated { previous })
        },
        None => {
            doc.add_pair("postprocess", "replacements", from, to);
            Ok(AddOutcome::Added)
        },
    }
}

/// Remove the replacement of `from`, whatever its case, from a document, and
/// return what it was replaced by.
pub fn apply_remove(doc: &mut ConfigDocument, from: &str) -> (r: Result<Option<String>, EditError>)
    ensures
        if is_blocked(old(doc).sections()) {
            r matches Err(EditError::NotATable { section }) && section@ == "postprocess"@
        } else {
            r matches Ok(to) && text::held(to) == lookup(
                replacement_slots(old(doc).sections()),
                from@,
            )
        },
        final(doc).contents() == removed(old(doc).contents(), from@),
        lookup(replacement_slots(old(doc).sections()), from@) is None ==> *final(doc) == *old(doc),
{
    match doc.kind("postprocess") {
        SectionKind::Other => {
            return Err(EditError::NotATable { section: "postprocess".to_owned() });
        },
        _ => {},
    }
    let seen = slots_of(doc);
    match find(&seen, from, Ghost(replacement_slots(doc.sections()))) {
        Some((i, to)) => {
            doc.remove_slot("postprocess", "replacements", i);
            Ok(Some(to))
        },
        None => Ok(None),
    }
}

/// A list of replacements by its texts.
pub open spec fn pairs_view(pairs: Seq<(String, String)>) -> Seq<(Seq<char>, Seq<char>)> {
    pairs.map_values(|p: (String, String)| (p.0@, p.1@))
}

/// The replacements in a document, in order. Entries of another shape are
/// passed over.
pub fn entries_in(doc: &ConfigDocument) -> (r: Vec<(String, String)>)
    ensures
        pairs_view(r@) == entries(replacement_slots(doc.sections())),
{
    let seen = slots_of(doc);
    let ghost all = replacement_slots(doc.sections());
    let mut out: Vec<(String, String)> = Vec::new();
    assert(pairs_view(out@) =~= entries(all.take(0)));
    for i in 0..seen.len()
        invariant
            toml_doc::shows(seen@, all),
            pairs_view(out@) == entries(all.take(i as int)),
    {
        assert(all.take(i + 1).drop_last() == all.take(i as int));
        assert(all.take(i + 1).last() == all[i as int]);
        match entry_at(&seen[i], Ghost(all[i as int])) {
            Some(pair) => {
                let ghost before = out@;
                out.push(pair);
                assert(pairs_view(out@) =~= pairs_view(before).push((pair.0@, pair.1@)));
            },
            None => {},
        }
    }
    assert(all.take(seen@.len() as int) == all);
    out
}

// ---------------------------------------------------------------------------
// Files
// ---------------------------------------------------------------------------

/// What the file holds: what its text reads as, or nothing for a file that does
/// not exist yet.
pub open spec fn contents(existing: Option<Seq<char>>) -> Result<Contents, Seq<char>> {
    match existing {
        Some(text) => toml_doc::toml_reading(text),
        None => Ok(toml_doc::nothing()),
    }
}

/// The document to start a new configuration file with: an empty list of
/// replacements, which shows the shape of the section.
fn starter() -> (r: ConfigDocument)
    ensures
        has_array(r.contents()),
        replacement_slots(r.sections()) == Seq::<Slot>::empty(),
        r.contents() == readied(toml_doc::nothing(), placing_of(r.contents())),
        is_readied(toml_doc::nothing(), r.contents()),
{
    let mut doc = ConfigDocument::new();
    doc.add_section("postprocess");
    let ghost middle = doc.contents();
    doc.set_empty_array("postprocess", "replacements");
    proof {
        toml_doc::put_in_new_section(
            toml_doc::nothing(),
            middle,
            doc.contents(),
            "postprocess"@,
            "replacements"@,
            Field::Array(Seq::empty()),
        );
    }
    doc
}

/// The document for a file: its text parsed, or for a file that does not exist
/// yet one that shows the shape of the section.
pub fn load_or_new(existing: Option<&str>) -> (r: Result<ConfigDocument, EditError>)
    ensures
        match contents(text::seen(existing)) {
            Ok(held) => r matches Ok(doc) && if existing is Some {
                doc.contents() == held && doc.is_settled()
            } else {
                &&& has_array(doc.contents())
                &&& replacement_slots(doc.sections()) == Seq::<Slot>::empty()
                &&& doc.contents() == readied(held, placing_of(doc.contents()))
                &&& is_readied(held, doc.contents())
            },
            Err(why) => r matches Err(EditError::Malformed { detail }) && detail@ == why,
        },
{
    match existing {
        Some(text) => match ConfigDocument::parse(text) {
            Ok(doc) => Ok(doc),
            Err(detail) => Err(EditError::Malformed { detail }),
        },
        None => Ok(starter()),
    }
}

/// The text to start a new configuration file with.
pub fn starter_text() -> (r: String)
    ensures
        toml_doc::toml_reading(r@) matches Ok(now) && is_readied(toml_doc::nothing(), now),
{
    starter().to_text()
}

/// Whether `r` is the answer to adding a replacement to a file with the given
/// contents: the new text reads as the contents with the replacement added.
pub open spec fn adds(
    r: Result<(String, AddOutcome), EditError>,
    contents: Result<Contents, Seq<char>>,
    from: Seq<char>,
    to: Seq<char>,
) -> bool {
    match contents {
        Err(why) => r matches Err(EditError::Malformed { detail }) && detail@ == why,
        Ok(held) => if is_blocked(held.sections) {
            r matches Err(EditError::NotATable { section }) && section@ == "postprocess"@
        } else {
            r matches Ok(answer) && toml_doc::toml_reading(answer.0@) matches Ok(now) && is_added(
                held,
                now,
                from,
                to,
            ) && tells(answer.1, replacement_slots(held.sections), from)
        },
    }
}

/// Add a replacement to the file with the given text, or to a new file: the
/// file's new text, and whether an older replacement was overwritten.
pub fn add(existing: Option<&str>, from: &str, to: &str) -> (r: Result<
    (String, AddOutcome),
    EditError,
>)
    requires
        toml_doc::is_writable(from@),
        toml_doc::is_writable(to@),
    ensures
        adds(r, contents(text::seen(existing)), from@, to@),
{
    let mut doc = match load_or_new(existing) {
        Ok(doc) => doc,
        Err(e) => {
            return Err(e);
        },
    };
    match apply_add(&mut doc, from, to) {
        Ok(outcome) => Ok((doc.to_text(), outcome)),
        Err(e) => Err(e),
    }
}

/// Whether `r` is the answer to removing a replacement from a file with the
/// given contents: where there was one, what it was replaced by, and a new text
/// that reads as the contents without it.
pub open spec fn removes(
    r: Result<Option<(String, String)>, EditError>,
    contents: Result<Contents, Seq<char>>,
    from: Seq<char>,
) -> bool {
    match contents {
        Err(why) => r matches Err(EditError::Malformed { detail }) && detail@ == why,
        Ok(held) => if is_blocked(held.sections) {
            r matches Err(EditError::NotATable { section }) && section@ == "postprocess"@
        } else {
            match lookup(replacement_slots(held.sections), from) {
                Some(to) => r matches Ok(Some(answer)) && toml_doc::reads_as(
                    toml_doc::toml_reading(answer.0@),
                    removed(held, from),
                ) && answer.1@ == to,
                None => r matches Ok(None),
            }
        },
    }
}

/// Remove a replacement from the file with the given text: where there was one,
/// the file's new text and what the replacement was. A file that does not exist
/// holds none.
pub fn remove(existing: Option<&str>, from: &str) -> (r: Result<
    Option<(String, String)>,
    EditError,
>)
    ensures
        match existing {
            Some(text) => removes(r, toml_doc::toml_reading(text@), from@),
            None => r matches Ok(None),
        },
{
    if existing.is_none() {
        return Ok(None);
    }
    let mut doc = match load_or_new(existing) {
        Ok(doc) => doc,
        Err(e) => {
            return Err(e);
        },
    };
    match apply_remove(&mut doc, from) {
        Ok(Some(to)) => Ok(Some((doc.to_text(), to))),
        Ok(None) => Ok(None),
        Err(e) => Err(e),
    }
}

/// All replacements in the file with the given text, in order.
pub fn list(existing: Option<&str>) -> (r: Result<Vec<(String, String)>, EditError>)
    ensures
        match existing {
            Some(text) => match toml_doc::toml_reading(text@) {
                Ok(held) => r matches Ok(pairs) && pairs_view(pairs@) == entries(
                    replacement_slots(held.sections),
                ),
                Err(why) => r matches Err(EditError::Malformed { detail }) && detail@ == why,
            },
            None => r matches Ok(pairs) && pairs@.len() == 0,
        },
{
    if existing.is_none() {
        return Ok(Vec::new());
    }
    match load_or_new(existing) {
        Ok(doc) => Ok(entries_in(&doc)),
        Err(e) => Err(e),
    }
}

// ---------------------------------------------------------------------------
// The editor
// ---------------------------------------------------------------------------

/// The words of `s` between runs of white space.
pub open spec fn words(s: Seq<char>) -> Seq<Seq<char>>
    decreases s.len(),
{
    if s.len() == 0 {
        Seq::empty()
    } else if text::is_white(s.last()) {
        words(s.drop_last())
    } else if s.len() > 1 && !text::is_white(s[s.len() - 2]) {
        let front = words(s.drop_last());
        front.drop_last().push(front.last().push(s.last()))
    } else {
        words(s.drop_last()).push(seq![s.last()])
    }
}

/// The words of `s` between runs of white space.
fn split_words(s: &str) -> (r: Vec<String>)
    ensures
        text::texts(r@) == words(s@),
{
    let chars = text::chars_of(s);
    let n: usize = chars.len();
    let mut out: Vec<String> = Vec::new();
    assert(text::texts(out@) =~= words(chars@.take(0)));
    for i in 0..n
        invariant
            n == chars@.len(),
            text::texts(out@) == words(chars@.take(i as int)),
            i > 0 && !text::is_white(chars@[i - 1]) ==> out@.len() > 0,
    {
        let ghost now = chars@.take(i + 1);
        let ghost before = out@;
        assert(now.drop_last() == chars@.take(i as int));
        assert(now.last() == chars@[i as int]);
        if i > 0 {
            assert(now[i - 1] == chars@[i - 1]);
        }
        let c = chars[i];
        if !text::white(c) {
            let mut word: String = String::new();
            if i > 0 && !text::white(chars[i - 1]) {
                match out.pop() {
                    Some(last) => {
                        word = last;
                    },
                    None => {},
                }
                assert(text::texts(out@) =~= text::texts(before).drop_last());
                assert(word@ == text::texts(before).last());
            }
            let ghost kept = out@;
            let ghost start = word@;
            word.push(c);
            out.push(word);
            assert(text::texts(out@) =~= text::texts(kept).push(start.push(c)));
            assert(Seq::<char>::empty().push(c) =~= seq![c]);
        }
    }
    assert(chars@.take(n as int) == chars@);
    out
}

/// The editor to run, as a program and its arguments: the words of `$EDITOR`,
/// else `nano` where it is installed, else `vi`. There is no shell quoting.
pub fn pick_editor_argv(editor: Option<&str>, nano_found: bool) -> (r: Vec<String>)
    ensures
        r@.len() > 0,
        text::texts(r@) == if editor is Some && words(editor->0@).len() > 0 {
            words(editor->0@)
        } else if nano_found {
            seq!["nano"@]
        } else {
            seq!["vi"@]
        },
{
    match editor {
        Some(e) => {
            let tokens = split_words(e);
            assert(text::texts(tokens@).len() == tokens@.len());
            if tokens.len() > 0 {
                return tokens;
            }
        },
        None => {},
    }
    let program: String = if nano_found {
        "nano".to_owned()
    } else {
        "vi".to_owned()
    };
    let argv: Vec<String> = vec![program];
    assert(text::texts(argv@) =~= seq![program@]);
    argv
}

// ---------------------------------------------------------------------------
// Laws
// ---------------------------------------------------------------------------

/// The file's replacements after an edit are the edited slots, and nothing else
/// that the file holds changes: no other section, and no other field of this one.
pub proof fn edits_touch_nothing_else(
    sections: Map<Seq<char>, Section>,
    slots: Seq<Slot>,
    section: Seq<char>,
    key: Seq<char>,
)
    ensures
        replacement_slots(with_replacements(sections, slots)) == slots,
        section != "postprocess"@ ==> with_replacements(sections, slots).contains_key(section)
            == sections.contains_key(section) && with_replacements(sections, slots)[section]
            == sections[section],
        key != "replacements"@ && toml_doc::table_at(sections, "postprocess"@) is Some ==> {
            let before = toml_doc::table_at(sections, "postprocess"@)->0;
            let after = toml_doc::table_at(
                with_replacements(sections, slots),
                "postprocess"@,
            )->0;
            after.contains_key(key) == before.contains_key(key) && after[key] == before[key]
        },
{
}

/// After a replacement was added, looking it up gives what was added.
pub proof fn added_is_found(slots: Seq<Slot>, from: Seq<char>, to: Seq<char>)
    ensures
        lookup(slots_added(slots, from, to), from) == Some(to),
{
    place_is_first(slots, from);
    let after = slots_added(slots, from, to);
    match place_of(slots, from) {
        Some(i) => {
            assert forall|j: int| 0 <= j < i implies !is_for(#[trigger] after[j], from) by {
                assert(after[j] == slots[j]);
            }
            place_is_the_first(after, from, i);
        },
        None => {
            assert forall|j: int| 0 <= j < slots.len() implies !is_for(
                #[trigger] after[j],
                from,
            ) by {
                assert(after[j] == slots[j]);
            }
            place_is_the_first(after, from, slots.len() as int);
        },
    }
}

/// Adding or removing a replacement leaves what other texts are replaced by
/// alone.
pub proof fn other_replacements_stay(
    slots: Seq<Slot>,
    from: Seq<char>,
    to: Seq<char>,
    other: Seq<char>,
)
    requires
        text::lowered(other) != text::lowered(from),
    ensures
        lookup(slots_added(slots, from, to), other) == lookup(slots, other),
        lookup(slots_removed(slots, from), other) == lookup(slots, other),
{
    place_is_first(slots, from);
    place_is_first(slots, other);
    let more = slots_added(slots, from, to);
    let less = slots_removed(slots, from);
    assert(!is_for(toml_doc::pair_slot(from, to), other));
    assert(more.len() >= slots.len());
    match place_of(slots, other) {
        Some(k) => {
            assert(place_of(slots, from) != Some(k));
            assert(more[k] == slots[k]);
            assert forall|j: int| 0 <= j < k implies !is_for(#[trigger] more[j], other) by {
                assert(more[j] == slots[j] || more[j] == toml_doc::pair_slot(from, to));
            }
            place_is_the_first(more, other, k);
            match place_of(slots, from) {
                Some(i) => {
                    let k2 = if i < k {
                        k - 1
                    } else {
                        k
                    };
                    assert(less[k2] == slots[k]);
                    assert forall|j: int| 0 <= j < k2 implies !is_for(#[trigger] less[j], other) by {
                        assert(less[j] == if j < i {
                            slots[j]
                        } else {
                            slots[j + 1]
                        });
                    }
                    place_is_the_first(less, other, k2);
                },
                None => {},
            }
        },
        None => {
            assert forall|j: int| 0 <= j < more.len() implies !is_for(#[trigger] more[j], other) by {
                assert(more[j] == toml_doc::pair_slot(from, to) || (j < slots.len() && more[j]
                    == slots[j]));
            }
            no_place(more, other);
            assert forall|j: int| 0 <= j < less.len() implies !is_for(#[trigger] less[j], other) by {
                match place_of(slots, from) {
                    Some(i) => {
                        assert(less[j] == if j < i {
                            slots[j]
                        } else {
                            slots[j + 1]
                        });
                    },
                    None => {},
                }
            }
            no_place(less, other);
        },
    }
}

/// Letter case does not matter to what a text is replaced by.
pub proof fn lookup_ignores_case(slots: Seq<Slot>, a: Seq<char>, b: Seq<char>)
    requires
        text::lowered(a) == text::lowered(b),
    ensures
        place_of(slots, a) == place_of(slots, b),
        lookup(slots, a) == lookup(slots, b),
    decreases slots.len(),
{
    if slots.len() > 0 {
        lookup_ignores_case(slots.drop_last(), a, b);
    }
}

/// A list of slots lists the replacements of its parts.
pub proof fn entries_of_parts(front: Seq<Slot>, back: Seq<Slot>)
    ensures
        entries(front + back) == entries(front) + entries(back),
    decreases back.len(),
{
    if back.len() == 0 {
        assert(front + back == front);
        assert(entries(front) + entries(back) == entries(front));
    } else {
        entries_of_parts(front, back.drop_last());
        assert((front + back).drop_last() == front + back.drop_last());
        assert((front + back).last() == back.last());
        match entry_in(back.last()) {
            Some(e) => {
                assert(entries(front) + entries(back.drop_last()).push(e) == (entries(front)
                    + entries(back.drop_last())).push(e));
            },
            None => {},
        }
    }
}

/// The list after a replacement was added: a new one comes last; one for a text
/// that was replaced already takes the old one's place.
pub proof fn list_after_add(slots: Seq<Slot>, from: Seq<char>, to: Seq<char>)
    ensures
        match place_of(slots, from) {
            Some(i) => {
                &&& entries(slots) == entries(slots.take(i)) + seq![entry_in(slots[i])->0]
                    + entries(slots.skip(i + 1))
                &&& entries(slots_added(slots, from, to)) == entries(slots.take(i)) + seq![
                    (from, to),
                ] + entries(slots.skip(i + 1))
            },
            None => entries(slots_added(slots, from, to)) == entries(slots).push((from, to)),
        },
{
    place_is_first(slots, from);
    let after = slots_added(slots, from, to);
    match place_of(slots, from) {
        Some(i) => {
            assert(slots == slots.take(i) + seq![slots[i]] + slots.skip(i + 1));
            assert(after == slots.take(i) + seq![after[i]] + slots.skip(i + 1));
            entries_of_parts(slots.take(i) + seq![slots[i]], slots.skip(i + 1));
            entries_of_parts(slots.take(i) + seq![after[i]], slots.skip(i + 1));
            entries_of_parts(slots.take(i), seq![slots[i]]);
            entries_of_parts(slots.take(i), seq![after[i]]);
            single_entry(slots[i]);
            single_entry(after[i]);
        },
        None => {
            assert(after.drop_last() == slots);
        },
    }
}

/// One slot with a replacement lists that one.
proof fn single_entry(slot: Slot)
    requires
        entry_in(slot) is Some,
    ensures
        entries(seq![slot]) == seq![entry_in(slot)->0],
{
    reveal_with_fuel(entries, 2);
    assert(seq![slot].drop_last() == Seq::<Slot>::empty());
    assert(entries(seq![slot]) == Seq::<(Seq<char>, Seq<char>)>::empty().push(entry_in(slot)->0));
    assert(Seq::<(Seq<char>, Seq<char>)>::empty().push(entry_in(slot)->0) == seq![
        entry_in(slot)->0,
    ]);
}

/// The list after a replacement was removed: the first one for the text is gone,
/// and the others keep their order.
pub proof fn list_after_remove(slots: Seq<Slot>, from: Seq<char>)
    ensures
        match place_of(slots, from) {
            Some(i) => {
                &&& entries(slots) == entries(slots.take(i)) + seq![entry_in(slots[i])->0]
                    + entries(slots.skip(i + 1))
                &&& entries(slots_removed(slots, from)) == entries(slots.take(i)) + entries(
                    slots.skip(i + 1),
                )
            },
            None => slots_removed(slots, from) == slots,
        },
{
    place_is_first(slots, from);
    match place_of(slots, from) {
        Some(i) => {
            assert(slots == slots.take(i) + seq![slots[i]] + slots.skip(i + 1));
            entries_of_parts(slots.take(i) + seq![slots[i]], slots.skip(i + 1));
            entries_of_parts(slots.take(i), seq![slots[i]]);
            single_entry(slots[i]);
            assert(slots.remove(i) == slots.take(i) + slots.skip(i + 1));
            entries_of_parts(slots.take(i), slots.skip(i + 1));
        },
        None => {},
    }
}

/// Removing a replacement that was new when it was added restores the list.
pub proof fn remove_undoes_add(slots: Seq<Slot>, from: Seq<char>, to: Seq<char>)
    requires
        place_of(slots, from) is None,
    ensures
        slots_removed(slots_added(slots, from, to), from) == slots,
{
    place_is_first(slots, from);
    let after = slots_added(slots, from, to);
    assert forall|j: int| 0 <= j < slots.len() implies !is_for(#[trigger] after[j], from) by {
        assert(after[j] == slots[j]);
    }
    place_is_the_first(after, from, slots.len() as int);
    assert(after.remove(slots.len() as int) == slots);
}

/// Adding a replacement a second time changes nothing more, and reports the
/// first one.
pub proof fn second_add_updates(slots: Seq<Slot>, from: Seq<char>, to: Seq<char>, again: Seq<char>)
    ensures
        slots_added(slots_added(slots, from, to), from, again) == slots_added(slots, from, again),
        lookup(slots_added(slots, from, to), from) == Some(to),
{
    added_is_found(slots, from, to);
    place_is_first(slots, from);
    let once = slots_added(slots, from, to);
    match place_of(slots, from) {
        Some(i) => {
            assert forall|j: int| 0 <= j < i implies !is_for(#[trigger] once[j], from) by {
                assert(once[j] == slots[j]);
            }
            place_is_the_first(once, from, i);
            assert(once.update(i, toml_doc::pair_slot(from, again)) == slots.update(
                i,
                toml_doc::pair_slot(from, again),
            ));
        },
        None => {
            let n = slots.len() as int;
            assert forall|j: int| 0 <= j < n implies !is_for(#[trigger] once[j], from) by {
                assert(once[j] == slots[j]);
            }
            place_is_the_first(once, from, n);
            assert(once.update(n, toml_doc::pair_slot(from, again)) == slots.push(
                toml_doc::pair_slot(from, again),
            ));
        },
    }
}

/// The entries after a replacement was added, and after one was removed: the
/// edited slots are all that is new.
proof fn edited_sections(
    c: Contents,
    from: Seq<char>,
    to: Seq<char>,
    placing: Placing,
)
    requires
        !is_blocked(c.sections),
    ensures
        added(c, from, to, placing).sections == with_replacements(
            c.sections,
            slots_added(replacement_slots(c.sections), from, to),
        ),
        place_of(replacement_slots(c.sections), from) is Some ==> removed(c, from).sections
            == with_replacements(c.sections, slots_removed(replacement_slots(c.sections), from)),
{
    place_is_first(replacement_slots(c.sections), from);
    let after = added(c, from, to, placing).sections;
    let meant = with_replacements(
        c.sections,
        slots_added(replacement_slots(c.sections), from, to),
    );
    assert(toml_doc::table_at(after, "postprocess"@)->0 =~= toml_doc::table_at(
        meant,
        "postprocess"@,
    )->0);
    assert(after =~= meant);
}

/// What was added to a file is what is read from it: in the new text the
/// replacement is found, and the list is the old one with it added.
pub proof fn add_is_read_back(c: Contents, now: Contents, from: Seq<char>, to: Seq<char>)
    requires
        !is_blocked(c.sections),
        is_added(c, now, from, to),
    ensures
        replacement_slots(now.sections) == slots_added(
            replacement_slots(c.sections),
            from,
            to,
        ),
        lookup(replacement_slots(now.sections), from) == Some(to),
        entries(replacement_slots(now.sections)) == entries(
            slots_added(replacement_slots(c.sections), from, to),
        ),
{
    edited_sections(c, from, to, placing_of(now));
    added_is_found(replacement_slots(c.sections), from, to);
}

/// What was removed from a file is gone from it: in the new text the list is
/// the old one without it.
pub proof fn remove_is_read_back(c: Contents, now: Contents, from: Seq<char>)
    requires
        !is_blocked(c.sections),
        toml_doc::is_read_back(now, removed(c, from)),
    ensures
        replacement_slots(now.sections) == slots_removed(replacement_slots(c.sections), from),
{
    edited_sections(c, from, from, placing_of(c));
}

/// Removing a replacement that was new when it was added to a list restores the
/// document, layout and all.
pub proof fn remove_restores_the_document(
    c: Contents,
    from: Seq<char>,
    to: Seq<char>,
    placing: Placing,
)
    requires
        toml_doc::is_consistent(c),
        has_array(c),
        place_of(replacement_slots(c.sections), from) is None,
    ensures
        removed(added(c, from, to, placing), from) == c,
{
    let place = ("postprocess"@, "replacements"@);
    let slots = replacement_slots(c.sections);
    let middle = added(c, from, to, placing);
    let after = removed(middle, from);
    edited_sections(c, from, to, placing);
    edited_sections(middle, from, to, placing);
    remove_undoes_add(slots, from, to);
    added_is_found(slots, from, to);
    place_is_first(slots, from);
    place_is_first(slots.push(toml_doc::pair_slot(from, to)), from);
    assert(c.slots.contains_key(place) && c.within.contains_key(place));
    assert(toml_doc::table_at(after.sections, "postprocess"@)->0 =~= toml_doc::table_at(
        c.sections,
        "postprocess"@,
    )->0);
    assert(after.sections =~= c.sections);
    assert(after.slots[place] =~= c.slots[place]);
    assert(after.slots =~= c.slots);
    assert(after.comments =~= c.comments);
    assert(after.within[place] =~= c.within[place]);
    assert(after.within =~= c.within);
}

/// The comments that go when a replacement is added: those between the brackets
/// of the one that it takes the place of; none where it is new, unless something
/// else than an array stood for the replacements.
pub open spec fn comments_overwritten(c: Contents, from: Seq<char>) -> Notes {
    let place = ("postprocess"@, "replacements"@);
    match place_of(replacement_slots(c.sections), from) {
        Some(i) => c.slots[place][i].within,
        None => if has_array(c) {
            Notes::empty()
        } else {
            toml_doc::notes_at(c, c.within, place)
        },
    }
}

/// Adding a replacement leaves the rest of the file alone: what every other
/// section and field holds, all comments but those in what is overwritten, the
/// blank lines and white space above everything, what is written beside the array,
/// and the order of everything.
pub proof fn add_keeps_the_file(c: Contents, now: Contents, from: Seq<char>, to: Seq<char>)
    requires
        !is_blocked(c.sections),
        is_added(c, now, from, to),
    ensures
        toml_doc::same_elsewhere(c, now, "postprocess"@, "replacements"@),
        now.comments == c.comments.sub(comments_overwritten(c, from)),
        toml_doc::field_at(c.sections, "postprocess"@, "replacements"@) is None || (has_array(c)
            && place_of(replacement_slots(c.sections), from) is None) ==> now.comments
            == c.comments,
        toml_doc::sides_at(now, ("postprocess"@, "replacements"@)) == toml_doc::sides_at(
            c,
            ("postprocess"@, "replacements"@),
        ),
        has_array(c) ==> now.beside == c.beside && now.order == c.order && now.lines == c.lines
            && now.above == c.above,
        toml_doc::field_at(c.sections, "postprocess"@, "replacements"@) is None ==> now.above
            == c.above.insert(("postprocess"@, "replacements"@), seq![""@]),
        toml_doc::is_consistent(c) && has_array(c) && replacement_slots(c.sections).len() > 0 ==> {
            let place = ("postprocess"@, "replacements"@);
            let layouts = added(c, from, to, placing_of(now)).slots[place];
            &&& now.closings[place] == c.closings[place]
            &&& now.slots[place] == layouts
            &&& match place_of(replacement_slots(c.sections), from) {
                Some(i) => layouts.len() == c.slots[place].len() && layouts[i].before
                    == c.slots[place][i].before && layouts[i].behind == c.slots[place][i].behind
                    && forall|j: int|
                    0 <= j < layouts.len() && j != i ==> layouts[j] == c.slots[place][j],
                None => layouts.drop_last() == c.slots[place] && layouts.last().before == "\n    "@,
            }
        },
{
    let place = ("postprocess"@, "replacements"@);
    edited_sections(c, from, to, placing_of(now));
    place_is_first(replacement_slots(c.sections), from);
    assert(c.comments.sub(Notes::empty()) =~= c.comments);
    let edited = added(c, from, to, placing_of(now));
    assert(toml_doc::is_array_read_back(now, edited, place));
    assert forall|other: (Seq<char>, Seq<char>)|
        other != place implies #[trigger] toml_doc::is_array_read_back(now, c, other) by {
        assert(toml_doc::is_array_read_back(now, edited, other));
    }
    let ready = readied(c, placing_of(now));
    assert(ready.lines.remove("postprocess"@) =~= c.lines.remove("postprocess"@));
    assert(ready.headers.remove("postprocess"@) =~= c.headers.remove("postprocess"@));
    assert(ready.beside.remove(place) =~= c.beside.remove(place));
    assert(ready.within.remove(place) =~= c.within.remove(place));
    assert(ready.sides.remove(place) =~= c.sides.remove(place));
    assert(ready.above.remove(place) =~= c.above.remove(place));
    assert(now.within.remove(place) =~= c.within.remove(place));
    assert(now.sections.remove("postprocess"@) =~= c.sections.remove("postprocess"@));
    assert forall|k: Seq<char>| k != "replacements"@ implies #[trigger] toml_doc::field_at(
        now.sections,
        "postprocess"@,
        k,
    ) == toml_doc::field_at(c.sections, "postprocess"@, k) by {
        edits_touch_nothing_else(
            c.sections,
            slots_added(replacement_slots(c.sections), from, to),
            "postprocess"@,
            k,
        );
    }
}

/// Removing a replacement leaves the rest of the file alone: what every other
/// section and field holds, all comments but those beside and within the one
/// that is removed, the blank lines and white space above everything, what is
/// written beside the array, and the order of everything.
pub proof fn remove_keeps_the_file(c: Contents, now: Contents, from: Seq<char>)
    requires
        !is_blocked(c.sections),
        toml_doc::is_read_back(now, removed(c, from)),
    ensures
        toml_doc::same_elsewhere(c, now, "postprocess"@, "replacements"@),
        now.order == c.order,
        now.lines == c.lines,
        now.beside == c.beside,
        now.sides == c.sides,
        now.above == c.above,
        match place_of(replacement_slots(c.sections), from) {
            Some(i) => {
                let place = ("postprocess"@, "replacements"@);
                let slot = c.slots[place][i];
                &&& now.comments == c.comments.sub(slot.beside).sub(slot.within)
                &&& toml_doc::is_consistent(c) && c.slots[place].len() > 1 ==> now.slots[place]
                    == c.slots[place].remove(i) && now.closings[place] == c.closings[place]
            },
            None => toml_doc::is_read_back(now, c),
        },
{
    let place = ("postprocess"@, "replacements"@);
    edited_sections(c, from, from, placing_of(c));
    place_is_first(replacement_slots(c.sections), from);
    assert forall|other: (Seq<char>, Seq<char>)|
        other != place implies #[trigger] toml_doc::is_array_read_back(now, c, other) by {
        assert(toml_doc::is_array_read_back(now, removed(c, from), other));
    }
    assert(toml_doc::is_array_read_back(now, removed(c, from), place));
    if place_of(replacement_slots(c.sections), from) is Some {
        assert(now.within.remove(place) =~= c.within.remove(place));
        assert(now.sections.remove("postprocess"@) =~= c.sections.remove("postprocess"@));
    }
    assert forall|k: Seq<char>| k != "replacements"@ implies #[trigger] toml_doc::field_at(
        now.sections,
        "postprocess"@,
        k,
    ) == toml_doc::field_at(c.sections, "postprocess"@, k) by {
        edits_touch_nothing_else(
            c.sections,
            slots_removed(replacement_slots(c.sections), from),
            "postprocess"@,
            k,
        );
    }
}

/// A slot holds a replacement exactly where its first two cells are strings, and
/// then it is of the first by the second, as they are written; it is for every text
/// that differs from the first by letter case alone.
pub proof fn slots_hold_their_pair(
    from: Seq<char>,
    to: Seq<char>,
    more: Seq<Cell>,
    other: Seq<char>,
    cell: Cell,
)
    ensures
        entry_in(toml_doc::pair_slot(from, to)) == Some((from, to)),
        entry_in(Slot::Cells(seq![Cell::Text(from), Cell::Text(to)] + more)) == Some((from, to)),
        entry_in(Slot::Cells(seq![cell])) is None,
        entry_in(Slot::Cells(Seq::empty())) is None,
        entry_in(Slot::Cells(seq![Cell::Other(other), cell] + more)) is None,
        entry_in(Slot::Cells(seq![cell, Cell::Other(other)] + more)) is None,
        entry_in(Slot::Other(other)) is None,
        is_for(toml_doc::pair_slot(from, to), other) <==> text::lowered(from) == text::lowered(
            other,
        ),
{
    let both = seq![Cell::Text(from), Cell::Text(to)] + more;
    assert(both[0] == Cell::Text(from) && both[1] == Cell::Text(to));
    let odd = seq![Cell::Other(other), cell] + more;
    assert(odd[0] == Cell::Other(other));
    let late = seq![cell, Cell::Other(other)] + more;
    assert(late[1] == Cell::Other(other));
}

/// A slot without a replacement lists nothing, and one with a replacement lists it.
pub proof fn each_slot_lists_itself(slot: Slot)
    ensures
        entry_in(slot) is None ==> entries(seq![slot]).len() == 0,
        entry_in(slot) matches Some(entry) ==> entries(seq![slot]) == seq![entry],
        entries(Seq::empty()).len() == 0,
{
    reveal_with_fuel(entries, 2);
    assert(seq![slot].drop_last() =~= Seq::<Slot>::empty());
    if entry_in(slot) is Some {
        single_entry(slot);
    }
}

/// What adding tells: whether there was a replacement already, and then what it was.
pub proof fn additions_tell_what_was(outcome: AddOutcome, slots: Seq<Slot>, from: Seq<char>, i: int)
    requires
        tells(outcome, slots, from),
    ensures
        outcome is Added <==> forall|j: int|
            0 <= j < slots.len() ==> !is_for(#[trigger] slots[j], from),
        0 <= i < slots.len() && is_for(slots[i], from) && (forall|j: int|
            0 <= j < i ==> !is_for(#[trigger] slots[j], from)) ==> (
        outcome matches AddOutcome::Updated { previous } && previous@ == (entry_in(slots[i])->0).1),
{
    place_is_first(slots, from);
}

/// From end to end: what was added to a file is listed from its new text, under the
/// entry for it; on a file that did not exist it is all that is listed.
pub proof fn additions_are_listed(
    existing: Option<&str>,
    from: &str,
    to: &str,
    text: String,
    outcome: AddOutcome,
    file: &str,
    listed: Result<Vec<(String, String)>, EditError>,
    before: Result<Vec<(String, String)>, EditError>,
)
    requires
        toml_doc::is_writable(from@),
        toml_doc::is_writable(to@),
        call_ensures(add, (existing, from, to), Ok((text, outcome))),
        file@ == text@,
        call_ensures(list, (Some(file),), listed),
        call_ensures(list, (existing,), before),
    ensures
        listed matches Ok(pairs) && exists|i: int|
            0 <= i < pairs@.len() && (#[trigger] pairs@[i]).0@ == from@ && pairs@[i].1@ == to@,
        before is Ok,
        outcome is Added ==> pairs_view(listed->Ok_0@) == pairs_view(before->Ok_0@).push(
            (from@, to@),
        ),
        existing is None ==> outcome is Added && listed->Ok_0@.len() == 1,
        outcome is Updated ==> listed->Ok_0@.len() == before->Ok_0@.len(),
{
    let held = contents(text::seen(existing))->Ok_0;
    let now = toml_doc::toml_reading(text@)->Ok_0;
    let slots = replacement_slots(held.sections);
    assert(is_added(held, now, from@, to@));
    assert(tells(outcome, slots, from@));
    add_is_read_back(held, now, from@, to@);
    list_after_add(slots, from@, to@);
    place_is_first(slots, from@);
    let found = entries(replacement_slots(now.sections));
    let pairs = listed->Ok_0@;
    assert(pairs_view(pairs) == found);
    assert(pairs_view(pairs).len() == pairs.len());
    if existing is None {
        assert(slots =~= Seq::<Slot>::empty());
        assert(entries(slots) =~= Seq::<(Seq<char>, Seq<char>)>::empty());
        assert(pairs_view(before->Ok_0@) =~= Seq::<(Seq<char>, Seq<char>)>::empty());
    }
    assert(pairs_view(before->Ok_0@) == entries(slots));
    assert(pairs_view(before->Ok_0@).len() == before->Ok_0@.len());
    match place_of(slots, from@) {
        Some(i) => {
            let k = entries(slots.take(i)).len() as int;
            assert(found[k] == (from@, to@));
            assert(pairs_view(pairs)[k] == (pairs[k].0@, pairs[k].1@));
        },
        None => {
            let k = entries(slots).len() as int;
            assert(found[k] == (from@, to@));
            assert(pairs_view(pairs)[k] == (pairs[k].0@, pairs[k].1@));
        },
    }
}

/// From end to end: what was removed from a file was in it, whatever its case, and
/// the list of its new text is shorter by one; where nothing was removed, nothing was
/// for the text.
pub proof fn removals_are_listed(
    existing: &str,
    from: &str,
    r: Result<Option<(String, String)>, EditError>,
    before: Result<Vec<(String, String)>, EditError>,
)
    requires
        call_ensures(remove, (Some(existing), from), r),
        call_ensures(list, (Some(existing),), before),
    ensures
        r matches Ok(Some(answer)) ==> {
            &&& before matches Ok(pairs) && exists|i: int|
                0 <= i < pairs@.len() && text::lowered((#[trigger] pairs@[i]).0@) == text::lowered(
                    from@,
                ) && pairs@[i].1@ == answer.1@
            &&& toml_doc::toml_reading(answer.0@) matches Ok(now) && entries(
                replacement_slots(now.sections),
            ).len() + 1 == before->Ok_0@.len()
        },
        r matches Ok(None) ==> {
            &&& before matches Ok(pairs) && forall|i: int|
                0 <= i < pairs@.len() ==> text::lowered((#[trigger] pairs@[i]).0@)
                    != text::lowered(from@)
        },
        r is Err && before is Ok ==> (r matches Err(EditError::NotATable { section }) && section@
            == "postprocess"@),
        before is Err ==> r is Err,
{
    if before is Ok {
        let held = toml_doc::toml_reading(existing@)->Ok_0;
        let slots = replacement_slots(held.sections);
        let pairs = before->Ok_0@;
        assert(pairs_view(pairs) == entries(slots));
        assert(pairs_view(pairs).len() == pairs.len());
        place_is_first(slots, from@);
        list_after_remove(slots, from@);
        if r matches Ok(Some(answer)) {
            let i = place_of(slots, from@)->0;
            let k = entries(slots.take(i)).len() as int;
            assert(entries(slots)[k] == entry_in(slots[i])->0);
            assert(pairs_view(pairs)[k] == (pairs[k].0@, pairs[k].1@));
            let answer = (r->Ok_0)->0;
            let now = toml_doc::toml_reading(answer.0@)->Ok_0;
            remove_is_read_back(held, now, from@);
        }
        if r matches Ok(None) {
            assert forall|j: int| 0 <= j < pairs.len() implies text::lowered(
                (#[trigger] pairs[j]).0@,
            ) != text::lowered(from@) by {
                assert(pairs_view(pairs)[j] == (pairs[j].0@, pairs[j].1@));
                entries_come_from_slots(slots, j);
            }
        }
    }
}

/// Every entry comes from a slot.
proof fn entries_come_from_slots(slots: Seq<Slot>, j: int) -> (i: int)
    requires
        0 <= j < entries(slots).len(),
    ensures
        0 <= i < slots.len(),
        entry_in(slots[i]) == Some(entries(slots)[j]),
    decreases slots.len(),
{
    if slots.len() == 0 {
        0
    } else if entry_in(slots.last()) is Some && j == entries(slots).len() - 1 {
        slots.len() - 1
    } else {
        let i = entries_come_from_slots(slots.drop_last(), j);
        assert(slots.drop_last()[i] == slots[i]);
        i
    }
}

/// Where the replacements stand in the file: in the array `replacements` of the
/// section `postprocess`. Only a file with something else than a table of that name
/// is refused.
pub proof fn replacements_have_their_place(c: Contents, now: Contents, from: Seq<char>, to: Seq<char>)
    requires
        is_added(c, now, from, to),
        !is_blocked(c.sections),
    ensures
        toml_doc::array_at(now.sections, "postprocess"@, "replacements"@) is Some,
        toml_doc::array_at(now.sections, "postprocess"@, "replacements"@)->0.contains(
            toml_doc::pair_slot(from, to),
        ),
{
    let slots = replacement_slots(c.sections);
    edited_sections(c, from, to, placing_of(now));
    place_is_first(slots, from);
    let after = slots_added(slots, from, to);
    match place_of(slots, from) {
        Some(i) => {
            assert(after[i] == toml_doc::pair_slot(from, to));
        },
        None => {
            assert(after[slots.len() as int] == toml_doc::pair_slot(from, to));
        },
    }
}

/// Which files are refused: those that are no TOML, and those whose `postprocess` is
/// something else than a table.
pub proof fn refusals_have_a_reason(
    existing: &str,
    from: &str,
    to: &str,
    r: Result<(String, AddOutcome), EditError>,
)
    requires
        toml_doc::is_writable(from@),
        toml_doc::is_writable(to@),
        call_ensures(add, (Some(existing), from, to), r),
    ensures
        r is Ok <==> (toml_doc::toml_reading(existing@) matches Ok(held) && (
        !held.sections.contains_key("postprocess"@) || held.sections["postprocess"@] is Table)),
        r matches Err(e) ==> match toml_doc::toml_reading(existing@) {
            Ok(_) => e.text() == "postprocess is not a table"@,
            Err(why) => e.text() == why,
        },
{
    reveal_strlit("postprocess");
    reveal_strlit(" is not a table");
    reveal_strlit("postprocess is not a table");
    assert("postprocess"@ + " is not a table"@ =~= "postprocess is not a table"@);
}

proof fn words_follow(s: Seq<char>)
    requires
        s.len() > 0,
        !text::is_white(s.last()),
    ensures
        words(s).len() > 0,
    decreases s.len(),
{
    if s.len() > 1 && !text::is_white(s[s.len() - 2]) {
        words_follow(s.drop_last());
    }
}

/// White space parts words, wherever it stands: the words of two texts with white
/// space between them are those of the one and then those of the other.
pub proof fn white_space_parts_words(a: Seq<char>, c: char, b: Seq<char>)
    requires
        text::is_white(c),
    ensures
        words(a.push(c) + b) == words(a) + words(b),
    decreases b.len(),
{
    let all = a.push(c) + b;
    if b.len() == 0 {
        assert(all =~= a.push(c));
        assert(all.drop_last() =~= a);
        assert(words(a) + words(b) =~= words(a));
    } else {
        white_space_parts_words(a, c, b.drop_last());
        assert(all.drop_last() =~= a.push(c) + b.drop_last());
        assert(all.last() == b.last());
        if !text::is_white(b.last()) {
            if b.len() > 1 && !text::is_white(b[b.len() - 2]) {
                assert(all[all.len() - 2] == b[b.len() - 2]);
                words_follow(b.drop_last());
                let front = words(a) + words(b.drop_last());
                assert(front.last() == words(b.drop_last()).last());
                assert(front.drop_last() =~= words(a) + words(b.drop_last()).drop_last());
                assert(words(all) =~= words(a) + words(b));
            } else {
                if b.len() > 1 {
                    assert(all[all.len() - 2] == b[b.len() - 2]);
                } else {
                    assert(all[all.len() - 2] == c);
                }
                assert(words(all) =~= words(a) + words(b));
            }
        }
    }
}

/// A text without white space is one word, and one of nothing but white space is
/// none.
pub proof fn a_word_is_a_word(word: Seq<char>)
    requires
        word.len() > 0,
        forall|i: int| 0 <= i < word.len() ==> !text::is_white(#[trigger] word[i]),
    ensures
        words(word) == seq![word],
    decreases word.len(),
{
    let front = word.drop_last();
    assert(!text::is_white(word[word.len() - 1]));
    if word.len() > 1 {
        assert forall|i: int| 0 <= i < front.len() implies !text::is_white(#[trigger] front[i]) by {
            assert(front[i] == word[i]);
        }
        assert(!text::is_white(word[word.len() - 2]));
        a_word_is_a_word(front);
        assert(seq![front].drop_last() =~= Seq::<Seq<char>>::empty());
        assert(front.push(word.last()) =~= word);
        assert(words(word) =~= seq![word]);
    } else {
        assert(words(front) =~= Seq::<Seq<char>>::empty());
        assert(seq![word.last()] =~= word);
        assert(words(word) =~= seq![word]);
    }
}

/// White space alone holds no words.
pub proof fn white_space_holds_no_words(s: Seq<char>)
    requires
        text::blank(s),
    ensures
        words(s).len() == 0,
    decreases s.len(),
{
    if s.len() > 0 {
        assert(text::is_white(s[s.len() - 1]));
        assert forall|i: int| 0 <= i < s.drop_last().len() implies text::is_white(
            #[trigger] s.drop_last()[i],
        ) by {
            assert(s.drop_last()[i] == s[i]);
        }
        white_space_holds_no_words(s.drop_last());
    }
}

/// The editor that the user named is run, with the arguments they gave; without one,
/// `nano` where it is there, and else `vi`.
pub proof fn editors_are_the_users_choice(
    program: &str,
    blank: &str,
    nano: bool,
    chosen: Vec<String>,
    usual: Vec<String>,
    empty: Vec<String>,
)
    requires
        program@.len() > 0,
        forall|i: int| 0 <= i < program@.len() ==> !text::is_white(#[trigger] program@[i]),
        text::blank(blank@),
        call_ensures(pick_editor_argv, (Some(program), nano), chosen),
        call_ensures(pick_editor_argv, (None::<&str>, nano), usual),
        call_ensures(pick_editor_argv, (Some(blank), nano), empty),
    ensures
        text::texts(chosen@) == seq![program@],
        text::texts(usual@) == seq![
            if nano {
                "nano"@
            } else {
                "vi"@
            },
        ],
        text::texts(empty@) == text::texts(usual@),
{
    a_word_is_a_word(program@);
    white_space_holds_no_words(blank@);
}

/// The words of the editor's setting are all handed on.
pub proof fn editors_get_their_arguments(setting: &str, nano: bool, r: Vec<String>)
    requires
        call_ensures(pick_editor_argv, (Some(setting), nano), r),
        words(setting@).len() > 0,
    ensures
        text::texts(r@) == words(setting@),
{
}

/// A list is refused exactly for a text that is no TOML, and is else that of the
/// array, in order.
pub proof fn lists_are_of_the_array(
    existing: &str,
    r: Result<Vec<(String, String)>, EditError>,
    none: Result<Vec<(String, String)>, EditError>,
)
    requires
        call_ensures(list, (Some(existing),), r),
        call_ensures(list, (None::<&str>,), none),
    ensures
        r is Ok <==> toml_doc::toml_reading(existing@) is Ok,
        r matches Err(e) ==> toml_doc::toml_reading(existing@) == Err::<Contents, Seq<char>>(
            e.text(),
        ),
        r matches Ok(pairs) ==> pairs_view(pairs@) == entries(
            match toml_doc::array_at(
                toml_doc::toml_reading(existing@)->Ok_0.sections,
                "postprocess"@,
                "replacements"@,
            ) {
                Some(slots) => slots,
                None => Seq::empty(),
            },
        ),
        none matches Ok(pairs) && pairs@.len() == 0,
{
}

/// The text to start a new file with lists nothing, and holds the array to add to.
pub proof fn new_files_start_empty(
    text: String,
    file: &str,
    r: Result<Vec<(String, String)>, EditError>,
)
    requires
        call_ensures(starter_text, (), text),
        file@ == text@,
        call_ensures(list, (Some(file),), r),
    ensures
        r matches Ok(pairs) && pairs@.len() == 0,
        toml_doc::toml_reading(text@) matches Ok(now) && toml_doc::array_at(
            now.sections,
            "postprocess"@,
            "replacements"@,
        ) == Some(Seq::<Slot>::empty()),
{
    let now = toml_doc::toml_reading(text@)->Ok_0;
    let empty = toml_doc::nothing();
    assert(toml_doc::array_at(now.sections, "postprocess"@, "replacements"@) == Some(
        Seq::<Slot>::empty(),
    ));
    assert(pairs_view(r->Ok_0@).len() == r->Ok_0@.len());
}

/// The message of an error is its text, and two errors with the same text give the
/// same message.
pub proof fn messages_are_their_text(a: EditError, b: EditError, one: String, other: String)
    requires
        call_ensures(EditError::message, (&a,), one),
        call_ensures(EditError::message, (&b,), other),
    ensures
        one@ == a.text(),
        a.text() == b.text() <==> one@ == other@,
{
}

} // verus!
