//! The choice of the input device in the configuration file.

use vstd::prelude::*;

use crate::replace::EditError;
use crate::text;
use crate::toml_doc;
use crate::toml_doc::{ConfigDocument, Contents, Field, Placing, Section, SectionKind};

verus! {

/// Whether the entry `audio` is there and is something else than a table.
pub open spec fn is_blocked(sections: Map<Seq<char>, Section>) -> bool {
    sections.contains_key("audio"@) && sections["audio"@] is Other
}

/// The device that the file names, if it names one.
pub open spec fn device_in(sections: Map<Seq<char>, Section>) -> Option<Seq<char>> {
    toml_doc::text_at(sections, "audio"@, "device"@)
}

/// The fields of the section; none where it is not there.
pub open spec fn audio_fields(sections: Map<Seq<char>, Section>) -> Map<Seq<char>, Field> {
    match toml_doc::table_at(sections, "audio"@) {
        Some(fields) => fields,
        None => Map::empty(),
    }
}

/// The sections after the device was set, or cleared. A section that is left
/// without fields goes too.
pub open spec fn sections_with(
    sections: Map<Seq<char>, Section>,
    name: Option<Seq<char>>,
) -> Map<Seq<char>, Section> {
    match name {
        Some(name) => sections.insert(
            "audio"@,
            Section::Table(audio_fields(sections).insert("device"@, Field::Text(name))),
        ),
        None => if toml_doc::table_at(sections, "audio"@) is None {
            sections
        } else if audio_fields(sections).remove("device"@) == toml_doc::no_fields() {
            sections.remove("audio"@)
        } else {
            sections.insert("audio"@, Section::Table(audio_fields(sections).remove("device"@)))
        },
    }
}

/// Where the device is written.
pub open spec fn placing_of(c: Contents) -> Placing {
    toml_doc::placing_of(c, "audio"@, "device"@)
}

/// The contents after the device was set, written at the given place, or cleared.
/// What is written beside the old name stays beside the new one.
pub open spec fn with_device(c: Contents, name: Option<Seq<char>>, placing: Placing) -> Contents {
    match name {
        Some(name) => toml_doc::field_put(c, "audio"@, "device"@, Field::Text(name), placing),
        None => if toml_doc::table_at(c.sections, "audio"@) is None {
            c
        } else if audio_fields(c.sections).remove("device"@) == toml_doc::no_fields() {
            toml_doc::section_removed(c, "audio"@, "device"@, placing.order)
        } else {
            toml_doc::field_removed(c, "audio"@, "device"@, placing.order)
        },
    }
}

/// Whether the device is written where it should be after it was set, or the rest
/// is after it was cleared.
pub open spec fn is_placed(c: Contents, name: Option<Seq<char>>, placing: Placing) -> bool {
    match name {
        Some(_) => toml_doc::is_placed(c, "audio"@, "device"@, placing),
        None => if toml_doc::table_at(c.sections, "audio"@) is None {
            placing.order == c.order
        } else if audio_fields(c.sections).remove("device"@) == toml_doc::no_fields() {
            placing.order == toml_doc::without(c.order, "audio"@)
        } else {
            toml_doc::is_order_after_removal(c, "audio"@, "device"@, placing.order)
        },
    }
}

/// Whether `now` is what is read back of the contents `c` with the device set or
/// cleared.
pub open spec fn is_set(c: Contents, now: Contents, name: Option<Seq<char>>) -> bool {
    &&& toml_doc::is_read_back(now, with_device(c, name, placing_of(now)))
    &&& is_placed(c, name, placing_of(now))
}

/// Whether a device name can be written to the file.
pub open spec fn is_name(name: Option<Seq<char>>) -> bool {
    name matches Some(n) ==> toml_doc::is_writable(n)
}

/// Set the device in a document, or clear it.
pub fn apply_set_device(doc: &mut ConfigDocument, name: Option<&str>) -> (r: Result<(), EditError>)
    requires
        is_name(text::seen(name)),
    ensures
        if name is Some && is_blocked(old(doc).sections()) {
            &&& r matches Err(EditError::NotATable { section }) && section@ == "audio"@
            &&& *final(doc) == *old(doc)
        } else {
            &&& r is Ok
            &&& final(doc).contents() == with_device(
                old(doc).contents(),
                text::seen(name),
                placing_of(final(doc).contents()),
            )
            &&& old(doc).is_settled() ==> is_set(
                old(doc).contents(),
                final(doc).contents(),
                text::seen(name),
            )
        },
{
    let ghost before = doc.contents();
    let kind = doc.kind("audio");
    match name {
        Some(name) => match kind {
            SectionKind::Other => Err(EditError::NotATable { section: "audio".to_owned() }),
            SectionKind::Absent => {
                doc.add_section("audio");
                let ghost middle = doc.contents();
                doc.set_text("audio", "device", name);
                proof {
                    toml_doc::put_in_new_section(
                        before,
                        middle,
                        doc.contents(),
                        "audio"@,
                        "device"@,
                        Field::Text(name@),
                    );
                }
                Ok(())
            },
            SectionKind::Table => {
                doc.set_text("audio", "device", name);
                Ok(())
            },
        },
        None => {
            match kind {
                SectionKind::Table => {
                    doc.clear("audio", "device");
                },
                _ => {},
            }
            Ok(())
        },
    }
}

/// The device that a document names. Anything but a string counts as none.
pub fn read_device(doc: &ConfigDocument) -> (r: Option<String>)
    ensures
        text::held(r) == device_in(doc.sections()),
{
    doc.text("audio", "device")
}

/// What the file holds: what its text reads as, or nothing for a file that does
/// not exist yet.
pub open spec fn contents(existing: Option<Seq<char>>) -> Result<Contents, Seq<char>> {
    match existing {
        Some(text) => toml_doc::toml_reading(text),
        None => Ok(toml_doc::nothing()),
    }
}

/// The document for a file: its text parsed, or an empty one for a file that
/// does not exist yet.
pub fn load_or_new(existing: Option<&str>) -> (r: Result<ConfigDocument, EditError>)
    ensures
        match contents(text::seen(existing)) {
            Ok(held) => r matches Ok(doc) && doc.contents() == held && doc.is_settled(),
            Err(why) => r matches Err(EditError::Malformed { detail }) && detail@ == why,
        },
{
    match existing {
        Some(text) => match ConfigDocument::parse(text) {
            Ok(doc) => Ok(doc),
            Err(detail) => Err(EditError::Malformed { detail }),
        },
        None => Ok(ConfigDocument::new()),
    }
}

/// Set the device in the file with the given text, or clear it: the file's new
/// text. A cleared device means that the system's default is used.
pub fn set_device(existing: Option<&str>, name: Option<&str>) -> (r: Result<String, EditError>)
    requires
        is_name(text::seen(name)),
    ensures
        match contents(text::seen(existing)) {
            Err(why) => r matches Err(EditError::Malformed { detail }) && detail@ == why,
            Ok(held) => if name is Some && is_blocked(held.sections) {
                r matches Err(EditError::NotATable { section }) && section@ == "audio"@
            } else {
                r matches Ok(text) && toml_doc::toml_reading(text@) matches Ok(now) && is_set(
                    held,
                    now,
                    text::seen(name),
                )
            },
        },
{
    let mut doc = match load_or_new(existing) {
        Ok(doc) => doc,
        Err(e) => {
            return Err(e);
        },
    };
    match apply_set_device(&mut doc, name) {
        Ok(_) => Ok(doc.to_text()),
        Err(e) => Err(e),
    }
}

/// The device that the file with the given text names, if it names one.
pub fn current_device(existing: Option<&str>) -> (r: Result<Option<String>, EditError>)
    ensures
        match contents(text::seen(existing)) {
            Err(why) => r matches Err(EditError::Malformed { detail }) && detail@ == why,
            Ok(held) => r matches Ok(name) && text::held(name) == device_in(held.sections),
        },
{
    match load_or_new(existing) {
        Ok(doc) => Ok(read_device(&doc)),
        Err(e) => Err(e),
    }
}

// ---------------------------------------------------------------------------
// Laws
// ---------------------------------------------------------------------------

/// The entries after the device was set or cleared.
proof fn edited_sections(c: Contents, name: Option<Seq<char>>, placing: Placing)
    requires
        name is Some ==> !is_blocked(c.sections),
    ensures
        with_device(c, name, placing).sections == sections_with(c.sections, name),
{
    assert(with_device(c, name, placing).sections =~= sections_with(c.sections, name));
}

/// The device that was set is the device that is read; after it was cleared,
/// none is.
pub proof fn set_device_is_read(sections: Map<Seq<char>, Section>, name: Option<Seq<char>>)
    ensures
        device_in(sections_with(sections, name)) == name,
{
}

/// The device that was written to a file is the device that is read from it.
pub proof fn device_is_read_back(c: Contents, now: Contents, name: Option<Seq<char>>)
    requires
        name is Some ==> !is_blocked(c.sections),
        is_set(c, now, name),
    ensures
        device_in(now.sections) == name,
{
    edited_sections(c, name, placing_of(now));
    set_device_is_read(c.sections, name);
}

/// Setting or clearing the device leaves what every other section, and every
/// other field of its own section, holds alone.
pub proof fn device_touches_nothing_else(
    sections: Map<Seq<char>, Section>,
    name: Option<Seq<char>>,
    section: Seq<char>,
    key: Seq<char>,
)
    ensures
        section != "audio"@ ==> sections_with(sections, name).contains_key(section)
            == sections.contains_key(section) && sections_with(sections, name)[section]
            == sections[section],
        key != "device"@ ==> audio_fields(sections_with(sections, name)).contains_key(key)
            == audio_fields(sections).contains_key(key) && (audio_fields(sections).contains_key(key)
            ==> audio_fields(sections_with(sections, name))[key] == audio_fields(sections)[key]),
{
    let rest = audio_fields(sections).remove("device"@);
    if name is None && toml_doc::table_at(sections, "audio"@) is Some && rest
        == toml_doc::no_fields() && key != "device"@ {
        assert(rest.contains_key(key) == audio_fields(sections).contains_key(key));
    }
}

/// Setting the device leaves the rest of the file alone: what every other section
/// and field holds, all comments but those between the brackets of something that
/// was no string, the blank lines and white space above everything, what is
/// written beside the name, and the order of everything.
pub proof fn setting_keeps_the_file(c: Contents, now: Contents, name: Seq<char>)
    requires
        !is_blocked(c.sections),
        is_set(c, now, Some(name)),
    ensures
        toml_doc::same_elsewhere(c, now, "audio"@, "device"@),
        now.comments == c.comments.sub(toml_doc::notes_at(c, c.within, ("audio"@, "device"@))),
        !audio_fields(c.sections).contains_key("device"@) ==> now.comments == c.comments,
        now.beside[("audio"@, "device"@)] == toml_doc::notes_at(
            c,
            c.beside,
            ("audio"@, "device"@),
        ),
        toml_doc::sides_at(now, ("audio"@, "device"@)) == toml_doc::sides_at(
            c,
            ("audio"@, "device"@),
        ),
        toml_doc::is_above_after_set(
            c,
            ("audio"@, "device"@),
            now.above[("audio"@, "device"@)],
        ),
        audio_fields(c.sections).contains_key("device"@) && toml_doc::lines_at(
            c,
            "audio"@,
        ).contains("device"@) ==> now.order == c.order && toml_doc::lines_at(now, "audio"@)
            == toml_doc::lines_at(c, "audio"@),
{
    edited_sections(c, Some(name), placing_of(now));
    keeps_elsewhere(c, now, Some(name));
    assert(c.comments.sub(toml_doc::Notes::empty()) =~= c.comments);
}

/// Clearing the device leaves the rest of the file alone. The field goes with its
/// own comments; a section that it was the only field of goes too, with the
/// comments of its header.
pub proof fn clearing_keeps_the_file(c: Contents, now: Contents)
    requires
        is_set(c, now, None),
    ensures
        toml_doc::same_elsewhere(c, now, "audio"@, "device"@),
        toml_doc::field_at(now.sections, "audio"@, "device"@) is None,
        toml_doc::table_at(c.sections, "audio"@) is None ==> toml_doc::is_read_back(now, c),
        toml_doc::table_at(c.sections, "audio"@) is Some ==> {
            let place = ("audio"@, "device"@);
            let alone = audio_fields(c.sections).remove("device"@) == toml_doc::no_fields();
            let own = toml_doc::notes_at(c, c.beside, place).add(
                toml_doc::notes_at(c, c.within, place),
            );
            &&& now.sections.contains_key("audio"@) == !alone
            &&& now.comments == if alone {
                c.comments.sub(c.headers["audio"@].add(own))
            } else {
                c.comments.sub(own)
            }
        },
{
    edited_sections(c, None, placing_of(now));
    keeps_elsewhere(c, now, None);
    if toml_doc::table_at(c.sections, "audio"@) is Some {
        let place = ("audio"@, "device"@);
        let beside = toml_doc::notes_at(c, c.beside, place);
        let within = toml_doc::notes_at(c, c.within, place);
        let head = c.headers["audio"@];
        assert(c.comments.sub(beside).sub(within) =~= c.comments.sub(beside.add(within)));
        assert(c.comments.sub(head).sub(beside).sub(within) =~= c.comments.sub(
            head.add(beside.add(within)),
        ));
    }
}

/// Setting or clearing the device changes nothing but the one field.
proof fn keeps_elsewhere(c: Contents, now: Contents, name: Option<Seq<char>>)
    requires
        name is Some ==> !is_blocked(c.sections),
        is_set(c, now, name),
    ensures
        toml_doc::same_elsewhere(c, now, "audio"@, "device"@),
{
    let place = ("audio"@, "device"@);
    edited_sections(c, name, placing_of(now));
    assert(now.sections.remove("audio"@) =~= c.sections.remove("audio"@));
    assert(now.lines.remove("audio"@) =~= c.lines.remove("audio"@));
    assert(now.headers.remove("audio"@) =~= c.headers.remove("audio"@));
    assert(now.beside.remove(place) =~= c.beside.remove(place));
    assert(now.within.remove(place) =~= c.within.remove(place));
    assert(now.sides.remove(place) =~= c.sides.remove(place));
    assert(now.above.remove(place) =~= c.above.remove(place));
    assert forall|other: (Seq<char>, Seq<char>)|
        other != place implies #[trigger] toml_doc::is_array_read_back(now, c, other) by {
        let edited = with_device(c, name, placing_of(now));
        assert(toml_doc::is_array_read_back(now, edited, other));
    }
    toml_doc::without_is_idempotent(c.lines["audio"@], "device"@);
    toml_doc::without_is_idempotent(c.order, "audio"@);
    assert forall|k: Seq<char>| k != "device"@ implies #[trigger] toml_doc::field_at(
        now.sections,
        "audio"@,
        k,
    ) == toml_doc::field_at(c.sections, "audio"@, k) by {
        device_touches_nothing_else(c.sections, name, "audio"@, k);
    }
}

/// Clearing a device that was set on a file without one restores the file: what it
/// holds, its comments, its blank lines and its order. An empty `audio` section would go, and one
/// without lines may find its header elsewhere.
pub proof fn clearing_restores_the_file(
    c: Contents,
    set: Contents,
    now: Contents,
    name: Seq<char>,
)
    requires
        toml_doc::is_consistent(c),
        !is_blocked(c.sections),
        !audio_fields(c.sections).contains_key("device"@),
        toml_doc::table_at(c.sections, "audio"@) != Some(toml_doc::no_fields()),
        is_set(c, set, Some(name)),
        is_set(set, now, None),
    ensures
        toml_doc::is_read_back(now, Contents { order: now.order, ..c }),
        toml_doc::without(now.order, "audio"@) == toml_doc::without(c.order, "audio"@),
        toml_doc::table_at(c.sections, "audio"@) is None || toml_doc::lines_at(c, "audio"@).len()
            > 0 ==> now.order == c.order,
{
    let place = ("audio"@, "device"@);
    let fields = audio_fields(c.sections);
    let lines = toml_doc::lines_at(c, "audio"@);
    edited_sections(c, Some(name), placing_of(set));
    edited_sections(set, None, placing_of(now));
    clear_undoes_set(c.sections, name);
    assert(fields.remove("device"@) =~= fields);
    assert(audio_fields(set.sections).remove("device"@) =~= fields);
    assert(!lines.contains("device"@));
    assert(set.lines["audio"@] == lines.push("device"@));
    assert(lines.push("device"@)[lines.len() as int] == "device"@);
    assert(lines.push("device"@).drop_last() == lines);
    toml_doc::without_absent(lines, "device"@);
    assert(toml_doc::without(lines.push("device"@), "device"@) == lines);
    assert(!c.beside.contains_key(place) && !c.within.contains_key(place)
        && !c.sides.contains_key(place) && !c.above.contains_key(place));
    assert(now.beside =~= c.beside);
    assert(now.within =~= c.within);
    assert(now.sides =~= c.sides);
    assert(now.above =~= c.above);
    assert(now.comments =~= c.comments);
    assert(now.lines =~= c.lines);
    assert(now.headers =~= c.headers);
    assert(now.sections =~= c.sections);
    assert(!c.slots.contains_key(place));
    let restored = Contents { order: now.order, ..c };
    assert forall|other: (Seq<char>, Seq<char>)| #[trigger]
        toml_doc::is_array_read_back(now, restored, other) by {
        let edited = with_device(c, Some(name), placing_of(set));
        let cleared = with_device(set, None, placing_of(now));
        assert(toml_doc::is_array_read_back(set, edited, other));
        assert(toml_doc::is_array_read_back(now, cleared, other));
    }
    assert(toml_doc::is_kept(c.heads, now.heads)) by {
        assert forall|s: Seq<char>| #[trigger] c.heads.contains_key(s) implies now.heads.contains_key(s)
            && now.heads[s] == c.heads[s] by {
            assert(set.heads.contains_key(s));
            let cleared = with_device(set, None, placing_of(now));
            assert(cleared.heads.contains_key(s));
        }
    }
    if toml_doc::table_at(c.sections, "audio"@) is None {
        toml_doc::without_absent(c.order, "audio"@);
    }
}

/// Clearing a device that was set on a file without one restores the file's
/// entries, but for an empty `audio` section, which goes.
pub proof fn clear_undoes_set(sections: Map<Seq<char>, Section>, name: Seq<char>)
    requires
        !is_blocked(sections),
        !audio_fields(sections).contains_key("device"@),
    ensures
        sections_with(sections_with(sections, Some(name)), None) == sections_with(sections, None),
{
    let fields = audio_fields(sections);
    let set = sections_with(sections, Some(name));
    assert(audio_fields(set).remove("device"@) =~= fields);
    assert(fields.remove("device"@) =~= fields);
    if toml_doc::table_at(sections, "audio"@) is None {
        assert(!sections.contains_key("audio"@));
        assert(set.remove("audio"@) =~= sections);
    } else if fields == toml_doc::no_fields() {
        assert(set.remove("audio"@) =~= sections.remove("audio"@));
    } else {
        assert(set.insert("audio"@, Section::Table(fields)) =~= sections.insert(
            "audio"@,
            Section::Table(fields),
        ));
    }
}

/// From end to end: the device that was set in a file is the one that is read from
/// its new text, and after it was cleared none is; it stands in the field `device` of
/// the section `audio`.
pub proof fn devices_are_written_and_read(
    existing: Option<&str>,
    name: Option<&str>,
    text: String,
    file: &str,
    r: Result<Option<String>, EditError>,
)
    requires
        is_name(text::seen(name)),
        call_ensures(set_device, (existing, name), Ok(text)),
        file@ == text@,
        call_ensures(current_device, (Some(file),), r),
    ensures
        r matches Ok(found) && text::held(found) == text::seen(name),
        toml_doc::toml_reading(text@) matches Ok(now) && toml_doc::text_at(
            now.sections,
            "audio"@,
            "device"@,
        ) == text::seen(name),
{
    let held = contents(text::seen(existing))->Ok_0;
    let now = toml_doc::toml_reading(text@)->Ok_0;
    assert(is_set(held, now, text::seen(name)));
    device_is_read_back(held, now, text::seen(name));
}

/// A file that does not exist names no device, and one is never refused; of the
/// others those are that are no TOML, and those whose `audio` is something else than a
/// table, unless the device is only cleared.
pub proof fn refusals_have_a_reason(
    existing: Option<&str>,
    name: Option<&str>,
    r: Result<String, EditError>,
    found: Result<Option<String>, EditError>,
)
    requires
        is_name(text::seen(name)),
        call_ensures(set_device, (existing, name), r),
        call_ensures(current_device, (existing,), found),
    ensures
        existing is None ==> r is Ok && (found matches Ok(None)),
        existing matches Some(text) ==> (r is Ok <==> (toml_doc::toml_reading(
            text@,
        ) matches Ok(held) && (name is None || !held.sections.contains_key("audio"@)
            || held.sections["audio"@] is Table))),
        existing matches Some(text) ==> (found is Ok <==> toml_doc::toml_reading(text@) is Ok),
        found is Ok ==> (r matches Err(e) ==> e.text() == "audio is not a table"@),
{
    reveal_strlit("audio");
    reveal_strlit(" is not a table");
    reveal_strlit("audio is not a table");
    assert("audio"@ + " is not a table"@ =~= "audio is not a table"@);
}

/// Anything but a string names no device.
pub proof fn only_strings_name_devices(
    sections: Map<Seq<char>, Section>,
    fields: Map<Seq<char>, Field>,
    name: Seq<char>,
)
    requires
        sections.contains_key("audio"@),
        sections["audio"@] == Section::Table(fields),
        fields.contains_key("device"@),
    ensures
        device_in(sections) == Some(name) <==> fields["device"@] == Field::Text(name),
        !(fields["device"@] is Text) ==> device_in(sections) is None,
{
}

} // verus!
