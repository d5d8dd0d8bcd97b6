//! The text layout of device information: sections of named properties,
//! either one property to a line or all of them between braces.

use vstd::prelude::*;

verus! {

/// One property of a report: its name and its value as text.
#[derive(Debug)]
pub struct InfoField {
    /// The name of the property.
    pub name: String,
    /// The value of the property as text.
    pub value: String,
}

/// Why a property has no value to show.
#[derive(Debug)]
pub enum InfoFailure {
    /// The device keeps no such information.
    NotAvailable,
    /// The query failed; the text says how.
    Other(String),
}

/// What opens the list of properties of a section.
pub open spec fn begin_mark(multiline: bool) -> Seq<char> {
    if multiline {
        "\n"@
    } else {
        "{ "@
    }
}

/// What stands between two properties of a section.
pub open spec fn delim_mark(multiline: bool) -> Seq<char> {
    if multiline {
        "\n"@
    } else {
        ", "@
    }
}

/// What closes the list of properties of a section.
pub open spec fn end_mark(multiline: bool) -> Seq<char> {
    if multiline {
        "\n"@
    } else {
        " }"@
    }
}

/// One property as text: the name, a colon and a space, the value.
pub open spec fn field_text(field: InfoField) -> Seq<char> {
    field.name@ + ": "@ + field.value@
}

/// The properties as text, with `delim` between each two of them.
pub open spec fn joined(fields: Seq<InfoField>, delim: Seq<char>) -> Seq<char>
    decreases fields.len(),
{
    if fields.len() == 0 {
        Seq::empty()
    } else if fields.len() == 1 {
        field_text(fields[0])
    } else {
        joined(fields.drop_last(), delim) + delim + field_text(fields.last())
    }
}

/// A section as text: the heading, then the properties between the marks of
/// the layout. The multi-line layout puts every property on a line of its
/// own; the compact layout puts all of them between braces on one line.
pub open spec fn section_text(heading: Seq<char>, fields: Seq<InfoField>, multiline: bool) -> Seq<
    char,
> {
    heading + begin_mark(multiline) + joined(fields, delim_mark(multiline)) + end_mark(multiline)
}

/// The text shown for a property: its value, or `Not available` where the
/// device keeps none, or what the failed query said.
pub open spec fn info_view(info: Result<String, InfoFailure>) -> Seq<char> {
    match info {
        Ok(text) => text@,
        Err(InfoFailure::NotAvailable) => "Not available"@,
        Err(InfoFailure::Other(message)) => message@,
    }
}

/// The text shown for a property.
pub fn info_text(info: Result<String, InfoFailure>) -> (s: String)
    ensures
        s@ == info_view(info),
{
    match info {
        Ok(text) => text,
        Err(InfoFailure::NotAvailable) => String::from_str("Not available"),
        Err(InfoFailure::Other(message)) => message,
    }
}

/// Lays a section out as text.
pub fn render_section(heading: &str, fields: &Vec<InfoField>, multiline: bool) -> (s: String)
    ensures
        s@ == section_text(heading@, fields@, multiline),
{
    let begin = if multiline { "\n" } else { "{ " };
    let delim = if multiline { "\n" } else { ", " };
    let end = if multiline { "\n" } else { " }" };
    let mut out = String::from_str(heading).concat(begin);
    let mut i: usize = 0;
    while i < fields.len()
        invariant
            i <= fields@.len(),
            delim@ == delim_mark(multiline),
            out@ == heading@ + begin_mark(multiline) + joined(
                fields@.take(i as int),
                delim_mark(multiline),
            ),
        decreases fields@.len() - i,
    {
        let ghost before = fields@.take(i as int);
        let ghost after = fields@.take(i + 1);
        let ghost head = heading@ + begin_mark(multiline);
        proof {
            assert(after.drop_last() == before);
            assert(after.last() == fields@[i as int]);
        }
        if i > 0 {
            out = out.concat(delim);
        }
        out = out.concat(fields[i].name.as_str());
        out = out.concat(": ");
        out = out.concat(fields[i].value.as_str());
        proof {
            let text = field_text(fields@[i as int]);
            if i == 0 {
                assert(joined(before, delim@) == Seq::<char>::empty());
                assert(joined(after, delim@) == text);
                assert(out@ == head + joined(after, delim@));
            } else {
                assert(joined(after, delim@) == joined(before, delim@) + delim@ + text);
                assert(out@ == head + joined(after, delim@));
            }
        }
        i = i + 1;
    }
    assert(fields@.take(i as int) == fields@);
    out.concat(end)
}

} // verus!
