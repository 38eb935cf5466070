//! The document serializer: from a document to a calendar text.

use crate::ical::{
    calendar_components, calendar_sources, calendar_text, copy_component, has_calendar_frame,
    has_default_header, is_writable, new_calendar, push_component, views_of_sources,
};
use crate::model::{CalendarDocument, components_view, sources_of};
use vstd::prelude::*;

verus! {

/// Builds the calendar that is written for a document: the default header,
/// and a copy of each component of the document, in order.
pub fn build_calendar(doc: &CalendarDocument) -> (calendar: icalendar::Calendar)
    ensures
        has_default_header(calendar),
        calendar_sources(calendar) == sources_of(doc@),
        calendar_components(calendar) == components_view(doc@),
        forall|i: int|
            0 <= i < doc@.len() ==> is_writable(#[trigger] components_view(doc@)[i]),
{
    let mut calendar = new_calendar();
    let mut i: usize = 0;
    while i < doc.components.len()
        invariant
            i <= doc.components.len(),
            has_default_header(calendar),
            calendar_sources(calendar) == sources_of(doc@.take(i as int)),
            calendar_components(calendar) == components_view(doc@.take(i as int)),
            forall|j: int| 0 <= j < i ==> is_writable(#[trigger] components_view(doc@)[j]),
        decreases doc.components.len() - i,
    {
        let copy = copy_component(doc.components[i].source());
        push_component(&mut calendar, copy);
        proof {
            assert(doc@.take(i + 1) == doc@.take(i as int).push(doc@[i as int]));
            assert(components_view(doc@.take(i + 1)) =~= components_view(
                doc@.take(i as int),
            ).push(doc@[i as int]@));
            assert(sources_of(doc@.take(i + 1)) =~= sources_of(doc@.take(i as int)).push(
                doc@[i as int].source_view(),
            ));
            assert(views_of_sources(calendar_sources(calendar)) =~= views_of_sources(
                sources_of(doc@.take(i as int)),
            ).push(doc@[i as int]@));
        }
        i += 1;
    }
    assert(doc@.take(i as int) == doc@);
    calendar
}

/// Encodes a document as a calendar text. There is no document for which
/// this fails.
///
/// The text is that of a calendar with the default header that holds the
/// components of the document in their order: the header, one block for
/// each component between the `BEGIN` and `END` lines of its name, and the
/// footer. For a document without components it is the header and the
/// footer alone.
pub fn serialize_document(doc: &CalendarDocument) -> (text: String)
    ensures
        has_calendar_frame(text@, components_view(doc@)),
{
    let calendar = build_calendar(doc);
    calendar_text(&calendar)
}

} // verus!
