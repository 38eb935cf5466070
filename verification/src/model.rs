//! The calendar document as the filter sees it.

use crate::folding::{lines_pass, passes_guard};
use crate::ical::is_writable;
use crate::nesting::shallow;
use crate::framing::MAX_DEPTH;
use crate::ical::{
    is_shallow, component_name, component_properties, copy_component, deep_lines, kind_name,
    read_properties,
};
use crate::text::{eq_ignore_ascii_case, eq_ignore_case};
use vstd::prelude::*;

verus! {

/// One property of a component: its name and its value, both as they stand
/// in the decoded component. Parameters stay with the component itself.
#[derive(Clone, Debug, PartialEq, Eq)]
pub struct Property {
    pub name: String,
    pub value: String,
}

/// A property as a pair of texts.
pub struct PropertyView {
    pub name: Seq<char>,
    pub value: Seq<char>,
}

impl View for Property {
    type V = PropertyView;

    open spec fn view(&self) -> PropertyView {
        PropertyView { name: self.name@, value: self.value@ }
    }
}

/// The views of a list of properties, in order.
pub open spec fn properties_view(properties: Seq<Property>) -> Seq<PropertyView> {
    properties.map_values(|p: Property| p@)
}

/// The kinds of component that a calendar holds.
#[derive(Clone, Copy, Debug, PartialEq, Eq, Structural)]
pub enum ComponentKind {
    Event,
    Todo,
    Journal,
    FreeBusy,
    Timezone,
    Alarm,
    Other,
}

/// The kind that a component name stands for. Names are compared without
/// regard to case; a name that is none of the six known ones is `Other`.
pub open spec fn kind_of(name: Seq<char>) -> ComponentKind {
    if eq_ignore_case(name, "VEVENT"@) {
        ComponentKind::Event
    } else if eq_ignore_case(name, "VTODO"@) {
        ComponentKind::Todo
    } else if eq_ignore_case(name, "VJOURNAL"@) {
        ComponentKind::Journal
    } else if eq_ignore_case(name, "VFREEBUSY"@) {
        ComponentKind::FreeBusy
    } else if eq_ignore_case(name, "VTIMEZONE"@) {
        ComponentKind::Timezone
    } else if eq_ignore_case(name, "VALARM"@) {
        ComponentKind::Alarm
    } else {
        ComponentKind::Other
    }
}

/// Computes the kind that a component name stands for.
pub fn kind_from_name(name: &str) -> (kind: ComponentKind)
    ensures
        kind == kind_of(name@),
{
    if eq_ignore_ascii_case(name, "VEVENT") {
        ComponentKind::Event
    } else if eq_ignore_ascii_case(name, "VTODO") {
        ComponentKind::Todo
    } else if eq_ignore_ascii_case(name, "VJOURNAL") {
        ComponentKind::Journal
    } else if eq_ignore_ascii_case(name, "VFREEBUSY") {
        ComponentKind::FreeBusy
    } else if eq_ignore_ascii_case(name, "VTIMEZONE") {
        ComponentKind::Timezone
    } else if eq_ignore_ascii_case(name, "VALARM") {
        ComponentKind::Alarm
    } else {
        ComponentKind::Other
    }
}

/// One property as the serializer writes it on a line: its key, the keys
/// and values of its parameters in some order, and its value.
#[derive(Clone, Debug, PartialEq, Eq)]
pub struct Line {
    pub key: String,
    pub parameters: Vec<String>,
    pub value: String,
}

/// A line as plain values. The parameters stand as the set of their keys
/// and values and as their number, since their order is not fixed.
pub struct LineView {
    pub key: Seq<char>,
    pub parameters: Set<Seq<char>>,
    pub count: nat,
    pub value: Seq<char>,
}

impl View for Line {
    type V = LineView;

    open spec fn view(&self) -> LineView {
        LineView {
            key: self.key@,
            parameters: Set::new(
                |t: Seq<char>|
                    exists|k: int|
                        0 <= k < self.parameters@.len() && (#[trigger] self.parameters@[k])@ == t,
            ),
            count: (self.parameters@.len() / 2) as nat,
            value: self.value@,
        }
    }
}

/// What a component is to the library: its kind, its name and its
/// properties, which the filter reads; the lines of its properties and of
/// those of every component nested in it, which the serializer writes; and
/// whether it is nested no deeper than `MAX_DEPTH`.
pub struct ComponentView {
    pub kind: ComponentKind,
    pub name: Seq<char>,
    pub properties: Seq<PropertyView>,
    pub lines: Set<LineView>,
    pub shallow: bool,
}

/// What the decoded component `source` is to the library.
pub open spec fn view_of_source(source: icalendar::CalendarComponent) -> ComponentView {
    ComponentView {
        kind: kind_of(component_name(source)),
        name: component_name(source),
        properties: component_properties(source),
        lines: deep_lines(source),
        shallow: is_shallow(source),
    }
}

/// One top-level component of a calendar: the decoded component, kept whole,
/// beside its kind, name and properties as plain values.
///
/// The plain values always agree with the decoded component, every line of
/// it passes the guard that stands before the serializer, and it is not
/// nested deeper than `MAX_DEPTH`. So every document can be written.
#[derive(Debug, PartialEq, Eq)]
pub struct DocumentComponent {
    kind: ComponentKind,
    name: String,
    properties: Vec<Property>,
    source: icalendar::CalendarComponent,
}

impl View for DocumentComponent {
    type V = ComponentView;

    closed spec fn view(&self) -> ComponentView {
        ComponentView {
            kind: self.kind,
            name: self.name@,
            properties: properties_view(self.properties@),
            lines: deep_lines(self.source),
            shallow: is_shallow(self.source),
        }
    }
}

impl DocumentComponent {
    #[verifier::type_invariant]
    spec fn agrees_with_source(self) -> bool {
        &&& self@ == view_of_source(self.source)
        &&& is_shallow(self.source)
        &&& lines_pass(deep_lines(self.source))
    }

    /// The decoded component that this value holds.
    pub closed spec fn source_view(self) -> icalendar::CalendarComponent {
        self.source
    }

    /// Takes a decoded component into the library, if it can be written
    /// again: if it is nested no deeper than `MAX_DEPTH`, and every line of
    /// it passes the guard that stands before the serializer (see
    /// `line_passes`). Reads its kind, its name and its properties.
    pub fn try_new(source: icalendar::CalendarComponent) -> (made: Option<DocumentComponent>)
        ensures
            match made {
                Some(component) => is_writable(view_of_source(source)) && component.source_view()
                    == source && component@ == view_of_source(source),
                None => !is_writable(view_of_source(source)),
            },
    {
        if !shallow(&source) {
            return None;
        }
        if !passes_guard(&source) {
            return None;
        }
        let name = kind_name(&source);
        let kind = kind_from_name(name.as_str());
        let properties = read_properties(&source);
        Some(DocumentComponent { kind, name, properties, source })
    }

    /// Takes a decoded component into the library. It has to be one that can
    /// be written again, which `try_new` tests: every line of it passes the
    /// guard, and it is not nested deeper than `MAX_DEPTH`.
    pub fn new(source: icalendar::CalendarComponent) -> (component: DocumentComponent)
        requires
            is_shallow(source),
            lines_pass(deep_lines(source)),
        ensures
            component.source_view() == source,
            component@ == view_of_source(source),
    {
        let name = kind_name(&source);
        let kind = kind_from_name(name.as_str());
        let properties = read_properties(&source);
        DocumentComponent { kind, name, properties, source }
    }

    /// The kind of the component.
    pub fn kind(&self) -> (kind: ComponentKind)
        ensures
            kind == self@.kind,
    {
        self.kind
    }

    /// The name on the component's `BEGIN` and `END` lines.
    pub fn name(&self) -> (name: &str)
        ensures
            name@ == self@.name,
    {
        self.name.as_str()
    }

    /// The properties of the component.
    pub fn properties(&self) -> (properties: &Vec<Property>)
        ensures
            properties_view(properties@) == self@.properties,
    {
        &self.properties
    }

    /// The decoded component.
    pub fn source(&self) -> (source: &icalendar::CalendarComponent)
        ensures
            *source == self.source_view(),
            view_of_source(*source) == self@,
            is_shallow(*source),
            lines_pass(deep_lines(*source)),
    {
        proof {
            use_type_invariant(self);
        }
        &self.source
    }

    /// Gives the decoded component back.
    pub fn into_source(self) -> (source: icalendar::CalendarComponent)
        ensures
            source == self.source_view(),
            view_of_source(source) == self@,
            is_shallow(source),
            lines_pass(deep_lines(source)),
    {
        proof {
            use_type_invariant(&self);
        }
        self.source
    }
}

impl Clone for DocumentComponent {
    /// A copy reads its plain values anew from a copy of the decoded
    /// component.
    fn clone(&self) -> (copy: DocumentComponent)
        ensures
            copy@ == self@,
    {
        proof {
            use_type_invariant(self);
        }
        DocumentComponent::new(copy_component(&self.source))
    }
}

/// A calendar document: its top-level components, in order.
#[derive(Clone, Debug, PartialEq, Eq)]
pub struct CalendarDocument {
    pub components: Vec<DocumentComponent>,
}

impl View for CalendarDocument {
    type V = Seq<DocumentComponent>;

    open spec fn view(&self) -> Seq<DocumentComponent> {
        self.components@
    }
}

/// The views of a list of components, in order.
pub open spec fn components_view(components: Seq<DocumentComponent>) -> Seq<ComponentView> {
    components.map_values(|c: DocumentComponent| c@)
}

/// The decoded components that a list of document components holds.
pub open spec fn sources_of(components: Seq<DocumentComponent>) -> Seq<
    icalendar::CalendarComponent,
> {
    components.map_values(|c: DocumentComponent| c.source_view())
}

/// Whether an event blocks time.
#[derive(Clone, Copy, Debug, PartialEq, Eq, Structural)]
pub enum TransparencyStatus {
    /// The event says that it blocks time, or says something that cannot be
    /// read as "transparent".
    Opaque,
    /// The event says that it does not block time.
    Transparent,
    /// The event says nothing; it is treated as blocking time.
    Unknown,
}

} // verus!
