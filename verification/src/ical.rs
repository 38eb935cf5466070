//! The calls into the `icalendar` crate, and what is taken on trust of them.
//!
//! Nothing in this file is proved. Each item says which function of
//! `icalendar` it stands for and what it claims of it.

use crate::folding::lines_pass;
use crate::framing::{MAX_DEPTH, framing};
use crate::model::{
    ComponentView, Line, LineView, Property, PropertyView, properties_view, view_of_source,
};
use icalendar::CalendarComponent::{Event, Other, Todo, Venue};
use icalendar::Component;
use std::str::FromStr;
use vstd::prelude::*;
use vstd::utf8::encode_utf8;

verus! {

/// `icalendar::Calendar`: a list of calendar-level properties and a list of
/// components. Nothing inside it is visible to the verifier.
#[verifier::external_type_specification]
#[verifier::external_body]
pub struct ExCalendar(icalendar::Calendar);

/// `icalendar::CalendarComponent`: one component of a calendar. Nothing
/// inside it is visible to the verifier.
#[verifier::external_type_specification]
#[verifier::external_body]
pub struct ExCalendarComponent(icalendar::CalendarComponent);

/// The name of a component: what `Component::component_kind` returns for it
/// and what stands on its `BEGIN` and `END` lines.
pub uninterp spec fn component_name(c: icalendar::CalendarComponent) -> Seq<char>;

/// The properties of a component as pairs of key and value: first those of
/// `Component::properties`, then those of `Component::multi_properties`,
/// each in the order in which the map hands them out.
pub uninterp spec fn component_properties(c: icalendar::CalendarComponent) -> Seq<PropertyView>;

/// The lines of the properties that stand directly in a component: for
/// each property its key, the keys and values of its parameters as a set,
/// the number of its parameters, and its value.
pub uninterp spec fn own_lines(c: icalendar::CalendarComponent) -> Set<LineView>;

/// The lines of a component and of every component nested in it, at any
/// depth.
pub uninterp spec fn deep_lines(c: icalendar::CalendarComponent) -> Set<LineView>;

/// The number of components that stand directly in the component that
/// `path` leads to. A path leads from `c` to a component nested in it: each
/// entry of it picks one of the components that stand directly in the one
/// before, by its place. The empty path leads to `c` itself.
pub uninterp spec fn count_at(c: icalendar::CalendarComponent, path: Seq<usize>) -> nat;

/// `path` leads to a component: each entry of it is a place in the
/// component that the entries before it lead to.
pub open spec fn is_path(c: icalendar::CalendarComponent, path: Seq<usize>) -> bool {
    forall|k: int| 0 <= k < path.len() ==> path[k] < count_at(c, #[trigger] path.take(k))
}

/// No component is nested in `c` deeper than `MAX_DEPTH`, `c` itself
/// counted: every path is shorter than that.
pub open spec fn is_shallow(c: icalendar::CalendarComponent) -> bool {
    forall|path: Seq<usize>| #[trigger] is_path(c, path) ==> path.len() < MAX_DEPTH
}

/// The number of components in a component: itself, and those nested in it
/// at any depth.
pub uninterp spec fn component_size(c: icalendar::CalendarComponent) -> nat;

/// The number of components in a list of components.
pub open spec fn total_size(components: Seq<icalendar::CalendarComponent>) -> nat
    decreases components.len(),
{
    if components.len() == 0 {
        0
    } else {
        total_size(components.drop_last()) + component_size(components.last())
    }
}

/// The components that a calendar holds, in order.
pub uninterp spec fn calendar_sources(cal: icalendar::Calendar) -> Seq<
    icalendar::CalendarComponent,
>;

/// The views of the components that a calendar holds, in order.
pub open spec fn calendar_components(cal: icalendar::Calendar) -> Seq<ComponentView> {
    views_of_sources(calendar_sources(cal))
}

/// Whether the calendar-level properties are exactly those that
/// `Calendar::new` sets: `VERSION:2.0`, `PRODID:ICALENDAR-RS` and
/// `CALSCALE:GREGORIAN`, in this order and without parameters.
pub uninterp spec fn has_default_header(cal: icalendar::Calendar) -> bool;

/// What `parser::unfold` makes of a text, as UTF-8 bytes.
pub uninterp spec fn unfolded(text: Seq<char>) -> Seq<u8>;

/// What `Calendar::from_str` makes of a text: the components of the calendar
/// that it returns, or its error message.
pub uninterp spec fn decoded(text: Seq<char>) -> Result<Seq<ComponentView>, Seq<char>>;

/// The views of a list of decoded components, in order.
pub open spec fn views_of_sources(sources: Seq<icalendar::CalendarComponent>) -> Seq<ComponentView> {
    sources.map_values(|c: icalendar::CalendarComponent| view_of_source(c))
}

/// The first lines of every calendar that starts from `Calendar::new`.
pub open spec fn calendar_header() -> Seq<char> {
    "BEGIN:VCALENDAR\r\nVERSION:2.0\r\nPRODID:ICALENDAR-RS\r\nCALSCALE:GREGORIAN\r\n"@
}

/// The last line of every calendar.
pub open spec fn calendar_footer() -> Seq<char> {
    "END:VCALENDAR\r\n"@
}

/// `block` starts with the `BEGIN` line and ends with the `END` line of a
/// component called `name`.
pub open spec fn has_block_frame(block: Seq<char>, name: Seq<char>) -> bool {
    &&& ("BEGIN:"@ + name + "\r\n"@).is_prefix_of(block)
    &&& ("END:"@ + name + "\r\n"@).is_suffix_of(block)
}

/// A line that is written as it stands: it has no parameters, its value
/// holds no character that the encoder escapes (backslash, comma,
/// semicolon, line feed), and key, colon and value are no more than 75
/// bytes, so that it is not folded.
pub open spec fn is_simple_line(l: LineView) -> bool {
    &&& l.count == 0
    &&& encode_utf8(l.key).len() + 1 + encode_utf8(l.value).len() <= 75
    &&& forall|i: int|
        0 <= i < l.value.len() ==> (#[trigger] l.value[i]) != '\\' && l.value[i] != ','
            && l.value[i] != ';' && l.value[i] != '\n'
}

/// A simple line as it is written, with the line end before it.
pub open spec fn simple_line_text(l: LineView) -> Seq<char> {
    "\r\n"@ + l.key + ":"@ + l.value + "\r\n"@
}

/// `part` stands somewhere in `whole`.
pub open spec fn holds(whole: Seq<char>, part: Seq<char>) -> bool {
    exists|before: Seq<char>, after: Seq<char>| whole == before + part + after
}

/// `block` is framed as a component called as `c` is, and holds each
/// simple line of `c` and of the components nested in it.
pub open spec fn is_block_of(block: Seq<char>, c: ComponentView) -> bool {
    &&& has_block_frame(block, c.name)
    &&& forall|l: LineView|
        c.lines.contains(l) && is_simple_line(l) ==> holds(block, #[trigger] simple_line_text(l))
}

/// `text` has the frame of a calendar of these components: it is the
/// header, then one block for each of them in order, then the footer. Each
/// block starts with the `BEGIN` line and ends with the `END` line of its
/// component, and holds the simple lines of the component. What else
/// stands in a block is left open.
pub open spec fn has_calendar_frame(text: Seq<char>, components: Seq<ComponentView>) -> bool {
    exists|blocks: Seq<Seq<char>>|
        {
            &&& blocks.len() == components.len()
            &&& forall|i: int|
                0 <= i < components.len() ==> is_block_of(#[trigger] blocks[i], components[i])
            &&& text == calendar_header() + blocks.flatten() + calendar_footer()
        }
}

/// A component that the encoder can be given: every line of it passes the
/// guard, and it is not nested deeper than `MAX_DEPTH`.
pub open spec fn is_writable(c: ComponentView) -> bool {
    lines_pass(c.lines) && c.shallow
}

/// The names of a list of components, in order.
pub open spec fn names_of(components: Seq<ComponentView>) -> Seq<Seq<char>> {
    components.map_values(|c: ComponentView| c.name)
}

/// `icalendar::parser::unfold`. Claims that its result depends on the text
/// alone.
#[verifier::external_body]
pub(crate) fn unfold_bytes(text: &str) -> (bytes: Vec<u8>)
    ensures
        bytes@ == unfolded(text@),
{
    icalendar::parser::unfold(text).into_bytes()
}

/// `Calendar::from_str`, with the calendar's `components` moved out of it.
/// Claims that whether it fails, the message it fails with, and the names
/// and properties of the components it returns depend on the text alone.
///
/// The decoder calls itself once for each component that is open, so it is
/// given well-framed texts only. In such a text it reads line by line, as
/// the frame does: every name on a `BEGIN` line is made of the bytes that
/// the decoder takes for a name; every other line inside a component is a
/// name alone, or a name, parameters whose values and quotes close on the
/// line, a colon and a value, so that no parameter runs over a line end;
/// and no line that ends with a carriage return and a line feed follows one
/// that ends with a line feed alone, so that no value runs over a line end.
/// So no more than `MAX_DEPTH` components are open at once in the decoder
/// either, and the components that it returns are nested as the text is.
#[verifier::external_body]
pub(crate) fn decode_components(text: &str) -> (r: Result<Vec<icalendar::CalendarComponent>, String>)
    requires
        framing(unfolded(text@)) is Ok,
    ensures
        r matches Ok(sources) ==> forall|i: int|
            0 <= i < sources@.len() ==> is_shallow(#[trigger] sources@[i]),
        match r {
            Ok(sources) => decoded(text@) == Ok::<Seq<ComponentView>, Seq<char>>(
                views_of_sources(sources@),
            ),
            Err(message) => decoded(text@) == Err::<Seq<ComponentView>, Seq<char>>(message@),
        },
{
    match icalendar::Calendar::from_str(text) {
        Ok(calendar) => Ok(calendar.components),
        Err(message) => Err(message),
    }
}

/// `Component::component_kind` of the component inside.
#[verifier::external_body]
pub(crate) fn kind_name(c: &icalendar::CalendarComponent) -> (name: String)
    ensures
        name@ == component_name(*c),
{
    match c {
        Event(e) => e.component_kind(),
        Todo(t) => t.component_kind(),
        Venue(v) => v.component_kind(),
        Other(o) => o.component_kind(),
        _ => String::new(),
    }
}

/// `Component::properties` and `Component::multi_properties` of the
/// component inside, each property as its `key` and `value`.
#[verifier::external_body]
pub(crate) fn read_properties(c: &icalendar::CalendarComponent) -> (properties: Vec<Property>)
    ensures
        properties_view(properties@) == component_properties(*c),
{
    let (single, multi) = match c {
        Event(e) => (e.properties(), e.multi_properties()),
        Todo(t) => (t.properties(), t.multi_properties()),
        Venue(v) => (v.properties(), v.multi_properties()),
        Other(o) => (o.properties(), o.multi_properties()),
        _ => return Vec::new(),
    };
    single.values().chain(multi.values().flatten())
        .map(|p| Property { name: p.key().to_owned(), value: p.value().to_owned() })
        .collect()
}

/// `Component::properties` and `Component::multi_properties` of the
/// component inside, each property as its `key`, the `key` and `value` of
/// each of its `params`, and its `value`. Claims that these are the lines
/// that stand directly in the component.
#[verifier::external_body]
pub(crate) fn read_lines(c: &icalendar::CalendarComponent) -> (lines: Vec<Line>)
    ensures
        forall|l: LineView|
            own_lines(*c).contains(l) <==> exists|k: int|
                0 <= k < lines@.len() && (#[trigger] lines@[k])@ == l,
        forall|k: int| 0 <= k < lines@.len() ==> deep_lines(*c).contains((#[trigger] lines@[k])@),
{
    let (single, multi) = match c {
        Event(e) => (e.properties(), e.multi_properties()),
        Todo(t) => (t.properties(), t.multi_properties()),
        Venue(v) => (v.properties(), v.multi_properties()),
        Other(o) => (o.properties(), o.multi_properties()),
        _ => return Vec::new(),
    };
    single.values().chain(multi.values().flatten()).map(|p| Line {
        key: p.key().to_owned(),
        parameters: p.params().values().flat_map(|q| [q.key(), q.value()])
            .map(str::to_owned).collect(),
        value: p.value().to_owned(),
    }).collect()
}

/// `Component::components`, taken along a path: of the component inside,
/// then of the component at the first place among those, and so on. The
/// result is the length of the last. Each entry of the path has to be a
/// place that is there.
#[verifier::external_body]
pub(crate) fn nested_count(c: &icalendar::CalendarComponent, path: &Vec<usize>) -> (n: usize)
    requires
        is_path(*c, path@),
    ensures
        n == count_at(*c, path@),
{
    let top = match c {
        Event(e) => e.components(),
        Todo(t) => t.components(),
        Venue(v) => v.components(),
        Other(o) => o.components(),
        _ => return 0,
    };
    path.iter().fold(top, |at, i| at[*i].components()).len()
}

/// `Component::components` of the component inside, each nested component
/// copied and wrapped by `CalendarComponent::from`. Claims that the lines of
/// a component are its own and those of the components nested in it, that
/// it counts one more component than they do together, and that none of
/// them is nested deeper than it.
///
/// The copy calls itself once for each level of nesting, so the depth is
/// bounded.
#[verifier::external_body]
pub(crate) fn read_children(c: &icalendar::CalendarComponent) -> (children: Vec<
    icalendar::CalendarComponent,
>)
    requires
        is_shallow(*c),
    ensures
        forall|i: int| 0 <= i < children@.len() ==> is_shallow(#[trigger] children@[i]),
        component_size(*c) == 1 + total_size(children@),
        forall|l: LineView|
            deep_lines(*c).contains(l) <==> (own_lines(*c).contains(l) || exists|i: int|
                0 <= i < children@.len() && #[trigger] deep_lines(children@[i]).contains(l)),
{
    let nested = match c {
        Event(e) => e.components(),
        Todo(t) => t.components(),
        Venue(v) => v.components(),
        Other(o) => o.components(),
        _ => return Vec::new(),
    };
    nested.iter().cloned().map(icalendar::CalendarComponent::from).collect()
}

/// `Clone::clone` of a component: the copy is equal to the component that
/// it was made from. The copy calls itself once for each level of nesting,
/// so the depth is bounded.
#[verifier::external_body]
pub(crate) fn copy_component(c: &icalendar::CalendarComponent) -> (copy:
    icalendar::CalendarComponent)
    requires
        is_shallow(*c),
    ensures
        copy == *c,
{
    c.clone()
}

/// `Calendar::new`: no component, and the default header.
#[verifier::external_body]
pub(crate) fn new_calendar() -> (cal: icalendar::Calendar)
    ensures
        calendar_sources(cal) == Seq::<icalendar::CalendarComponent>::empty(),
        has_default_header(cal),
{
    icalendar::Calendar::new()
}

/// `Calendar::push`: the component is appended, and the header stays.
#[verifier::external_body]
pub(crate) fn push_component(cal: &mut icalendar::Calendar, c: icalendar::CalendarComponent)
    ensures
        calendar_sources(*final(cal)) == calendar_sources(*old(cal)).push(c),
        has_default_header(*final(cal)) == has_default_header(*old(cal)),
{
    cal.push(c);
}

/// `to_string` of a calendar. Claims the frame of the text and the lines
/// that are written as they stand: what else stands between the `BEGIN`
/// and `END` lines of a component may hold the time of the call and a
/// random identifier, and parameters in an order that is not fixed.
///
/// The encoder folds each line that is longer than 75 bytes, 74 bytes
/// after the fold before. Where a fold would fall inside a character of
/// several bytes, it moves the fold back; it moves it back only through
/// the bytes of such characters, and beyond the first byte of one only
/// where the character of the line whose number is that byte's position is
/// white space. Where that takes it back to the fold before, the encoder
/// fails. So every line has to pass the guard `line_passes`: either no run
/// of characters of several bytes in it is longer than `MAX_RUN` bytes, or
/// no 75 characters in a row hold more than `MAX_WHITE` white spaces,
/// where 18 would be needed to go back 74 bytes. The encoder also calls
/// itself once for each level of nesting, so the depth of each component is
/// bounded.
#[verifier::external_body]
pub(crate) fn calendar_text(cal: &icalendar::Calendar) -> (text: String)
    requires
        has_default_header(*cal),
        forall|i: int|
            0 <= i < calendar_components(*cal).len() ==> is_writable(
                #[trigger] calendar_components(*cal)[i],
            ),
    ensures
        has_calendar_frame(text@, calendar_components(*cal)),
{
    cal.to_string()
}

} // verus!
