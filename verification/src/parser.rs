//! The document parser: from a calendar text to a document.
//!
//! The text is unfolded and its frame is checked here; the components are
//! decoded by `icalendar`. A text is taken only if both agree on how many
//! components its calendar holds.

use crate::framing::{FrameError, FrameFault, MAX_DEPTH, check_framing, check_view, framing};
use crate::ical::{
    decode_components, decoded, unfold_bytes, unfolded, views_of_sources,
};
use crate::model::{
    CalendarDocument, ComponentView, DocumentComponent, components_view, sources_of,
};
use crate::ical::is_writable;
use crate::text::{decimal, push_decimal};
use vstd::prelude::*;

verus! {

/// Why a text is no calendar document.
#[derive(Clone, Debug, PartialEq, Eq)]
pub enum ParseError {
    /// The frame of the text is broken.
    Frame(FrameError),
    /// The decoder refused the text; this is its message.
    Syntax(String),
    /// The decoder returned another number of components than the frame of
    /// the text holds.
    Incomplete { framed: usize, decoded: usize },
    /// The component at this place, the first of its kind, could not be
    /// written again: it holds a line that the guard before the serializer
    /// refuses, or it is nested too deeply.
    Unwritable { component: usize },
}

/// A parse error as plain values.
pub enum ParseErrorView {
    Frame(FrameFault, nat),
    Syntax(Seq<char>),
    Incomplete { framed: nat, decoded: nat },
    Unwritable { component: nat },
}

impl View for ParseError {
    type V = ParseErrorView;

    open spec fn view(&self) -> ParseErrorView {
        match *self {
            ParseError::Frame(e) => ParseErrorView::Frame(e.fault, e.line as nat),
            ParseError::Syntax(message) => ParseErrorView::Syntax(message@),
            ParseError::Incomplete { framed, decoded } => ParseErrorView::Incomplete {
                framed: framed as nat,
                decoded: decoded as nat,
            },
            ParseError::Unwritable { component } => ParseErrorView::Unwritable {
                component: component as nat,
            },
        }
    }
}

/// What a fault of the frame is called in a message.
pub open spec fn fault_text(fault: FrameFault) -> Seq<char> {
    match fault {
        FrameFault::StrayLine => "content outside of any component"@,
        FrameFault::MissingCalendar => "no enclosing VCALENDAR component"@,
        FrameFault::SecondCalendar => "more than one VCALENDAR component"@,
        FrameFault::StrayEnd => "END without a matching BEGIN"@,
        FrameFault::MismatchedEnd => "END does not match the open BEGIN"@,
        FrameFault::Unterminated => "unterminated component, missing END"@,
        FrameFault::TooDeep => "components nested too deeply"@,
        FrameFault::BadName => "component name is empty or holds a byte that no name holds"@,
        FrameFault::BadLine => "not a content line"@,
        FrameFault::MixedLineEnds => "CRLF line end after a bare LF line end"@,
    }
}

/// The message of a parse error.
pub open spec fn error_text(error: ParseErrorView) -> Seq<char> {
    match error {
        ParseErrorView::Frame(fault, line) => "line "@ + decimal(line) + ": "@ + fault_text(
            fault,
        ),
        ParseErrorView::Syntax(message) => message,
        ParseErrorView::Incomplete { framed, decoded } => "decoded "@ + decimal(decoded)
            + " of "@ + decimal(framed) + " components"@,
        ParseErrorView::Unwritable { component } => "component "@ + decimal(component)
            + " cannot be written again"@,
    }
}

/// Every component can be written again.
pub open spec fn all_writable(components: Seq<ComponentView>) -> bool {
    forall|i: int| 0 <= i < components.len() ==> is_writable(#[trigger] components[i])
}

/// The component at `k` is the first that cannot be written again.
pub open spec fn is_first_refused(components: Seq<ComponentView>, k: int) -> bool {
    &&& 0 <= k < components.len()
    &&& !is_writable(components[k])
    &&& forall|j: int| 0 <= j < k ==> is_writable(#[trigger] components[j])
}

/// The place of the first component that cannot be written again, if
/// there is one.
pub open spec fn first_refused(components: Seq<ComponentView>) -> int {
    choose|k: int| is_first_refused(components, k)
}

/// What a framing and a decoding make together: the decoded components, if
/// the decoder succeeded, it returned as many components as the frame
/// holds, and each of them can be written again; else the first of these
/// that failed.
pub open spec fn assembled(framed: nat, decoding: Result<Seq<ComponentView>, Seq<char>>) -> Result<
    Seq<ComponentView>,
    ParseErrorView,
> {
    match decoding {
        Err(message) => Err(ParseErrorView::Syntax(message)),
        Ok(components) => if components.len() != framed {
            Err(ParseErrorView::Incomplete { framed, decoded: components.len() })
        } else if !all_writable(components) {
            Err(ParseErrorView::Unwritable { component: first_refused(components) as nat })
        } else {
            Ok(components)
        },
    }
}

/// The document that a text stands for, as the views of its components,
/// or the reason why it stands for none.
pub open spec fn parse_outcome(text: Seq<char>) -> Result<Seq<ComponentView>, ParseErrorView> {
    match framing(unfolded(text)) {
        Err((fault, line)) => Err(ParseErrorView::Frame(fault, line)),
        Ok(framed) => assembled(framed, decoded(text)),
    }
}

/// A decoding as plain values.
pub open spec fn decoding_view(decoding: Result<Vec<icalendar::CalendarComponent>, String>)
    -> Result<Seq<ComponentView>, Seq<char>> {
    match decoding {
        Ok(sources) => Ok(views_of_sources(sources@)),
        Err(message) => Err(message@),
    }
}

/// The result of a parse as plain values.
pub open spec fn parse_view(r: Result<CalendarDocument, ParseError>) -> Result<
    Seq<ComponentView>,
    ParseErrorView,
> {
    match r {
        Ok(doc) => Ok(components_view(doc@)),
        Err(e) => Err(e@),
    }
}

impl ParseError {
    fn fault_name(fault: FrameFault) -> (name: &'static str)
        ensures
            name@ == fault_text(fault),
    {
        match fault {
            FrameFault::StrayLine => "content outside of any component",
            FrameFault::MissingCalendar => "no enclosing VCALENDAR component",
            FrameFault::SecondCalendar => "more than one VCALENDAR component",
            FrameFault::StrayEnd => "END without a matching BEGIN",
            FrameFault::MismatchedEnd => "END does not match the open BEGIN",
            FrameFault::Unterminated => "unterminated component, missing END",
            FrameFault::TooDeep => "components nested too deeply",
            FrameFault::BadName => "component name is empty or holds a byte that no name holds",
            FrameFault::BadLine => "not a content line",
            FrameFault::MixedLineEnds => "CRLF line end after a bare LF line end",
        }
    }

    /// The message of the error.
    pub fn message(&self) -> (text: String)
        ensures
            text@ == error_text(self@),
    {
        match self {
            ParseError::Frame(e) => {
                let mut text = "line ".to_owned();
                push_decimal(&mut text, e.line);
                text.append(": ");
                text.append(Self::fault_name(e.fault));
                text
            },
            ParseError::Syntax(message) => message.clone(),
            ParseError::Incomplete { framed, decoded } => {
                let mut text = "decoded ".to_owned();
                push_decimal(&mut text, *decoded);
                text.append(" of ");
                push_decimal(&mut text, *framed);
                text.append(" components");
                text
            },
            ParseError::Unwritable { component } => {
                let mut text = "component ".to_owned();
                push_decimal(&mut text, *component);
                text.append(" cannot be written again");
                text
            },
        }
    }
}

/// Makes a document of what the decoder returned for a text whose frame
/// holds `framed` components. Each decoded component goes into the
/// document as it is, in its place, if it can be written again.
pub fn assemble(framed: usize, decoding: Result<Vec<icalendar::CalendarComponent>, String>) -> (r:
    Result<CalendarDocument, ParseError>)
    ensures
        parse_view(r) == assembled(framed as nat, decoding_view(decoding)),
        r matches Ok(doc) ==> decoding matches Ok(sources) && sources_of(doc@) == sources@,
{
    match decoding {
        Err(message) => Err(ParseError::Syntax(message)),
        Ok(sources) => {
            if sources.len() != framed {
                return Err(ParseError::Incomplete { framed, decoded: sources.len() });
            }
            let ghost all = sources@;
            let mut components: Vec<DocumentComponent> = Vec::new();
            let mut at: usize = 0;
            for source in it: sources.into_iter()
                invariant
                    it.seq() == all,
                    at == it.index(),
                    all.len() == framed,
                    decoding_view(decoding) == Ok::<Seq<ComponentView>, Seq<char>>(
                        views_of_sources(all),
                    ),
                    components_view(components@) == views_of_sources(all.take(it.index() as int)),
                    all_writable(components_view(components@)),
                    sources_of(components@) == all.take(it.index() as int),
            {
                let ghost before = components@;
                let component = match DocumentComponent::try_new(source) {
                    Some(component) => component,
                    None => {
                        proof {
                            let k = it.index() as int;
                            let views = views_of_sources(all);
                            assert forall|j: int| 0 <= j < k implies is_writable(
                                #[trigger] views[j],
                            ) by {
                                assert(views[j] == views_of_sources(all.take(k))[j]);
                                assert(views[j] == components_view(components@)[j]);
                            }
                            assert(views.len() == all.len());
                            assert(views[k] == crate::model::view_of_source(all[k]));
                            assert(!is_writable(views[k]));
                            assert(is_first_refused(views, k));
                            let f = first_refused(views);
                            assert(is_first_refused(views, f));
                            if f < k {
                                assert(is_writable(views[f]));
                            } else if f > k {
                                assert(is_writable(views[k]));
                            }
                            assert(f == k);
                            assert(!all_writable(views));
                        }
                        return Err(ParseError::Unwritable { component: at });
                    },
                };
                components.push(component);
                proof {
                    let k = it.index() as int;
                    assert(all.take(k + 1) == all.take(k).push(all[k]));
                    assert(components_view(components@) =~= components_view(before).push(
                        component@,
                    ));
                    assert(views_of_sources(all.take(k + 1)) =~= views_of_sources(
                        all.take(k),
                    ).push(crate::model::view_of_source(all[k])));
                    assert(sources_of(components@) =~= sources_of(before).push(
                        component.source_view(),
                    ));
                }
                at += 1;
            }
            assert(all.take(all.len() as int) == all);
            Ok(CalendarDocument { components })
        },
    }
}

/// Decodes a calendar text into a document.
///
/// The text is refused if its frame is broken, if the decoder refuses it,
/// if the decoder returns another number of components than the frame
/// holds, or if a component could not be written again;
/// otherwise the document holds the decoded components in the order of the
/// text.
///
/// The decoder keeps one property of each name, the last one, but for the
/// names that may stand several times in a component (`ATTENDEE`,
/// `COMMENT` and the like). So of two `TRANSP` lines of one event, written
/// alike, the filter sees the second only.
pub fn parse_document(text: &str) -> (r: Result<CalendarDocument, ParseError>)
    ensures
        parse_view(r) == parse_outcome(text@),
{
    let bytes = unfold_bytes(text);
    match check_framing(bytes.as_slice()) {
        Err(e) => Err(ParseError::Frame(e)),
        Ok(framed) => assemble(framed, decode_components(text)),
    }
}

} // verus!
