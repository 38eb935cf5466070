//! The transparency filter: which components of a document stay.

use crate::model::{
    CalendarDocument, ComponentKind, ComponentView, DocumentComponent, Property, PropertyView,
    TransparencyStatus, components_view, properties_view,
};
use crate::text::{eq_ignore_ascii_case, eq_ignore_case};
use vstd::prelude::*;

verus! {

/// The property is called `TRANSP`, in any case.
pub open spec fn names_transp(p: PropertyView) -> bool {
    eq_ignore_case(p.name, "TRANSP"@)
}

/// The value of the property is `TRANSPARENT`, in any case.
pub open spec fn says_transparent(p: PropertyView) -> bool {
    eq_ignore_case(p.value, "TRANSPARENT"@)
}

/// The `TRANSP` properties among `properties`, in order.
pub open spec fn transp_properties(properties: Seq<PropertyView>) -> Seq<PropertyView> {
    properties.filter(|p: PropertyView| names_transp(p))
}

/// What the properties of an event say of its transparency.
///
/// An event without a `TRANSP` property says nothing. An event with exactly
/// one, whose value is `TRANSPARENT`, is transparent. Every other event is
/// opaque: one whose `TRANSP` has another value, and one that has several.
pub open spec fn transparency(properties: Seq<PropertyView>) -> TransparencyStatus {
    let found = transp_properties(properties);
    if found.len() == 0 {
        TransparencyStatus::Unknown
    } else if found.len() == 1 && says_transparent(found[0]) {
        TransparencyStatus::Transparent
    } else {
        TransparencyStatus::Opaque
    }
}

/// The filter drops a component when it is an event that is transparent.
pub open spec fn is_dropped(c: ComponentView) -> bool {
    c.kind == ComponentKind::Event && transparency(c.properties)
        == TransparencyStatus::Transparent
}

/// The components that the filter keeps, in their order.
pub open spec fn busy_only(components: Seq<DocumentComponent>) -> Seq<DocumentComponent> {
    components.filter(|c: DocumentComponent| !is_dropped(c@))
}

/// Filtering one element more of a sequence appends that element, or
/// changes nothing.
proof fn lemma_filter_next<A>(s: Seq<A>, keep: spec_fn(A) -> bool, i: int)
    requires
        0 <= i < s.len(),
    ensures
        s.take(i + 1).filter(keep) == if keep(s[i]) {
            s.take(i).filter(keep).push(s[i])
        } else {
            s.take(i).filter(keep)
        },
{
    reveal(Seq::filter);
    assert(s.take(i + 1).drop_last() == s.take(i));
}

/// Reads the transparency of an event off its properties.
pub fn classify(properties: &Vec<Property>) -> (status: TransparencyStatus)
    ensures
        status == transparency(properties_view(properties@)),
{
    let ghost all = properties_view(properties@);
    let mut count: usize = 0;
    let mut first_transparent = false;
    let mut i: usize = 0;
    while i < properties.len()
        invariant
            i <= properties.len(),
            all == properties_view(properties@),
            count == transp_properties(all.take(i as int)).len(),
            count <= i,
            count > 0 ==> first_transparent == says_transparent(
                transp_properties(all.take(i as int))[0],
            ),
        decreases properties.len() - i,
    {
        let p = &properties[i];
        proof {
            lemma_filter_next(all, |p: PropertyView| names_transp(p), i as int);
            assert(all[i as int] == p@);
        }
        if eq_ignore_ascii_case(p.name.as_str(), "TRANSP") {
            if count == 0 {
                first_transparent = eq_ignore_ascii_case(p.value.as_str(), "TRANSPARENT");
            }
            count += 1;
        }
        i += 1;
    }
    assert(all.take(i as int) == all);
    if count == 0 {
        TransparencyStatus::Unknown
    } else if count == 1 && first_transparent {
        TransparencyStatus::Transparent
    } else {
        TransparencyStatus::Opaque
    }
}

/// Decides whether the filter keeps a component.
pub fn is_retained(component: &DocumentComponent) -> (keep: bool)
    ensures
        keep == !is_dropped(component@),
{
    match component.kind() {
        ComponentKind::Event => match classify(component.properties()) {
            TransparencyStatus::Transparent => false,
            _ => true,
        },
        _ => true,
    }
}

/// Removes the transparent events from a document. Every other component
/// is moved to the result as it is, and the order is kept.
pub fn filter_document(doc: CalendarDocument) -> (out: CalendarDocument)
    ensures
        out@ == busy_only(doc@),
{
    let ghost all = doc@;
    let mut kept: Vec<DocumentComponent> = Vec::new();
    for component in it: doc.components.into_iter()
        invariant
            it.seq() == all,
            kept@ == busy_only(all.take(it.index() as int)),
    {
        proof {
            lemma_filter_next(all, |c: DocumentComponent| !is_dropped(c@), it.index() as int);
        }
        if is_retained(&component) {
            kept.push(component);
        }
    }
    assert(all.take(all.len() as int) == all);
    CalendarDocument { components: kept }
}

/// The components that the filter keeps, among components given as views.
pub open spec fn busy_views(components: Seq<ComponentView>) -> Seq<ComponentView> {
    components.filter(|c: ComponentView| !is_dropped(c))
}

/// The filter reads the views of the components only: the views of what it
/// keeps are what it keeps of the views.
pub proof fn lemma_filter_reads_views(components: Seq<DocumentComponent>)
    ensures
        components_view(busy_only(components)) == busy_views(components_view(components)),
    decreases components.len(),
{
    reveal(Seq::filter);
    if components.len() > 0 {
        let rest = components.drop_last();
        lemma_filter_reads_views(rest);
        assert(components_view(components).drop_last() == components_view(rest));
        assert(components_view(components).last() == components.last()@);
        if !is_dropped(components.last()@) {
            assert(components_view(busy_only(rest).push(components.last())) == components_view(
                busy_only(rest),
            ).push(components.last()@));
        }
    } else {
        assert(components_view(busy_only(components)) == Seq::<ComponentView>::empty());
    }
}

/// A sequence of which every element passes is its own filtering.
proof fn lemma_filter_all<A>(s: Seq<A>, keep: spec_fn(A) -> bool)
    requires
        forall|i: int| 0 <= i < s.len() ==> keep(#[trigger] s[i]),
    ensures
        s.filter(keep) == s,
    decreases s.len(),
{
    reveal(Seq::filter);
    if s.len() > 0 {
        lemma_filter_all(s.drop_last(), keep);
        assert(s.drop_last().push(s.last()) == s);
    }
}

/// If `s[i]` is the only element of `s` that passes, the filtering of `s`
/// is that element alone.
proof fn lemma_filter_one<A>(s: Seq<A>, keep: spec_fn(A) -> bool, i: int)
    requires
        0 <= i < s.len(),
        keep(s[i]),
        forall|j: int| 0 <= j < s.len() && j != i ==> !keep(#[trigger] s[j]),
    ensures
        s.filter(keep) == seq![s[i]],
    decreases s.len(),
{
    reveal(Seq::filter);
    let rest = s.drop_last();
    if i == s.len() - 1 {
        assert forall|j: int| 0 <= j < rest.len() implies !keep(#[trigger] rest[j]) by {
            assert(rest[j] == s[j]);
        }
        lemma_filter_none(rest, keep);
        assert(s.filter(keep) == seq![s[i]]);
    } else {
        assert forall|j: int| 0 <= j < rest.len() && j != i implies !keep(#[trigger] rest[j]) by {
            assert(rest[j] == s[j]);
        }
        assert(rest[i] == s[i]);
        lemma_filter_one(rest, keep, i);
    }
}

/// A sequence of which no element passes has an empty filtering.
proof fn lemma_filter_none<A>(s: Seq<A>, keep: spec_fn(A) -> bool)
    requires
        forall|i: int| 0 <= i < s.len() ==> !keep(#[trigger] s[i]),
    ensures
        s.filter(keep).len() == 0,
    decreases s.len(),
{
    reveal(Seq::filter);
    if s.len() > 0 {
        let rest = s.drop_last();
        assert forall|i: int| 0 <= i < rest.len() implies !keep(#[trigger] rest[i]) by {
            assert(rest[i] == s[i]);
        }
        lemma_filter_none(rest, keep);
    }
}

/// A document in which nothing is a transparent event passes the filter
/// unchanged.
pub proof fn lemma_nothing_dropped_is_identity(components: Seq<DocumentComponent>)
    requires
        forall|i: int| 0 <= i < components.len() ==> !is_dropped(#[trigger] components[i]@),
    ensures
        busy_only(components) == components,
{
    lemma_filter_all(components, |c: DocumentComponent| !is_dropped(c@));
}

/// A document that holds no event passes the filter unchanged.
pub proof fn lemma_no_events_is_identity(components: Seq<DocumentComponent>)
    requires
        forall|i: int|
            0 <= i < components.len() ==> (#[trigger] components[i])@.kind
                != ComponentKind::Event,
    ensures
        busy_only(components) == components,
{
    lemma_nothing_dropped_is_identity(components);
}

/// An event with a `TRANSP` property whose value is `TRANSPARENT`, in any
/// case of name and value, and with no second `TRANSP` property, is absent
/// from what the filter keeps, wherever it stood.
pub proof fn lemma_transparent_event_is_absent(
    components: Seq<DocumentComponent>,
    event: DocumentComponent,
    i: int,
)
    requires
        event@.kind == ComponentKind::Event,
        0 <= i < event@.properties.len(),
        names_transp(event@.properties[i]),
        says_transparent(event@.properties[i]),
        forall|j: int|
            0 <= j < event@.properties.len() && j != i ==> !names_transp(
                #[trigger] event@.properties[j],
            ),
    ensures
        transparency(event@.properties) == TransparencyStatus::Transparent,
        !busy_only(components).contains(event),
{
    let keep = |c: DocumentComponent| !is_dropped(c@);
    lemma_filter_one(event@.properties, |p: PropertyView| names_transp(p), i);
    if components.filter(keep).contains(event) {
        let k = choose|k: int|
            0 <= k < components.filter(keep).len() && components.filter(keep)[k] == event;
        components.lemma_filter_pred(keep, k);
    }
}

/// An event without a `TRANSP` property, or whose `TRANSP` properties all
/// have another value than `TRANSPARENT`, is kept as it is.
pub proof fn lemma_other_event_is_kept(components: Seq<DocumentComponent>, k: int)
    requires
        0 <= k < components.len(),
        components[k]@.kind == ComponentKind::Event,
        forall|i: int|
            0 <= i < components[k]@.properties.len() && names_transp(
                #[trigger] components[k]@.properties[i],
            ) ==> !says_transparent(components[k]@.properties[i]),
    ensures
        transparency(components[k]@.properties) != TransparencyStatus::Transparent,
        busy_only(components).contains(components[k]),
{
    let properties = components[k]@.properties;
    let is_transp = |p: PropertyView| names_transp(p);
    let found = properties.filter(is_transp);
    if found.len() == 1 {
        assert(found.contains(found[0]));
        properties.lemma_filter_contains_rev(is_transp, found[0]);
        properties.lemma_filter_pred(is_transp, 0);
        let i = choose|i: int| 0 <= i < properties.len() && properties[i] == found[0];
        assert(!says_transparent(properties[i]));
    }
    components.lemma_filter_contains(|c: DocumentComponent| !is_dropped(c@), k);
}

/// A component that is no event is kept as it is, whatever it holds.
pub proof fn lemma_non_event_is_kept(components: Seq<DocumentComponent>, k: int)
    requires
        0 <= k < components.len(),
        components[k]@.kind != ComponentKind::Event,
    ensures
        busy_only(components).contains(components[k]),
{
    components.lemma_filter_contains(|c: DocumentComponent| !is_dropped(c@), k);
}

/// `positions` says where in `components` each element of `kept` stood:
/// one position for each, rising, and holding that element.
pub open spec fn is_selection(
    kept: Seq<DocumentComponent>,
    components: Seq<DocumentComponent>,
    positions: Seq<int>,
) -> bool {
    &&& positions.len() == kept.len()
    &&& forall|k: int|
        0 <= k < kept.len() ==> 0 <= #[trigger] positions[k] < components.len() && kept[k]
            == components[positions[k]]
    &&& forall|j: int, k: int|
        0 <= j < k < kept.len() ==> #[trigger] positions[j] < #[trigger] positions[k]
}

/// What the filter keeps stands in the order in which it stood in the
/// document: the filter removes, and neither moves nor repeats. The
/// positions returned are those of the kept components, and they hold
/// every position of a component that is not dropped.
pub proof fn lemma_order_is_kept(components: Seq<DocumentComponent>) -> (positions: Seq<int>)
    ensures
        is_selection(busy_only(components), components, positions),
        forall|i: int|
            0 <= i < components.len() && !is_dropped(#[trigger] components[i]@)
                ==> positions.contains(i),
    decreases components.len(),
{
    reveal(Seq::filter);
    if components.len() == 0 {
        Seq::empty()
    } else {
        let rest = components.drop_last();
        let last = components.len() - 1;
        let before = lemma_order_is_kept(rest);
        let positions = if !is_dropped(components.last()@) {
            before.push(last)
        } else {
            before
        };
        assert forall|i: int|
            0 <= i < components.len() && !is_dropped(
                #[trigger] components[i]@,
            ) implies positions.contains(i) by {
            if i < last {
                assert(rest[i] == components[i]);
                assert(before.contains(i));
                let k = choose|k: int| 0 <= k < before.len() && before[k] == i;
                assert(positions[k] == i);
            } else {
                assert(positions[positions.len() - 1] == i);
            }
        }
        positions
    }
}

} // verus!
