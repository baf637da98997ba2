//! The notifications that travel through the bridge.
//!
//! A [`Signal`] is what the platform reports about one element. A
//! [`LifecycleEvent`] is what the bridge hands to the component that backs
//! that element. The two differ by the events that the bridge itself
//! originates: construction and the one-time injection of children.
use vstd::prelude::*;

verus! {

/// The mathematical value of an optional attribute text: the characters of
/// the text, or `None` where the attribute is absent.
pub open spec fn text_view(text: Option<String>) -> Option<Seq<char>> {
    match text {
        Some(s) => Some(s@),
        None => None,
    }
}

/// The mathematical value of a list of names: the characters of each, in order.
pub open spec fn names_view(names: Seq<String>) -> Seq<Seq<char>> {
    names.map_values(|name: String| name@)
}

/// The mathematical value of a list of borrowed names: the characters of
/// each, in order.
pub open spec fn strs_view(names: Seq<&str>) -> Seq<Seq<char>> {
    names.map_values(|name: &str| name@)
}

/// The mathematical value of an optional borrowed name.
pub open spec fn str_view(name: Option<&str>) -> Option<Seq<char>> {
    match name {
        Some(s) => Some(s@),
        None => None,
    }
}

/// What the platform reports about a constructed element.
#[derive(Debug, PartialEq, Eq)]
pub enum Signal {
    /// The element became part of a connected document.
    Connected,
    /// The element was removed from its document.
    Disconnected,
    /// The element moved to another document.
    Adopted,
    /// An attribute was added, removed or changed. An absent value is `None`.
    AttributeChanged { name: String, old_value: Option<String>, new_value: Option<String> },
}

/// The mathematical value of a [`Signal`].
pub enum SignalView {
    Connected,
    Disconnected,
    Adopted,
    AttributeChanged { name: Seq<char>, old_value: Option<Seq<char>>, new_value: Option<Seq<char>> },
}

impl View for Signal {
    type V = SignalView;

    open spec fn view(&self) -> SignalView {
        match *self {
            Signal::Connected => SignalView::Connected,
            Signal::Disconnected => SignalView::Disconnected,
            Signal::Adopted => SignalView::Adopted,
            Signal::AttributeChanged { name, old_value, new_value } => SignalView::AttributeChanged {
                name: name@,
                old_value: text_view(old_value),
                new_value: text_view(new_value),
            },
        }
    }
}

/// What the bridge delivers to a component.
#[derive(Debug, PartialEq, Eq)]
pub enum LifecycleEvent {
    /// The platform instantiated the element.
    Constructed,
    /// The component is asked, once, to attach its content.
    ChildrenInjected,
    /// The element became part of a connected document.
    Connected,
    /// The element was removed from its document.
    Disconnected,
    /// The element moved to another document.
    Adopted,
    /// An observed attribute was added, removed or changed.
    AttributeChanged { name: String, old_value: Option<String>, new_value: Option<String> },
}

/// The mathematical value of a [`LifecycleEvent`].
pub enum EventView {
    Constructed,
    ChildrenInjected,
    Connected,
    Disconnected,
    Adopted,
    AttributeChanged { name: Seq<char>, old_value: Option<Seq<char>>, new_value: Option<Seq<char>> },
}

impl View for LifecycleEvent {
    type V = EventView;

    open spec fn view(&self) -> EventView {
        match *self {
            LifecycleEvent::Constructed => EventView::Constructed,
            LifecycleEvent::ChildrenInjected => EventView::ChildrenInjected,
            LifecycleEvent::Connected => EventView::Connected,
            LifecycleEvent::Disconnected => EventView::Disconnected,
            LifecycleEvent::Adopted => EventView::Adopted,
            LifecycleEvent::AttributeChanged { name, old_value, new_value } => EventView::AttributeChanged {
                name: name@,
                old_value: text_view(old_value),
                new_value: text_view(new_value),
            },
        }
    }
}

/// The mathematical value of a list of events: the value of each, in order.
pub open spec fn events_view(events: Seq<LifecycleEvent>) -> Seq<EventView> {
    events.map_values(|event: LifecycleEvent| event@)
}

} // verus!
