//! What a component implements to stand behind a custom element.
use vstd::prelude::*;
use wasm_bindgen::JsValue;
use web_sys::HtmlElement;
use crate::event::{str_view, strs_view, text_view, EventView, SignalView};
use crate::lifecycle::Lifecycle;
use crate::registration::{define_custom_tag, Registration};

verus! {

/// A component that can back a custom element: it injects its content once
/// and may react to each lifecycle event of the element.
///
/// All hooks but [`inject_children`](GenericCustomElement::inject_children)
/// are optional and inert unless overridden.
///
/// Each hook promises to change the component only as
/// [`reacts`](GenericCustomElement::reacts) allows. Verus holds an
/// implementation that it verifies to that promise. An implementation that it
/// never sees is taken at its word; with the default `reacts`, which allows
/// every change, that word is empty and true.
pub trait GenericCustomElement: Sized + 'static {
    /// How the component may change when `event` is delivered to it: `next`
    /// is a value that it may have afterwards. A component that declares
    /// nothing may change in any way.
    open spec fn reacts(self, event: EventView, next: Self) -> bool {
        true
    }

    /// Appends the component's content to the element, or to its shadow root
    /// where it has one. Called once, on the first connection, before
    /// [`connected_callback`](GenericCustomElement::connected_callback).
    fn inject_children(&mut self, this: &HtmlElement)
        ensures
            old(self).reacts(EventView::ChildrenInjected, *final(self)),
    ;

    /// Called when the platform instantiates the element, before any
    /// connection.
    fn constructor(&mut self, _this: &HtmlElement)
        ensures
            old(self).reacts(EventView::Constructed, *final(self)) || *final(self) == *old(self),
    {
    }

    /// Called each time the element becomes part of a connected document.
    fn connected_callback(&mut self, _this: &HtmlElement)
        ensures
            old(self).reacts(EventView::Connected, *final(self)) || *final(self) == *old(self),
    {
    }

    /// Called each time the element is removed from its document.
    fn disconnected_callback(&mut self, _this: &HtmlElement)
        ensures
            old(self).reacts(EventView::Disconnected, *final(self)) || *final(self) == *old(self),
    {
    }

    /// Called each time the element moves to another document.
    fn adopted_callback(&mut self, _this: &HtmlElement)
        ensures
            old(self).reacts(EventView::Adopted, *final(self)) || *final(self) == *old(self),
    {
    }

    /// Called each time an observed attribute is added, removed or changed.
    /// An absent value is `None`.
    fn attribute_changed_callback(
        &mut self,
        _this: &HtmlElement,
        _name: String,
        _old_value: Option<String>,
        _new_value: Option<String>,
    )
        ensures
            old(self).reacts(
                EventView::AttributeChanged {
                    name: _name@,
                    old_value: text_view(_old_value),
                    new_value: text_view(_new_value),
                },
                *final(self),
            ) || *final(self) == *old(self),
    {
    }
}

/// One thing that a component declares of its tag.
pub enum Declaration {
    /// Whether a shadow root is attached to each element.
    Shadow(bool),
    /// The names of the attributes whose changes the component hears of.
    ObservedAttributes(Seq<Seq<char>>),
    /// The tag of the built-in element that is extended, and its constructor.
    Superclass(Option<Seq<char>>, Option<&'static JsValue>),
    /// The CSS text that each element is styled with.
    Style(Option<Seq<char>>),
    /// The addresses of the stylesheets that each element links to.
    StyleUrls(Seq<Seq<char>>),
}

/// Whether `declaration` is that of a component which overrides nothing: a
/// shadow root, no observed attributes, no superclass, no styles.
pub open spec fn is_default(declaration: Declaration) -> bool {
    match declaration {
        Declaration::Shadow(shadow) => shadow,
        Declaration::ObservedAttributes(names) => names.len() == 0,
        Declaration::Superclass(tag, constructor) => tag is None && constructor is None,
        Declaration::Style(style) => style is None,
        Declaration::StyleUrls(urls) => urls.len() == 0,
    }
}

/// A component that can be registered by itself: it is made by `default()`
/// and declares what its tag is registered with.
///
/// Each declaration is the default or what the component allows by
/// [`declares`](CustomElement::declares). As with the hooks, Verus holds an
/// implementation that it verifies to that; one that it never sees is taken
/// at its word, which with the default `declares` is empty and true.
pub trait CustomElement: GenericCustomElement + Default {
    /// Whether `declaration` is one that the component makes in place of a
    /// default. A component that says nothing here may declare anything.
    open spec fn declares(declaration: Declaration) -> bool {
        true
    }

    /// Whether a shadow root is attached to each element. Enabled unless
    /// overridden.
    fn shadow() -> (shadow: bool)
        ensures
            is_default(Declaration::Shadow(shadow)) || Self::declares(Declaration::Shadow(shadow)),
    {
        true
    }

    /// The names of the attributes whose changes the component hears of.
    /// None unless overridden.
    fn observed_attributes() -> (names: &'static [&'static str])
        ensures
            is_default(Declaration::ObservedAttributes(strs_view(names@))) || Self::declares(
                Declaration::ObservedAttributes(strs_view(names@)),
            ),
    {
        &[]
    }

    /// The built-in element that the component extends: its tag and its
    /// constructor. Both are `None` unless overridden, which makes an
    /// autonomous element on the generic element base.
    fn superclass() -> (superclass: (Option<&'static str>, Option<&'static JsValue>))
        ensures
            is_default(Declaration::Superclass(str_view(superclass.0), superclass.1))
                || Self::declares(Declaration::Superclass(str_view(superclass.0), superclass.1)),
    {
        (None, None)
    }

    /// The CSS text that each element is styled with. None unless
    /// overridden.
    fn style() -> (style: Option<&'static str>)
        ensures
            is_default(Declaration::Style(str_view(style))) || Self::declares(
                Declaration::Style(str_view(style)),
            ),
    {
        None
    }

    /// The addresses of the stylesheets that each element links to. None
    /// unless overridden.
    fn style_urls() -> (urls: &'static [&'static str])
        ensures
            is_default(Declaration::StyleUrls(strs_view(urls@))) || Self::declares(
                Declaration::StyleUrls(strs_view(urls@)),
            ),
    {
        &[]
    }

    /// Builds the registration of the component under `tag_name`: the one
    /// that [`define_custom_tag`] and [`Registration::with_styles`] make of
    /// the component's own declarations. Each entry is a value that the
    /// declaration of that name returns; each declaration is read once. The
    /// registration is for the host to hand to the platform: by itself
    /// `define` registers nothing.
    #[must_use]
    fn define(tag_name: &'static str) -> (registration: Registration)
        ensures
            registration@.tag_name == tag_name@,
            call_ensures(Self::shadow, (), registration@.shadow),
            exists|names: &'static [&'static str]| #[trigger]
                call_ensures(Self::observed_attributes, (), names)
                    && registration@.observed_attributes == strs_view(names@),
            exists|superclass: (Option<&'static str>, Option<&'static JsValue>)| #[trigger]
                call_ensures(Self::superclass, (), superclass) && registration@.superclass_tag
                    == str_view(superclass.0) && registration@.superclass_constructor
                    == superclass.1,
            exists|style: Option<&'static str>| #[trigger]
                call_ensures(Self::style, (), style) && registration@.style == str_view(style),
            exists|urls: &'static [&'static str]| #[trigger]
                call_ensures(Self::style_urls, (), urls) && registration@.style_urls == strs_view(
                    urls@,
                ),
    {
        define_custom_tag(
            tag_name,
            Self::superclass(),
            Self::observed_attributes(),
            Self::shadow(),
        ).with_styles(Self::style(), Self::style_urls())
    }
}

/// What one delivery of `event` may make of a component: what the component
/// declares by [`reacts`](GenericCustomElement::reacts), or, for an optional
/// hook, nothing at all. This speaks of the change only; that the hook is
/// called is stated where the call is made, by
/// [`deliver`](crate::dispatcher::deliver) and the dispatcher's entry points.
pub open spec fn delivered<T: GenericCustomElement>(before: T, event: EventView, after: T) -> bool {
    before.reacts(event, after) || (event != EventView::ChildrenInjected && after == before)
}

/// What the delivery of `events`, one after the other, may make of a
/// component: each event finds the component as the one before left it.
pub open spec fn evolves<T: GenericCustomElement>(before: T, events: Seq<EventView>, after: T) -> bool
    decreases events.len(),
{
    if events.len() == 0 {
        after == before
    } else {
        exists|mid: T|
            #![trigger delivered(mid, events.last(), after)]
            evolves(before, events.drop_last(), mid) && delivered(mid, events.last(), after)
    }
}

/// Deliveries compose: where `first` takes a component from `a` to `b` and
/// `second` takes it from `b` to `c`, the two in a row take it from `a` to
/// `c`. No event in a run finds anything but what its predecessor left.
pub proof fn lemma_evolves_concat<T: GenericCustomElement>(
    a: T,
    b: T,
    c: T,
    first: Seq<EventView>,
    second: Seq<EventView>,
)
    requires
        evolves(a, first, b),
        evolves(b, second, c),
    ensures
        evolves(a, first + second, c),
    decreases second.len(),
{
    if second.len() == 0 {
        assert(first + second =~= first);
    } else {
        let mid = choose|mid: T|
            #![trigger delivered(mid, second.last(), c)]
            evolves(b, second.drop_last(), mid) && delivered(mid, second.last(), c);
        lemma_evolves_concat(a, b, mid, first, second.drop_last());
        assert((first + second).drop_last() =~= first + second.drop_last());
        assert((first + second).last() == second.last());
        assert(evolves(a, (first + second).drop_last(), mid));
        assert(delivered(mid, (first + second).last(), c));
    }
}

/// A single delivery is a run of one event.
pub proof fn lemma_evolves_single<T: GenericCustomElement>(before: T, event: EventView, after: T)
    ensures
        evolves(before, seq![event], after) <==> delivered(before, event, after),
{
    let events = seq![event];
    assert(events.drop_last() =~= Seq::<EventView>::empty());
    assert(events.last() == event);
    if delivered(before, event, after) {
        assert(evolves(before, events.drop_last(), before));
    }
    if evolves(before, events, after) {
        let mid = choose|mid: T|
            #![trigger delivered(mid, events.last(), after)]
            evolves(before, events.drop_last(), mid) && delivered(mid, events.last(), after);
        assert(mid == before);
    }
}

/// Over a whole run of signals every event finds the component as the event
/// before it left it: where the events owed for `signals` took the component
/// from `a` to `b`, and those owed for one more `signal` take it from `b` to
/// `c`, the events owed for the longer run take it from `a` to `c`.
pub proof fn lemma_run_evolves<T: GenericCustomElement>(
    a: T,
    b: T,
    c: T,
    start: Lifecycle,
    signals: Seq<SignalView>,
    signal: SignalView,
    observed: Seq<Seq<char>>,
)
    requires
        evolves(a, start.trace(signals, observed), b),
        evolves(b, start.run(signals).events(signal, observed), c),
    ensures
        evolves(a, start.trace(signals.push(signal), observed), c),
{
    crate::lifecycle::lemma_trace_push(start, signals, signal, observed);
    lemma_evolves_concat(
        a,
        b,
        c,
        start.trace(signals, observed),
        start.run(signals).events(signal, observed),
    );
}

} // verus!
