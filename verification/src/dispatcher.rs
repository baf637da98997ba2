//! The dispatcher of one element: it owns the component that backs the
//! element and routes every signal of the platform to it.
use vstd::prelude::*;
use web_sys::HtmlElement;
use crate::component::{
    delivered, evolves, lemma_evolves_concat, lemma_evolves_single, GenericCustomElement,
};
use crate::event::{events_view, names_view, text_view, EventView, LifecycleEvent, Signal, SignalView};
use crate::lifecycle::{ElementState, Lifecycle};
use crate::presentation::{declared_styles, inject_declared_styles, ContainerView, Host};
use crate::registration::Registration;

verus! {

/// Delivers one event to a component by calling the hook that stands for
/// it, once, on the component as it stands and with the element `this`: the
/// component afterwards is what that call made of it.
pub fn deliver<T: GenericCustomElement>(component: &mut T, this: &HtmlElement, event: LifecycleEvent)
    ensures
        delivered(*old(component), event@, *final(component)),
        event is Constructed ==> exists|handle: &mut T|
            *handle == *old(component) && *final(handle) == *final(component) && #[trigger] call_ensures(
                T::constructor,
                (handle, this),
                (),
            ),
        event is ChildrenInjected ==> exists|handle: &mut T|
            *handle == *old(component) && *final(handle) == *final(component) && #[trigger] call_ensures(
                T::inject_children,
                (handle, this),
                (),
            ),
        event is Connected ==> exists|handle: &mut T|
            *handle == *old(component) && *final(handle) == *final(component) && #[trigger] call_ensures(
                T::connected_callback,
                (handle, this),
                (),
            ),
        event is Disconnected ==> exists|handle: &mut T|
            *handle == *old(component) && *final(handle) == *final(component) && #[trigger] call_ensures(
                T::disconnected_callback,
                (handle, this),
                (),
            ),
        event is Adopted ==> exists|handle: &mut T|
            *handle == *old(component) && *final(handle) == *final(component) && #[trigger] call_ensures(
                T::adopted_callback,
                (handle, this),
                (),
            ),
        event is AttributeChanged ==> exists|
            handle: &mut T,
            name: String,
            old_value: Option<String>,
            new_value: Option<String>,
        |
            event == (LifecycleEvent::AttributeChanged { name, old_value, new_value }) && *handle == *old(
                component,
            ) && *final(handle) == *final(component) && #[trigger] call_ensures(
                T::attribute_changed_callback,
                (handle, this, name, old_value, new_value),
                (),
            ),
{
    match event {
        LifecycleEvent::Constructed => component.constructor(this),
        LifecycleEvent::ChildrenInjected => component.inject_children(this),
        LifecycleEvent::Connected => component.connected_callback(this),
        LifecycleEvent::Disconnected => component.disconnected_callback(this),
        LifecycleEvent::Adopted => component.adopted_callback(this),
        LifecycleEvent::AttributeChanged { name, old_value, new_value } => {
            component.attribute_changed_callback(this, name, old_value, new_value)
        },
    }
}

/// A copy of a list of names.
fn copy_names(names: &Vec<String>) -> (copy: Vec<String>)
    ensures
        names_view(copy@) == names_view(names@),
{
    let mut copy: Vec<String> = Vec::new();
    let mut i: usize = 0;
    while i < names.len()
        invariant
            i <= names.len(),
            copy@.len() == i,
            forall|j: int| 0 <= j < i ==> copy@[j]@ == names@[j]@,
        decreases names.len() - i,
    {
        copy.push(names[i].clone());
        i += 1;
    }
    assert(names_view(copy@) =~= names_view(names@));
    copy
}

/// One component, the lifecycle state of its element, and the attribute names
/// and styles that the element's tag was registered with.
///
/// Every entry point takes the dispatcher by `&mut`: two deliveries to one
/// component never overlap, and no other element's dispatcher is in reach.
pub struct Dispatcher<T: GenericCustomElement> {
    component: T,
    state: ElementState,
    observed: Vec<String>,
    style: Option<String>,
    style_urls: Vec<String>,
    styles_attached: bool,
}

impl<T: GenericCustomElement> Dispatcher<T> {
    /// The component as it stands.
    pub closed spec fn instance(&self) -> T {
        self.component
    }

    /// The lifecycle state of the element.
    pub closed spec fn lifecycle(&self) -> Lifecycle {
        self.state@
    }

    /// The observed attribute names, fixed when the dispatcher was made.
    pub closed spec fn observed(&self) -> Seq<Seq<char>> {
        names_view(self.observed@)
    }

    /// The containers of the declared styles, fixed when the dispatcher was
    /// made.
    pub closed spec fn styles(&self) -> Seq<ContainerView> {
        declared_styles(text_view(self.style), names_view(self.style_urls@))
    }

    /// Whether the declared styles were attached to the element.
    pub closed spec fn styles_attached(&self) -> bool {
        self.styles_attached
    }

    /// Takes charge of a new component for an element of the tag of
    /// `registration` that the platform just instantiated, and calls the
    /// component's construction hook, once, with the element `this`.
    pub fn construct(component: T, registration: &Registration, this: &HtmlElement) -> (dispatcher: Self)
        ensures
            dispatcher.lifecycle() == Lifecycle::initial(),
            dispatcher.observed() == registration@.observed_attributes,
            dispatcher.styles() == declared_styles(registration@.style, registration@.style_urls),
            !dispatcher.styles_attached(),
            delivered(component, EventView::Constructed, dispatcher.instance()),
            exists|handle: &mut T|
                *handle == component && *final(handle) == dispatcher.instance() && #[trigger] call_ensures(
                    T::constructor,
                    (handle, this),
                    (),
                ),
    {
        let mut component = component;
        deliver(&mut component, this, LifecycleEvent::Constructed);
        let style = match registration.style() {
            Some(css) => Some(css.to_owned()),
            None => None,
        };
        Dispatcher {
            component,
            state: ElementState::new(),
            observed: copy_names(registration.observed_attributes()),
            style,
            style_urls: copy_names(registration.style_urls()),
            styles_attached: false,
        }
    }

    /// Attaches the declared styles to the element, the first time it is
    /// called; every later call attaches nothing. The host calls it before
    /// each [`connected_callback`](Dispatcher::connected_callback), so that
    /// the styles come before the children. The component, the lifecycle and
    /// what was registered stay as they were.
    pub fn inject_pending_styles(&mut self, this: &mut Host)
        ensures
            final(this)@ == (if old(self).styles_attached() {
                old(this)@
            } else {
                old(this)@.inject_all(old(self).styles())
            }),
            final(self).styles_attached(),
            final(self).instance() == old(self).instance(),
            final(self).lifecycle() == old(self).lifecycle(),
            final(self).observed() == old(self).observed(),
            final(self).styles() == old(self).styles(),
    {
        if !self.styles_attached {
            inject_declared_styles(this, &self.style, &self.style_urls);
            self.styles_attached = true;
        }
    }

    /// The component.
    pub fn component(&self) -> (component: &T)
        ensures
            *component == self.instance(),
    {
        &self.component
    }

    /// The lifecycle state of the element.
    pub fn state(&self) -> (state: ElementState)
        ensures
            state@ == self.lifecycle(),
            state@.wf(),
    {
        let state = self.state;
        let _ = state.phase();
        state
    }

    /// Routes one signal of the platform to the component and moves the
    /// lifecycle on. For each event that the lifecycle owes for the signal,
    /// in order, the hook that stands for it is called once with the element
    /// `this`, on the component as the call before left it. Where nothing is
    /// owed, the component stays as it was.
    pub fn dispatch(&mut self, this: &HtmlElement, signal: Signal)
        ensures
            final(self).lifecycle() == old(self).lifecycle().step(signal@),
            final(self).lifecycle().wf(),
            final(self).observed() == old(self).observed(),
            final(self).styles() == old(self).styles(),
            final(self).styles_attached() == old(self).styles_attached(),
            evolves(
                old(self).instance(),
                old(self).lifecycle().events(signal@, old(self).observed()),
                final(self).instance(),
            ),
            signal is Connected && !old(self).lifecycle().children_injected ==> exists|
                first: &mut T,
                second: &mut T,
            |
                #![trigger
                    call_ensures(T::inject_children, (first, this), ()),
                    call_ensures(T::connected_callback, (second, this), ())]
                *first == old(self).instance() && call_ensures(T::inject_children, (first, this), ())
                    && *second == *final(first) && call_ensures(
                    T::connected_callback,
                    (second, this),
                    (),
                ) && *final(second) == final(self).instance(),
            signal is Connected && old(self).lifecycle().children_injected ==> exists|handle: &mut T|
                *handle == old(self).instance() && *final(handle) == final(self).instance()
                    && #[trigger] call_ensures(T::connected_callback, (handle, this), ()),
            signal is Disconnected ==> exists|handle: &mut T|
                *handle == old(self).instance() && *final(handle) == final(self).instance()
                    && #[trigger] call_ensures(T::disconnected_callback, (handle, this), ()),
            signal is Adopted ==> exists|handle: &mut T|
                *handle == old(self).instance() && *final(handle) == final(self).instance()
                    && #[trigger] call_ensures(T::adopted_callback, (handle, this), ()),
            signal matches Signal::AttributeChanged { name, old_value, new_value } ==> (if old(
                self,
            ).observed().contains(name@) {
                exists|handle: &mut T, given: String, before: Option<String>, after: Option<String>|
                    given@ == name@ && text_view(before) == text_view(old_value) && text_view(after)
                        == text_view(new_value) && *handle == old(self).instance() && *final(handle)
                        == final(self).instance() && #[trigger] call_ensures(
                        T::attribute_changed_callback,
                        (handle, this, given, before, after),
                        (),
                    )
            } else {
                final(self).instance() == old(self).instance()
            }),
    {
        let ghost start = self.component;
        let mut events = self.state.on_signal(signal, &self.observed);
        let ghost owed = events_view(events@);
        if events.len() > 0 {
            let first = events.remove(0);
            let ghost first_view = first@;
            deliver(&mut self.component, this, first);
            let ghost mid = self.component;
            if events.len() > 0 {
                let second = events.remove(0);
                let ghost second_view = second@;
                deliver(&mut self.component, this, second);
                proof {
                    lemma_evolves_single(start, first_view, mid);
                    lemma_evolves_single(mid, second_view, self.component);
                    lemma_evolves_concat(
                        start,
                        mid,
                        self.component,
                        seq![first_view],
                        seq![second_view],
                    );
                    assert(seq![first_view] + seq![second_view] =~= owed);
                }
            } else {
                proof {
                    lemma_evolves_single(start, first_view, mid);
                    assert(seq![first_view] =~= owed);
                }
            }
        } else {
            assert(owed =~= Seq::<EventView>::empty());
        }
    }

    /// The element became part of a connected document: on the first
    /// connection the component's `inject_children` is called, once; then,
    /// as on every connection, its `connected_callback` is called, once, on
    /// the component as the injection left it. Both get the element `this`.
    pub fn connected_callback(&mut self, this: &HtmlElement)
        ensures
            final(self).lifecycle() == old(self).lifecycle().step(SignalView::Connected),
            final(self).lifecycle().wf(),
            final(self).observed() == old(self).observed(),
            final(self).styles() == old(self).styles(),
            final(self).styles_attached() == old(self).styles_attached(),
            evolves(
                old(self).instance(),
                old(self).lifecycle().events(SignalView::Connected, old(self).observed()),
                final(self).instance(),
            ),
            !old(self).lifecycle().children_injected ==> exists|first: &mut T, second: &mut T|
                #![trigger
                    call_ensures(T::inject_children, (first, this), ()),
                    call_ensures(T::connected_callback, (second, this), ())]
                *first == old(self).instance() && call_ensures(T::inject_children, (first, this), ())
                    && *second == *final(first) && call_ensures(
                    T::connected_callback,
                    (second, this),
                    (),
                ) && *final(second) == final(self).instance(),
            old(self).lifecycle().children_injected ==> exists|handle: &mut T|
                *handle == old(self).instance() && *final(handle) == final(self).instance()
                    && #[trigger] call_ensures(T::connected_callback, (handle, this), ()),
    {
        self.dispatch(this, Signal::Connected)
    }

    /// The element was removed from its document: the component's
    /// `disconnected_callback` is called, once, with the element `this`.
    pub fn disconnected_callback(&mut self, this: &HtmlElement)
        ensures
            final(self).lifecycle() == old(self).lifecycle().step(SignalView::Disconnected),
            final(self).lifecycle().wf(),
            final(self).observed() == old(self).observed(),
            final(self).styles() == old(self).styles(),
            final(self).styles_attached() == old(self).styles_attached(),
            evolves(old(self).instance(), seq![EventView::Disconnected], final(self).instance()),
            exists|handle: &mut T|
                *handle == old(self).instance() && *final(handle) == final(self).instance()
                    && #[trigger] call_ensures(T::disconnected_callback, (handle, this), ()),
    {
        self.dispatch(this, Signal::Disconnected)
    }

    /// The element moved to another document: the component's
    /// `adopted_callback` is called, once, with the element `this`. The
    /// lifecycle stays where it was.
    pub fn adopted_callback(&mut self, this: &HtmlElement)
        ensures
            final(self).lifecycle() == old(self).lifecycle(),
            final(self).lifecycle().wf(),
            final(self).observed() == old(self).observed(),
            final(self).styles() == old(self).styles(),
            final(self).styles_attached() == old(self).styles_attached(),
            evolves(old(self).instance(), seq![EventView::Adopted], final(self).instance()),
            exists|handle: &mut T|
                *handle == old(self).instance() && *final(handle) == final(self).instance()
                    && #[trigger] call_ensures(T::adopted_callback, (handle, this), ()),
    {
        self.dispatch(this, Signal::Adopted)
    }

    /// An attribute of the element was added, removed or changed. If the
    /// attribute is observed, the component's `attribute_changed_callback` is
    /// called, once, with the element `this`, the name and both values as
    /// they came. If it is not, no hook is called and the component stays as
    /// it was.
    pub fn attribute_changed_callback(
        &mut self,
        this: &HtmlElement,
        name: String,
        old_value: Option<String>,
        new_value: Option<String>,
    )
        ensures
            final(self).lifecycle() == old(self).lifecycle(),
            final(self).lifecycle().wf(),
            final(self).observed() == old(self).observed(),
            final(self).styles() == old(self).styles(),
            final(self).styles_attached() == old(self).styles_attached(),
            evolves(
                old(self).instance(),
                if old(self).observed().contains(name@) {
                    seq![
                        EventView::AttributeChanged {
                            name: name@,
                            old_value: text_view(old_value),
                            new_value: text_view(new_value),
                        },
                    ]
                } else {
                    seq![]
                },
                final(self).instance(),
            ),
            if old(self).observed().contains(name@) {
                exists|handle: &mut T, given: String, before: Option<String>, after: Option<String>|
                    given@ == name@ && text_view(before) == text_view(old_value) && text_view(after)
                        == text_view(new_value) && *handle == old(self).instance() && *final(handle)
                        == final(self).instance() && #[trigger] call_ensures(
                        T::attribute_changed_callback,
                        (handle, this, given, before, after),
                        (),
                    )
            } else {
                final(self).instance() == old(self).instance()
            },
    {
        self.dispatch(this, Signal::AttributeChanged { name, old_value, new_value })
    }
}

} // verus!
