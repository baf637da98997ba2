//! The registration of a tag: the record of what the platform is told once,
//! before any element of the tag exists.
use vstd::prelude::*;
use wasm_bindgen::JsValue;
use web_sys::HtmlElement;
use crate::component::{delivered, GenericCustomElement};
use crate::dispatcher::Dispatcher;
use crate::event::{names_view, str_view, strs_view, text_view, EventView};
use crate::lifecycle::Lifecycle;
use crate::presentation::declared_styles;

verus! {

/// The mathematical value of a [`Registration`]. The constructor of the
/// superclass stays the platform's own value, held by reference.
pub struct RegistrationView {
    /// The tag under which elements are created.
    pub tag_name: Seq<char>,
    /// Whether each element gets an open shadow root.
    pub shadow: bool,
    /// The attribute names whose changes the component hears of.
    pub observed_attributes: Seq<Seq<char>>,
    /// The tag of the native element that is extended, if any.
    pub superclass_tag: Option<Seq<char>>,
    /// The constructor of the superclass, if one was declared.
    pub superclass_constructor: Option<&'static JsValue>,
    /// The CSS text that each element is styled with, if any.
    pub style: Option<Seq<char>>,
    /// The addresses of the stylesheets that each element links to.
    pub style_urls: Seq<Seq<char>>,
}

/// What is declared of a tag when it is defined. Nothing changes it
/// afterwards: it has no method that takes it by `&mut`.
#[derive(Debug)]
pub struct Registration {
    tag_name: String,
    shadow: bool,
    observed_attributes: Vec<String>,
    superclass_tag: Option<String>,
    superclass_constructor: Option<&'static JsValue>,
    style: Option<String>,
    style_urls: Vec<String>,
}

impl View for Registration {
    type V = RegistrationView;

    closed spec fn view(&self) -> RegistrationView {
        RegistrationView {
            tag_name: self.tag_name@,
            shadow: self.shadow,
            observed_attributes: names_view(self.observed_attributes@),
            superclass_tag: text_view(self.superclass_tag),
            superclass_constructor: self.superclass_constructor,
            style: text_view(self.style),
            style_urls: names_view(self.style_urls@),
        }
    }
}

/// An owned copy of a name, if there is one.
fn owned_name(name: Option<&str>) -> (owned: Option<String>)
    ensures
        text_view(owned) == str_view(name),
{
    match name {
        Some(name) => Some(name.to_owned()),
        None => None,
    }
}

/// An owned copy of each name, in order.
fn owned_names(names: &[&str]) -> (owned: Vec<String>)
    ensures
        names_view(owned@) == strs_view(names@),
{
    let mut owned: Vec<String> = Vec::new();
    let mut i: usize = 0;
    while i < names.len()
        invariant
            i <= names.len(),
            owned@.len() == i,
            forall|j: int| 0 <= j < i ==> owned@[j]@ == names@[j]@,
        decreases names.len() - i,
    {
        owned.push(names[i].to_owned());
        i += 1;
    }
    assert(names_view(owned@) =~= strs_view(names@));
    owned
}

/// Builds the registration of `tag_name`: the record that the platform's
/// registry is handed when the tag is defined. `superclass` is the tag of the
/// native element to extend and that element's constructor; both are `None`
/// for an autonomous element. The names in `observed_attributes` are fixed
/// here, for every element of the tag. No styles are declared: see
/// [`Registration::with_styles`]. The registration is for the host to hand to
/// the platform: by itself this function registers nothing.
#[must_use]
pub fn define_custom_tag(
    tag_name: &str,
    superclass: (Option<&'static str>, Option<&'static JsValue>),
    observed_attributes: &[&str],
    shadow: bool,
) -> (registration: Registration)
    ensures
        registration@ == (RegistrationView {
            tag_name: tag_name@,
            shadow,
            observed_attributes: strs_view(observed_attributes@),
            superclass_tag: str_view(superclass.0),
            superclass_constructor: superclass.1,
            style: None,
            style_urls: Seq::empty(),
        }),
{
    let registration = Registration {
        tag_name: tag_name.to_owned(),
        shadow,
        observed_attributes: owned_names(observed_attributes),
        superclass_tag: owned_name(superclass.0),
        superclass_constructor: superclass.1,
        style: None,
        style_urls: Vec::new(),
    };
    assert(names_view(registration.style_urls@) =~= Seq::empty());
    registration
}

impl Registration {
    /// The same registration with the styles that each element of the tag
    /// gets before its children: the CSS text `style`, if any, and a link to
    /// each of `style_urls`.
    pub fn with_styles(self, style: Option<&str>, style_urls: &[&str]) -> (registration: Registration)
        ensures
            registration@ == (RegistrationView {
                style: str_view(style),
                style_urls: strs_view(style_urls@),
                ..self@
            }),
    {
        Registration {
            tag_name: self.tag_name,
            shadow: self.shadow,
            observed_attributes: self.observed_attributes,
            superclass_tag: self.superclass_tag,
            superclass_constructor: self.superclass_constructor,
            style: owned_name(style),
            style_urls: owned_names(style_urls),
        }
    }

    /// The tag under which elements are created.
    pub fn tag_name(&self) -> (tag_name: &str)
        ensures
            tag_name@ == self@.tag_name,
    {
        self.tag_name.as_str()
    }

    /// Whether each element gets an open shadow root.
    pub fn shadow(&self) -> (shadow: bool)
        ensures
            shadow == self@.shadow,
    {
        self.shadow
    }

    /// The attribute names whose changes the component hears of.
    pub fn observed_attributes(&self) -> (names: &Vec<String>)
        ensures
            names_view(names@) == self@.observed_attributes,
    {
        &self.observed_attributes
    }

    /// The tag of the native element that is extended, if any.
    pub fn superclass_tag(&self) -> (tag: Option<&str>)
        ensures
            str_view(tag) == self@.superclass_tag,
    {
        match &self.superclass_tag {
            Some(tag) => Some(tag.as_str()),
            None => None,
        }
    }

    /// The CSS text that each element is styled with, if any.
    pub fn style(&self) -> (style: Option<&str>)
        ensures
            str_view(style) == self@.style,
    {
        match &self.style {
            Some(css) => Some(css.as_str()),
            None => None,
        }
    }

    /// The addresses of the stylesheets that each element links to.
    pub fn style_urls(&self) -> (urls: &Vec<String>)
        ensures
            names_view(urls@) == self@.style_urls,
    {
        &self.style_urls
    }

    /// The constructor of the superclass, if one was declared.
    pub fn superclass_constructor(&self) -> (constructor: Option<&'static JsValue>)
        ensures
            constructor == self@.superclass_constructor,
    {
        self.superclass_constructor
    }

    /// Makes the dispatcher of one new element of the tag: it takes charge of
    /// `component`, calls its construction hook, once, with the element
    /// `this`, and observes the registered attribute names. The registration
    /// itself stays as it is, however many elements are made.
    pub fn instantiate<T: GenericCustomElement>(&self, component: T, this: &HtmlElement) -> (dispatcher:
        Dispatcher<T>)
        ensures
            dispatcher.lifecycle() == Lifecycle::initial(),
            dispatcher.observed() == self@.observed_attributes,
            dispatcher.styles() == declared_styles(self@.style, self@.style_urls),
            !dispatcher.styles_attached(),
            delivered(component, EventView::Constructed, dispatcher.instance()),
            exists|handle: &mut T|
                *handle == component && *final(handle) == dispatcher.instance() && #[trigger] call_ensures(
                    T::constructor,
                    (handle, this),
                    (),
                ),
    {
        Dispatcher::construct(component, self, this)
    }

    /// Makes the dispatcher of one new element of the tag as
    /// [`instantiate`](Registration::instantiate) does, for a component that
    /// `initializer` makes: the factory is called once, here, so that each
    /// element gets a component of its own.
    pub fn instantiate_with<T: GenericCustomElement, F: FnOnce() -> T>(
        &self,
        initializer: F,
        this: &HtmlElement,
    ) -> (dispatcher: Dispatcher<T>)
        requires
            initializer.requires(()),
        ensures
            dispatcher.lifecycle() == Lifecycle::initial(),
            dispatcher.observed() == self@.observed_attributes,
            dispatcher.styles() == declared_styles(self@.style, self@.style_urls),
            !dispatcher.styles_attached(),
            exists|component: T, handle: &mut T|
                #![trigger initializer.ensures((), component), call_ensures(T::constructor, (handle, this), ())]
                initializer.ensures((), component) && delivered(
                    component,
                    EventView::Constructed,
                    dispatcher.instance(),
                ) && *handle == component && *final(handle) == dispatcher.instance() && call_ensures(
                    T::constructor,
                    (handle, this),
                    (),
                ),
    {
        let component = initializer();
        self.instantiate(component, this)
    }
}

} // verus!
