use std::sync::atomic::{AtomicUsize, Ordering};
use std::sync::Mutex;

use custom_elements::{define_custom_tag, CustomElement, GenericCustomElement};
use wasm_bindgen::JsValue;
use web_sys::HtmlElement;

#[derive(Default)]
struct Plain;

impl GenericCustomElement for Plain {
    fn inject_children(&mut self, _this: &HtmlElement) {}
}

impl CustomElement for Plain {}

#[derive(Default)]
struct Named;

impl GenericCustomElement for Named {
    fn inject_children(&mut self, _this: &HtmlElement) {}
}

impl CustomElement for Named {
    fn shadow() -> bool {
        false
    }

    fn observed_attributes() -> &'static [&'static str] {
        &["name", "title"]
    }

    fn style() -> Option<&'static str> {
        Some("p { color: green; }")
    }

    fn style_urls() -> &'static [&'static str] {
        &["a.css", "b.css"]
    }
}

static QUERIES: AtomicUsize = AtomicUsize::new(0);
static DECLARED_CONSTRUCTOR: Mutex<String> = Mutex::new(String::new());

/// Extends the native paragraph element.
#[derive(Default)]
struct Paragraph;

impl GenericCustomElement for Paragraph {
    fn inject_children(&mut self, _this: &HtmlElement) {}
}

impl CustomElement for Paragraph {
    fn superclass() -> (Option<&'static str>, Option<&'static JsValue>) {
        let constructor: &'static JsValue = Box::leak(Box::new(JsValue::NULL));
        *DECLARED_CONSTRUCTOR.lock().unwrap() = format!("{:p}", constructor);
        (Some("p"), Some(constructor))
    }
}

#[derive(Default)]
struct Counted;

impl GenericCustomElement for Counted {
    fn inject_children(&mut self, _this: &HtmlElement) {}
}

impl CustomElement for Counted {
    fn observed_attributes() -> &'static [&'static str] {
        QUERIES.fetch_add(1, Ordering::SeqCst);
        &["name"]
    }
}

fn leaked_constructor() -> &'static JsValue {
    Box::leak(Box::new(JsValue::NULL))
}

#[test]
fn define_custom_tag_records_what_it_is_given() {
    let names = ["name"];
    let registration = define_custom_tag("ce-demo", (None, None), &names, true);
    assert_eq!(registration.tag_name(), "ce-demo");
    assert!(registration.shadow());
    assert_eq!(registration.observed_attributes(), &vec!["name".to_string()]);
    assert_eq!(registration.superclass_tag(), None);
    assert!(registration.superclass_constructor().is_none());
    assert_eq!(registration.style(), None);
    assert!(registration.style_urls().is_empty());
}

#[test]
fn with_styles_sets_the_styles_and_keeps_the_rest() {
    let constructor = leaked_constructor();
    let names = ["name"];
    let registration = define_custom_tag("ce-demo", (Some("p"), Some(constructor)), &names, false)
        .with_styles(Some("p {}"), &["one.css", "two.css"]);
    assert_eq!(registration.style(), Some("p {}"));
    assert_eq!(registration.style_urls(), &vec!["one.css".to_string(), "two.css".to_string()]);
    assert_eq!(registration.tag_name(), "ce-demo");
    assert!(!registration.shadow());
    assert_eq!(registration.observed_attributes(), &vec!["name".to_string()]);
    assert_eq!(registration.superclass_tag(), Some("p"));
    assert!(std::ptr::eq(registration.superclass_constructor().unwrap(), constructor));
    let cleared = registration.with_styles(None, &[]);
    assert_eq!(cleared.style(), None);
    assert!(cleared.style_urls().is_empty());
    assert_eq!(cleared.tag_name(), "ce-demo");
}

#[test]
fn define_custom_tag_keeps_the_order_of_attributes() {
    let names = ["b", "a", "b"];
    let registration = define_custom_tag("x-y", (None, None), &names, false);
    assert!(!registration.shadow());
    assert_eq!(
        registration.observed_attributes(),
        &vec!["b".to_string(), "a".to_string(), "b".to_string()]
    );
}

#[test]
fn customized_built_in_element_extends_its_native_tag() {
    let constructor = leaked_constructor();
    let registration = define_custom_tag("purple-paragraph", (Some("p"), Some(constructor)), &[], true);
    assert_eq!(registration.tag_name(), "purple-paragraph");
    assert_eq!(registration.superclass_tag(), Some("p"));
    let kept = registration.superclass_constructor().unwrap();
    assert!(std::ptr::eq(kept, constructor));
    assert!(registration.observed_attributes().is_empty());
}

#[test]
fn component_defaults_are_shadow_without_attributes_or_superclass() {
    assert!(Plain::shadow());
    assert!(Plain::observed_attributes().is_empty());
    let (tag, constructor) = Plain::superclass();
    assert_eq!(tag, None);
    assert!(constructor.is_none());
    assert_eq!(Plain::style(), None);
    assert!(Plain::style_urls().is_empty());
    let registration = Plain::define("plain-element");
    assert_eq!(registration.tag_name(), "plain-element");
    assert!(registration.shadow());
    assert!(registration.observed_attributes().is_empty());
    assert_eq!(registration.superclass_tag(), None);
    assert!(registration.superclass_constructor().is_none());
}

#[test]
fn define_reads_the_declarations_of_the_component() {
    let registration = Named::define("named-element");
    assert_eq!(registration.tag_name(), "named-element");
    assert!(!registration.shadow());
    assert_eq!(
        registration.observed_attributes(),
        &vec!["name".to_string(), "title".to_string()]
    );
    assert_eq!(registration.style(), Some("p { color: green; }"));
    assert_eq!(registration.style_urls(), &vec!["a.css".to_string(), "b.css".to_string()]);
}

#[test]
fn instances_do_not_change_the_registration() {
    let this: HtmlElement = wasm_bindgen::JsCast::unchecked_into(JsValue::NULL);
    let registration = Named::define("named-element");
    for _ in 0..3 {
        let mut element = registration.instantiate(Named, &this);
        element.connected_callback(&this);
        element.attribute_changed_callback(&this, "name".to_string(), None, Some("x".to_string()));
    }
    assert_eq!(
        registration.observed_attributes(),
        &vec!["name".to_string(), "title".to_string()]
    );
}

#[test]
fn observed_attributes_are_queried_once_however_many_instances() {
    let this: HtmlElement = wasm_bindgen::JsCast::unchecked_into(JsValue::NULL);
    let registration = Counted::define("counted-element");
    assert_eq!(QUERIES.load(Ordering::SeqCst), 1);
    for _ in 0..4 {
        let mut element = registration.instantiate(Counted, &this);
        element.connected_callback(&this);
        element.attribute_changed_callback(&this, "name".to_string(), None, Some("x".to_string()));
        element.disconnected_callback(&this);
    }
    assert_eq!(QUERIES.load(Ordering::SeqCst), 1);
    assert_eq!(registration.observed_attributes(), &vec!["name".to_string()]);
}

#[test]
fn define_passes_on_the_declared_superclass() {
    let registration = Paragraph::define("purple-paragraph");
    assert_eq!(registration.tag_name(), "purple-paragraph");
    assert_eq!(registration.superclass_tag(), Some("p"));
    let kept = registration.superclass_constructor().unwrap();
    assert_eq!(format!("{:p}", kept), *DECLARED_CONSTRUCTOR.lock().unwrap());
    assert!(registration.shadow());
    assert!(registration.observed_attributes().is_empty());
    assert_eq!(registration.style(), None);
    assert!(registration.style_urls().is_empty());
}

#[test]
fn instantiate_with_calls_the_factory_once_for_each_element() {
    let this: HtmlElement = wasm_bindgen::JsCast::unchecked_into(JsValue::NULL);
    let registration = Named::define("named-element");
    let made = AtomicUsize::new(0);
    for expected in 1..4 {
        let mut element = registration.instantiate_with(
            || {
                made.fetch_add(1, Ordering::SeqCst);
                Named
            },
            &this,
        );
        assert_eq!(made.load(Ordering::SeqCst), expected);
        element.connected_callback(&this);
        element.disconnected_callback(&this);
        assert_eq!(made.load(Ordering::SeqCst), expected);
    }
}
