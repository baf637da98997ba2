use custom_elements::{
    define_custom_tag, Container, Dispatcher, GenericCustomElement, Host, Phase, Registration, Signal,
};
use wasm_bindgen::{JsCast, JsValue};
use web_sys::HtmlElement;

fn handle() -> HtmlElement {
    JsValue::NULL.unchecked_into()
}

fn text(s: &str) -> Option<String> {
    Some(s.to_string())
}

/// Records every hook that is called on it.
struct Probe {
    calls: Vec<String>,
}

impl Probe {
    fn new() -> Probe {
        Probe { calls: Vec::new() }
    }
}

impl GenericCustomElement for Probe {
    fn inject_children(&mut self, _this: &HtmlElement) {
        self.calls.push("inject_children".to_string());
    }

    fn constructor(&mut self, _this: &HtmlElement) {
        self.calls.push("constructor".to_string());
    }

    fn connected_callback(&mut self, _this: &HtmlElement) {
        self.calls.push("connected".to_string());
    }

    fn disconnected_callback(&mut self, _this: &HtmlElement) {
        self.calls.push("disconnected".to_string());
    }

    fn adopted_callback(&mut self, _this: &HtmlElement) {
        self.calls.push("adopted".to_string());
    }

    fn attribute_changed_callback(
        &mut self,
        _this: &HtmlElement,
        name: String,
        old_value: Option<String>,
        new_value: Option<String>,
    ) {
        self.calls.push(format!("attribute {} {:?} {:?}", name, old_value, new_value));
    }
}

/// Shows a name, or "friend" where none is set.
struct Greeter {
    content: String,
    injected: bool,
}

impl GenericCustomElement for Greeter {
    fn inject_children(&mut self, _this: &HtmlElement) {
        self.injected = true;
    }

    fn attribute_changed_callback(
        &mut self,
        _this: &HtmlElement,
        name: String,
        _old_value: Option<String>,
        new_value: Option<String>,
    ) {
        if name == "name" {
            self.content = new_value.unwrap_or_else(|| "friend".to_string());
        }
    }
}

/// Implements the required hook only.
struct Inert {
    injections: u32,
}

impl GenericCustomElement for Inert {
    fn inject_children(&mut self, _this: &HtmlElement) {
        self.injections += 1;
    }
}

fn observing(names: &[&str]) -> Registration {
    define_custom_tag("ce-probe", (None, None), names, true)
}

#[test]
fn construction_delivers_the_constructor_hook() {
    let this = handle();
    let dispatcher = Dispatcher::construct(Probe::new(), &observing(&[]), &this);
    assert_eq!(dispatcher.component().calls, vec!["constructor"]);
    assert_eq!(dispatcher.state().phase(), Phase::Constructed);
}

#[test]
fn children_are_injected_once_and_before_the_first_connection() {
    let this = handle();
    let mut dispatcher = Dispatcher::construct(Probe::new(), &observing(&[]), &this);
    dispatcher.connected_callback(&this);
    dispatcher.disconnected_callback(&this);
    dispatcher.connected_callback(&this);
    dispatcher.connected_callback(&this);
    assert_eq!(
        dispatcher.component().calls,
        vec![
            "constructor",
            "inject_children",
            "connected",
            "disconnected",
            "connected",
            "connected"
        ]
    );
    assert_eq!(dispatcher.state().phase(), Phase::Connected);
}

#[test]
fn every_hook_reaches_the_same_instance_in_order() {
    let this = handle();
    let mut dispatcher = Dispatcher::construct(Probe::new(), &observing(&["name"]), &this);
    dispatcher.attribute_changed_callback(&this, "name".to_string(), None, text("Alice"));
    dispatcher.attribute_changed_callback(&this, "name".to_string(), text("Alice"), text("Bob"));
    dispatcher.adopted_callback(&this);
    assert_eq!(
        dispatcher.component().calls,
        vec![
            "constructor".to_string(),
            "attribute name None Some(\"Alice\")".to_string(),
            "attribute name Some(\"Alice\") Some(\"Bob\")".to_string(),
            "adopted".to_string(),
        ]
    );
}

#[test]
fn unobserved_attributes_do_not_reach_the_component() {
    let this = handle();
    let mut dispatcher = Dispatcher::construct(Probe::new(), &observing(&["name"]), &this);
    dispatcher.attribute_changed_callback(&this, "class".to_string(), None, text("big"));
    assert_eq!(dispatcher.component().calls, vec!["constructor"]);
}

#[test]
fn dispatch_routes_each_signal() {
    let this = handle();
    let mut dispatcher = Dispatcher::construct(Probe::new(), &observing(&["name"]), &this);
    dispatcher.dispatch(&this, Signal::Adopted);
    dispatcher.dispatch(&this, Signal::Connected);
    dispatcher.dispatch(
        &this,
        Signal::AttributeChanged { name: "name".to_string(), old_value: None, new_value: None },
    );
    dispatcher.dispatch(&this, Signal::Disconnected);
    assert_eq!(
        dispatcher.component().calls,
        vec![
            "constructor",
            "adopted",
            "inject_children",
            "connected",
            "attribute name None None",
            "disconnected"
        ]
    );
    assert_eq!(dispatcher.state().phase(), Phase::Disconnected);
}

#[test]
fn two_elements_of_one_tag_are_independent() {
    let this = handle();
    let names = ["name"];
    let registration = define_custom_tag("ce-demo", (None, None), &names, true);
    let greeter = || Greeter { content: "friend".to_string(), injected: false };
    let mut a = registration.instantiate(greeter(), &this);
    let mut b = registration.instantiate(greeter(), &this);
    a.connected_callback(&this);
    a.attribute_changed_callback(&this, "name".to_string(), None, text("Alice"));
    assert_eq!(a.component().content, "Alice");
    assert!(a.component().injected);
    assert_eq!(b.component().content, "friend");
    assert!(!b.component().injected);
    assert_eq!(b.state().phase(), Phase::Constructed);
    b.attribute_changed_callback(&this, "name".to_string(), None, text("Bob"));
    assert_eq!(a.component().content, "Alice");
    assert_eq!(b.component().content, "Bob");
    assert_eq!(registration.observed_attributes(), &vec!["name".to_string()]);
}

#[test]
fn greeter_follows_its_name_attribute() {
    let this = handle();
    let names = ["name"];
    let registration = define_custom_tag("ce-demo", (None, None), &names, true);
    assert!(registration.shadow());
    let mut element =
        registration.instantiate(Greeter { content: "friend".to_string(), injected: false }, &this);
    element.connected_callback(&this);
    assert_eq!(element.component().content, "friend");
    element.attribute_changed_callback(&this, "name".to_string(), None, text("Alice"));
    assert_eq!(element.component().content, "Alice");
    element.attribute_changed_callback(&this, "name".to_string(), text("Alice"), None);
    assert_eq!(element.component().content, "friend");
}

#[test]
fn greeter_hears_absent_and_present_values() {
    let this = handle();
    let names = ["name"];
    let registration = define_custom_tag("ce-demo", (None, None), &names, true);
    let mut element = registration.instantiate(Probe::new(), &this);
    element.attribute_changed_callback(&this, "name".to_string(), None, text("Alice"));
    element.attribute_changed_callback(&this, "name".to_string(), text("Alice"), None);
    assert_eq!(
        element.component().calls,
        vec![
            "constructor".to_string(),
            "attribute name None Some(\"Alice\")".to_string(),
            "attribute name Some(\"Alice\") None".to_string(),
        ]
    );
}

#[test]
fn optional_hooks_are_inert_by_default() {
    let this = handle();
    let mut dispatcher = Dispatcher::construct(Inert { injections: 0 }, &observing(&["name"]), &this);
    dispatcher.adopted_callback(&this);
    dispatcher.attribute_changed_callback(&this, "name".to_string(), None, text("x"));
    dispatcher.disconnected_callback(&this);
    assert_eq!(dispatcher.component().injections, 0);
    dispatcher.connected_callback(&this);
    dispatcher.disconnected_callback(&this);
    dispatcher.connected_callback(&this);
    assert_eq!(dispatcher.component().injections, 1);
}

#[test]
fn declared_styles_are_attached_once() {
    let this = handle();
    let registration = observing(&[]).with_styles(Some("p { color: green; }"), &["a.css", "b.css"]);
    let mut dispatcher = registration.instantiate(Probe::new(), &this);

    let mut host = Host::new(true);
    dispatcher.inject_pending_styles(&mut host);
    assert!(host.children().is_empty());
    assert_eq!(
        host.shadow_children().unwrap(),
        &vec![
            Container::style("p { color: green; }"),
            Container::stylesheet("a.css"),
            Container::stylesheet("b.css"),
        ]
    );
    dispatcher.connected_callback(&this);

    let mut later = Host::new(true);
    dispatcher.inject_pending_styles(&mut later);
    assert!(later.shadow_children().unwrap().is_empty());
    dispatcher.disconnected_callback(&this);
    dispatcher.inject_pending_styles(&mut later);
    dispatcher.connected_callback(&this);
    assert!(later.shadow_children().unwrap().is_empty());
    assert!(later.children().is_empty());
    assert_eq!(
        dispatcher.component().calls,
        vec!["constructor", "inject_children", "connected", "disconnected", "connected"]
    );
}

#[test]
fn declared_styles_asked_for_late_are_still_attached_once() {
    let this = handle();
    let registration = observing(&[]).with_styles(Some("p {}"), &[]);
    let mut dispatcher = registration.instantiate(Probe::new(), &this);
    dispatcher.connected_callback(&this);

    let mut host = Host::new(true);
    dispatcher.inject_pending_styles(&mut host);
    assert_eq!(host.shadow_children().unwrap(), &vec![Container::style("p {}")]);
    dispatcher.inject_pending_styles(&mut host);
    assert_eq!(host.shadow_children().unwrap().len(), 1);
    assert_eq!(dispatcher.component().calls, vec!["constructor", "inject_children", "connected"]);
}

#[test]
fn no_declared_styles_attach_nothing() {
    let this = handle();
    let mut dispatcher = Dispatcher::construct(Probe::new(), &observing(&["name"]), &this);
    let mut host = Host::new(false);
    dispatcher.inject_pending_styles(&mut host);
    assert!(host.children().is_empty());
    assert!(host.shadow_children().is_none());
}

#[test]
fn declared_styles_go_to_the_element_without_a_shadow_root() {
    let this = handle();
    let registration = define_custom_tag("ce-light", (None, None), &[], false).with_styles(None, &["site.css"]);
    let mut dispatcher = registration.instantiate(Probe::new(), &this);
    let mut host = Host::new(false);
    dispatcher.inject_pending_styles(&mut host);
    assert_eq!(host.children(), &vec![Container::stylesheet("site.css")]);
}

/// Remembers the address of each element that a hook was handed.
struct Witness {
    seen: Vec<String>,
}

impl GenericCustomElement for Witness {
    fn inject_children(&mut self, this: &HtmlElement) {
        self.seen.push(format!("inject_children {:p}", this));
    }

    fn constructor(&mut self, this: &HtmlElement) {
        self.seen.push(format!("constructor {:p}", this));
    }

    fn connected_callback(&mut self, this: &HtmlElement) {
        self.seen.push(format!("connected {:p}", this));
    }

    fn adopted_callback(&mut self, this: &HtmlElement) {
        self.seen.push(format!("adopted {:p}", this));
    }
}

#[test]
fn each_hook_is_handed_the_element_of_its_callback() {
    let first = handle();
    let second = handle();
    let third = handle();
    let mut dispatcher = Dispatcher::construct(Witness { seen: Vec::new() }, &observing(&[]), &first);
    dispatcher.connected_callback(&second);
    dispatcher.adopted_callback(&third);
    assert_eq!(
        dispatcher.component().seen,
        vec![
            format!("constructor {:p}", &first),
            format!("inject_children {:p}", &second),
            format!("connected {:p}", &second),
            format!("adopted {:p}", &third),
        ]
    );
}

#[test]
fn each_connection_calls_the_connection_hook_once() {
    let this = handle();
    let mut dispatcher = Dispatcher::construct(Probe::new(), &observing(&[]), &this);
    for _ in 0..5 {
        dispatcher.connected_callback(&this);
        dispatcher.disconnected_callback(&this);
    }
    let calls = &dispatcher.component().calls;
    assert_eq!(calls.iter().filter(|call| *call == "connected").count(), 5);
    assert_eq!(calls.iter().filter(|call| *call == "disconnected").count(), 5);
    assert_eq!(calls.iter().filter(|call| *call == "inject_children").count(), 1);
    assert_eq!(calls.iter().filter(|call| *call == "constructor").count(), 1);
    assert_eq!(calls.len(), 12);
}
