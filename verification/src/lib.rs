//! A bridge between components written in Rust and the Custom Elements
//! lifecycle of the web platform.
//!
//! A component implements [`GenericCustomElement`]; one that can be made by
//! `default()` also implements [`CustomElement`] and declares what its tag is
//! registered with. [`define_custom_tag`] builds the [`Registration`] of a
//! tag. For each element that the platform instantiates,
//! [`Registration::instantiate`] makes a [`Dispatcher`]: it owns the
//! element's component and routes each [`Signal`] of the platform to it as
//! the [`LifecycleEvent`]s that the [`Lifecycle`] owes, the injection of
//! children once and before the first connection. [`inject_style`] and
//! [`inject_stylesheet`] say which container a style becomes and where under
//! an element it goes.
//!
//! The library decides; it does not touch the document. Its host registers
//! the tag with the platform, calls the dispatcher from the element's
//! callbacks, and creates and appends the containers that a [`Host`] holds.
//!
//! Everything here is verified with Verus but for two things, which are
//! taken on trust: the platform's types in [`platform`], of which nothing is
//! claimed, and the word of a component on how its hooks change it (see
//! [`GenericCustomElement::reacts`]) and on what it declares of its tag (see
//! [`CustomElement::declares`]).
pub mod component;
pub mod dispatcher;
pub mod event;
pub mod lifecycle;
pub mod platform;
pub mod presentation;
pub mod registration;

pub use component::{CustomElement, Declaration, GenericCustomElement};
pub use dispatcher::{deliver, Dispatcher};
pub use event::{EventView, LifecycleEvent, Signal, SignalView};
pub use lifecycle::{is_observed, ElementState, Lifecycle, Phase};
pub use registration::{define_custom_tag, Registration, RegistrationView};
pub use presentation::{
    inject_declared_styles, inject_style, inject_stylesheet, Container, ContainerView, Host, HostView,
};
