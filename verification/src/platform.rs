//! The platform's own values that the bridge carries through without looking
//! inside them.
use vstd::prelude::*;

verus! {

/// `web_sys::HtmlElement`: a live element of the document. The bridge borrows
/// it from the platform for the length of one callback and passes it on to
/// the component. Nothing is claimed of what it holds.
#[verifier::external_type_specification]
#[verifier::external_body]
pub struct ExHtmlElement(web_sys::HtmlElement);

/// `wasm_bindgen::JsValue`: any value of the platform, here the constructor
/// of a native element class. The bridge keeps a reference to it in a
/// registration and hands it back. Nothing is claimed of what it holds.
#[verifier::external_type_specification]
#[verifier::external_body]
pub struct ExJsValue(wasm_bindgen::JsValue);

} // verus!
