//! The values that cross the registry's boundary: a request made by the host
//! and the response that an extension gives.

use vstd::prelude::*;

verus! {

/// What a request says, as plain sequences of characters.
pub ghost struct RequestView {
    pub prompt: Seq<char>,
    pub extension_id: Seq<char>,
}

/// What a response says, as plain values.
pub ghost struct ResponseView {
    pub success: bool,
    pub content: Seq<char>,
    pub extension_name: Seq<char>,
}

/// A prompt addressed to the extension with the given identifier.
#[derive(Debug)]
pub struct ExtensionRequest {
    pub prompt: String,
    pub extension_id: String,
}

/// What an extension answers. A `success` of `false` is the extension's own
/// way of saying that it could not serve the request; the registry hands it
/// on like any other response.
#[derive(Debug)]
pub struct ExtensionResponse {
    pub success: bool,
    pub content: String,
    pub extension_name: String,
}

impl View for ExtensionRequest {
    type V = RequestView;

    open spec fn view(&self) -> RequestView {
        RequestView { prompt: self.prompt@, extension_id: self.extension_id@ }
    }
}

impl View for ExtensionResponse {
    type V = ResponseView;

    open spec fn view(&self) -> ResponseView {
        ResponseView {
            success: self.success,
            content: self.content@,
            extension_name: self.extension_name@,
        }
    }
}

impl Clone for ExtensionRequest {
    fn clone(&self) -> (copy: Self)
        ensures
            copy@ == self@,
    {
        ExtensionRequest { prompt: self.prompt.clone(), extension_id: self.extension_id.clone() }
    }
}

impl Clone for ExtensionResponse {
    fn clone(&self) -> (copy: Self)
        ensures
            copy@ == self@,
    {
        ExtensionResponse {
            success: self.success,
            content: self.content.clone(),
            extension_name: self.extension_name.clone(),
        }
    }
}

} // verus!
