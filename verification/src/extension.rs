//! The capability that every extension offers, and the echo extension that
//! serves to try the wiring.

use vstd::prelude::*;
use vstd::string::*;
use crate::types::{ExtensionRequest, ExtensionResponse, RequestView, ResponseView};

verus! {

/// A unit of behaviour with an identifier, a display name and one operation:
/// answering a request.
///
/// The three spec functions are the extension's model. The identifier is what
/// dispatch matches on; the name is for display only. The answer is a function
/// of the extension and the request, and it is always a response: an extension
/// that cannot serve a request says so with `success == false`.
///
/// A verified implementation overrides the three spec functions with what its
/// methods return; left as they are they say nothing, and no method can be
/// proved against them. They have bodies so that code outside the verifier can
/// implement the trait by its three methods alone.
pub trait Extension: Send + Sync {
    /// The identifier, never empty.
    open spec fn id(&self) -> Seq<char> {
        arbitrary()
    }

    /// The display name.
    open spec fn name(&self) -> Seq<char> {
        arbitrary()
    }

    /// The answer to a request.
    open spec fn response(&self, request: RequestView) -> ResponseView {
        arbitrary()
    }

    fn get_id(&self) -> (id: &str)
        ensures
            id@ == self.id(),
            id@.len() > 0,
    ;

    fn get_name(&self) -> (name: &str)
        ensures
            name@ == self.name(),
    ;

    fn invoke(&self, request: &ExtensionRequest) -> (response: ExtensionResponse)
        ensures
            response@ == self.response(request@),
    ;
}

/// The identifier of the echo extension.
pub open spec fn echo_id() -> Seq<char> {
    "mock_echo"@
}

/// The display name of the echo extension.
pub open spec fn echo_name() -> Seq<char> {
    "Mock Echo Extension"@
}

/// What the echo extension answers: success, the prompt behind the marker
/// `[Echo] `, and its own display name.
pub open spec fn echo_response(request: RequestView) -> ResponseView {
    ResponseView {
        success: true,
        content: "[Echo] "@ + request.prompt,
        extension_name: echo_name(),
    }
}

/// The echo extension: it gives every prompt back behind a marker.
///
/// Its model is what its two fields hold. They are set once, by `new`, to the
/// echo extension's identifier and display name, and nothing changes them.
pub struct MockExtension {
    id: String,
    name: String,
}

impl MockExtension {
    #[verifier::type_invariant]
    spec fn fixed(self) -> bool {
        self.id@ == echo_id() && self.name@ == echo_name()
    }

    /// The echo extension, with its fixed identifier and display name.
    pub fn new() -> (extension: Self)
        ensures
            extension.id() == echo_id(),
            extension.name() == echo_name(),
            forall|request: RequestView| #[trigger] extension.response(request) == echo_response(request),
    {
        MockExtension {
            id: String::from_str("mock_echo"),
            name: String::from_str("Mock Echo Extension"),
        }
    }
}

impl Default for MockExtension {
    fn default() -> (extension: Self)
        ensures
            extension.id() == echo_id(),
            extension.name() == echo_name(),
    {
        MockExtension::new()
    }
}

impl Extension for MockExtension {
    closed spec fn id(&self) -> Seq<char> {
        self.id@
    }

    closed spec fn name(&self) -> Seq<char> {
        self.name@
    }

    open spec fn response(&self, request: RequestView) -> ResponseView {
        ResponseView {
            success: true,
            content: "[Echo] "@ + request.prompt,
            extension_name: self.name(),
        }
    }

    fn get_id(&self) -> (id: &str)
        ensures
            id@ == echo_id(),
    {
        proof {
            use_type_invariant(self);
            reveal_strlit("mock_echo");
        }
        self.id.as_str()
    }

    fn get_name(&self) -> (name: &str)
        ensures
            name@ == echo_name(),
    {
        proof {
            use_type_invariant(self);
        }
        self.name.as_str()
    }

    fn invoke(&self, request: &ExtensionRequest) -> (response: ExtensionResponse)
        ensures
            response@ == echo_response(request@),
    {
        proof {
            use_type_invariant(self);
        }
        let mut content = String::from_str("[Echo] ");
        content.append(request.prompt.as_str());
        ExtensionResponse { success: true, content, extension_name: self.name.clone() }
    }
}

/// What a registry holds that has the echo extension beside extensions of
/// another kind: either the echo or one of the caller's. It is an extension
/// itself and answers as the one inside it does. Where the caller has several
/// kinds, `E` is a sum of them in the same way.
pub enum AnyExtension<E: Extension> {
    Echo(MockExtension),
    Other(E),
}

impl<E: Extension> Extension for AnyExtension<E> {
    open spec fn id(&self) -> Seq<char> {
        match *self {
            AnyExtension::Echo(echo) => echo.id(),
            AnyExtension::Other(other) => other.id(),
        }
    }

    open spec fn name(&self) -> Seq<char> {
        match *self {
            AnyExtension::Echo(echo) => echo.name(),
            AnyExtension::Other(other) => other.name(),
        }
    }

    open spec fn response(&self, request: RequestView) -> ResponseView {
        match *self {
            AnyExtension::Echo(echo) => echo.response(request),
            AnyExtension::Other(other) => other.response(request),
        }
    }

    fn get_id(&self) -> (id: &str)
        ensures
            self is Echo ==> id@ == echo_id(),
    {
        match self {
            AnyExtension::Echo(echo) => echo.get_id(),
            AnyExtension::Other(other) => other.get_id(),
        }
    }

    fn get_name(&self) -> (name: &str)
        ensures
            self is Echo ==> name@ == echo_name(),
    {
        match self {
            AnyExtension::Echo(echo) => echo.get_name(),
            AnyExtension::Other(other) => other.get_name(),
        }
    }

    fn invoke(&self, request: &ExtensionRequest) -> (response: ExtensionResponse)
        ensures
            self is Echo ==> response@ == echo_response(request@),
    {
        match self {
            AnyExtension::Echo(echo) => echo.invoke(request),
            AnyExtension::Other(other) => other.invoke(request),
        }
    }
}

} // verus!
