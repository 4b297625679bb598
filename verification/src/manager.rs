//! The registry: extensions in the order in which they were registered, and
//! dispatch of a request to the first one that has the requested identifier.

use vstd::prelude::*;
use vstd::string::*;
use crate::extension::{
    echo_id, echo_name, echo_response, AnyExtension, Extension, MockExtension,
};
use crate::laws::{law_known_ids_are_dispatched, law_register_appends_to_roster};
use crate::text::{
    debug_quote, debug_text, list_string, list_text, not_found_message, not_found_text,
    pair_string, pair_text, str_eq, texts_of,
};
use crate::types::{ExtensionRequest, ExtensionResponse, RequestView};

verus! {

/// The roster of a sequence of extensions: the identifier and the display
/// name of each, in the same order.
pub open spec fn roster_of<E: Extension>(extensions: Seq<E>) -> Seq<(Seq<char>, Seq<char>)> {
    extensions.map_values(|e: E| (e.id(), e.name()))
}

/// Whether some entry of the roster has the identifier.
pub open spec fn has_id(roster: Seq<(Seq<char>, Seq<char>)>, id: Seq<char>) -> bool {
    exists|i: int| 0 <= i < roster.len() && (#[trigger] roster[i]).0 == id
}

/// Whether entry `i` is the first of the roster that has the identifier.
pub open spec fn is_first_match(
    roster: Seq<(Seq<char>, Seq<char>)>,
    id: Seq<char>,
    i: int,
) -> bool {
    &&& 0 <= i < roster.len()
    &&& roster[i].0 == id
    &&& forall|j: int| 0 <= j < i ==> (#[trigger] roster[j]).0 != id
}

/// The position that dispatch picks for an identifier: that of the first
/// entry that has it, or nothing where no entry has it.
pub open spec fn first_match(roster: Seq<(Seq<char>, Seq<char>)>, id: Seq<char>) -> Option<int> {
    if exists|i: int| is_first_match(roster, id, i) {
        Some(choose|i: int| is_first_match(roster, id, i))
    } else {
        None
    }
}

/// The roster as it is shown in a message: a bracketed list of pairs, each
/// string in the form that `Debug` formatting gives it.
pub open spec fn roster_text(roster: Seq<(Seq<char>, Seq<char>)>) -> Seq<char> {
    list_text(roster.map_values(|p: (Seq<char>, Seq<char>)| pair_text(debug_text(p.0), debug_text(p.1))))
}

/// The roster that a vector of owned pairs holds.
pub open spec fn pairs_view(pairs: Seq<(String, String)>) -> Seq<(Seq<char>, Seq<char>)> {
    pairs.map_values(|p: (String, String)| (p.0@, p.1@))
}

/// The one failure of dispatch: no registered extension has the requested
/// identifier. It carries the identifier and the roster at that moment, so
/// that a caller can pick a valid identifier without reading a message.
#[derive(Debug)]
pub struct ExtensionNotFound {
    pub requested_id: String,
    pub available: Vec<(String, String)>,
}

impl ExtensionNotFound {
    /// The text of the message for this failure.
    pub open spec fn message_text(&self) -> Seq<char> {
        not_found_text(self.requested_id@, roster_text(pairs_view(self.available@)))
    }

    /// Composes the message: the rejected identifier, the whole roster and a
    /// suggestion to try the echo extension.
    pub fn message(&self) -> (message: String)
        ensures
            message@ == self.message_text(),
    {
        let mut entries: Vec<String> = Vec::new();
        let mut i: usize = 0;
        let ghost shown = pairs_view(self.available@).map_values(
            |p: (Seq<char>, Seq<char>)| pair_text(debug_text(p.0), debug_text(p.1)),
        );
        while i < self.available.len()
            invariant
                i <= self.available@.len(),
                entries@.len() == i,
                shown == pairs_view(self.available@).map_values(
                    |p: (Seq<char>, Seq<char>)| pair_text(debug_text(p.0), debug_text(p.1)),
                ),
                forall|j: int| 0 <= j < i ==> (#[trigger] entries@[j])@ == shown[j],
            decreases self.available@.len() - i,
        {
            let quoted_id = debug_quote(self.available[i].0.as_str());
            let quoted_name = debug_quote(self.available[i].1.as_str());
            entries.push(pair_string(quoted_id.as_str(), quoted_name.as_str()));
            i = i + 1;
        }
        proof {
            assert(texts_of(entries@) =~= shown);
        }
        let roster = list_string(&entries);
        not_found_message(self.requested_id.as_str(), roster.as_str())
    }
}

/// The registry. Its view is the sequence of registered extensions, oldest
/// first; it only ever grows at the end.
pub struct ExtensionManager<E: Extension> {
    extensions: Vec<E>,
}

impl<E: Extension> View for ExtensionManager<E> {
    type V = Seq<E>;

    closed spec fn view(&self) -> Seq<E> {
        self.extensions@
    }
}

impl<E: Extension> ExtensionManager<E> {
    /// The roster of the registered extensions.
    pub open spec fn roster(&self) -> Seq<(Seq<char>, Seq<char>)> {
        roster_of(self@)
    }

    /// An empty registry.
    pub fn new() -> (manager: Self)
        ensures
            manager@ == Seq::<E>::empty(),
    {
        ExtensionManager { extensions: Vec::new() }
    }

    /// Appends the extension. Identifiers are not compared: an extension whose
    /// identifier is already taken is stored too, and dispatch never reaches it.
    pub fn register(&mut self, extension: E)
        ensures
            final(self)@ == old(self)@.push(extension),
            final(self).roster() == old(self).roster().push((extension.id(), extension.name())),
    {
        self.extensions.push(extension);
        proof {
            law_register_appends_to_roster(old(self)@, extension);
        }
    }

    /// The identifier and the display name of every registered extension, in
    /// the order of registration.
    pub fn list_extensions(&self) -> (listed: Vec<(&str, &str)>)
        ensures
            listed@.len() == self@.len(),
            forall|i: int|
                0 <= i < listed@.len() ==> (#[trigger] listed@[i]).0@ == self@[i].id()
                    && listed@[i].1@ == self@[i].name(),
    {
        let mut listed: Vec<(&str, &str)> = Vec::new();
        let mut i: usize = 0;
        while i < self.extensions.len()
            invariant
                i <= self.extensions@.len(),
                listed@.len() == i,
                forall|j: int|
                    0 <= j < i ==> (#[trigger] listed@[j]).0@ == self.extensions@[j].id()
                        && listed@[j].1@ == self.extensions@[j].name(),
            decreases self.extensions@.len() - i,
        {
            let extension = &self.extensions[i];
            listed.push((extension.get_id(), extension.get_name()));
            i = i + 1;
        }
        listed
    }

    /// The roster as owned strings.
    pub fn roster_pairs(&self) -> (pairs: Vec<(String, String)>)
        ensures
            pairs_view(pairs@) == self.roster(),
    {
        let mut pairs: Vec<(String, String)> = Vec::new();
        let mut i: usize = 0;
        while i < self.extensions.len()
            invariant
                i <= self.extensions@.len(),
                pairs@.len() == i,
                forall|j: int|
                    0 <= j < i ==> (#[trigger] pairs@[j]).0@ == self.extensions@[j].id()
                        && pairs@[j].1@ == self.extensions@[j].name(),
            decreases self.extensions@.len() - i,
        {
            let extension = &self.extensions[i];
            let id = String::from_str(extension.get_id());
            let name = String::from_str(extension.get_name());
            pairs.push((id, name));
            i = i + 1;
        }
        proof {
            assert(pairs_view(pairs@) =~= self.roster());
        }
        pairs
    }

    /// The position of the first registered extension that has the identifier.
    pub fn find(&self, extension_id: &str) -> (found: Option<usize>)
        ensures
            match found {
                Some(i) => first_match(self.roster(), extension_id@) == Some(i as int),
                None => first_match(self.roster(), extension_id@) is None,
            },
    {
        let mut i: usize = 0;
        while i < self.extensions.len()
            invariant
                i <= self.extensions@.len(),
                forall|j: int| 0 <= j < i ==> (#[trigger] self.roster()[j]).0 != extension_id@,
            decreases self.extensions@.len() - i,
        {
            if str_eq(self.extensions[i].get_id(), extension_id) {
                proof {
                    let roster = self.roster();
                    assert(is_first_match(roster, extension_id@, i as int));
                    let k = choose|k: int| is_first_match(roster, extension_id@, k);
                    assert(k == i) by {
                        if k < i {
                            assert(roster[k].0 != extension_id@);
                        }
                    }
                }
                return Some(i);
            }
            i = i + 1;
        }
        proof {
            let roster = self.roster();
            assert(forall|k: int| !is_first_match(roster, extension_id@, k));
        }
        None
    }

    /// Hands the request to the first registered extension whose identifier
    /// is the requested one and returns its response as it is, whatever its
    /// `success` flag says. Fails exactly when no registered extension has
    /// the identifier; the failure carries the identifier and the roster.
    pub fn dispatch(&self, request: &ExtensionRequest) -> (outcome: Result<
        ExtensionResponse,
        ExtensionNotFound,
    >)
        ensures
            match first_match(self.roster(), request@.extension_id) {
                Some(i) => outcome is Ok && outcome->Ok_0@ == self@[i].response(request@),
                None => outcome is Err && outcome->Err_0.requested_id@ == request@.extension_id
                    && pairs_view(outcome->Err_0.available@) == self.roster(),
            },
    {
        match self.find(request.extension_id.as_str()) {
            Some(i) => Ok(self.extensions[i].invoke(request)),
            None => Err(
                ExtensionNotFound {
                    requested_id: request.extension_id.clone(),
                    available: self.roster_pairs(),
                },
            ),
        }
    }

    /// As `dispatch`, with the failure as its message.
    pub fn invoke_extension(&self, request: &ExtensionRequest) -> (outcome: Result<
        ExtensionResponse,
        String,
    >)
        ensures
            match first_match(self.roster(), request@.extension_id) {
                Some(i) => outcome is Ok && outcome->Ok_0@ == self@[i].response(request@),
                None => outcome is Err && outcome->Err_0@ == not_found_text(
                    request@.extension_id,
                    roster_text(self.roster()),
                ),
            },
            outcome is Ok <==> has_id(self.roster(), request@.extension_id),
    {
        proof {
            law_known_ids_are_dispatched(self.roster(), request@.extension_id);
        }
        match self.dispatch(request) {
            Ok(response) => Ok(response),
            Err(failure) => Err(failure.message()),
        }
    }
}

impl ExtensionManager<MockExtension> {
    /// Registers the echo extension.
    pub fn load_defaults(&mut self)
        ensures
            final(self)@.len() == old(self)@.len() + 1,
            final(self)@.drop_last() == old(self)@,
            final(self).roster() == old(self).roster().push((echo_id(), echo_name())),
            forall|request: RequestView| #[trigger]
                final(self)@.last().response(request) == echo_response(request),
    {
        self.register(MockExtension::new());
        proof {
            assert(self@.drop_last() =~= old(self)@);
            assert(self.roster() =~= old(self).roster().push((echo_id(), echo_name())));
        }
    }
}

impl<E: Extension> ExtensionManager<AnyExtension<E>> {
    /// Registers the echo extension in a registry that also takes extensions
    /// of the caller's kind.
    pub fn load_defaults(&mut self)
        ensures
            final(self)@.len() == old(self)@.len() + 1,
            final(self)@.drop_last() == old(self)@,
            final(self)@.last() is Echo,
            final(self).roster() == old(self).roster().push((echo_id(), echo_name())),
            forall|request: RequestView| #[trigger]
                final(self)@.last().response(request) == echo_response(request),
    {
        self.register(AnyExtension::Echo(MockExtension::new()));
        proof {
            assert(self@.drop_last() =~= old(self)@);
            assert(self.roster() =~= old(self).roster().push((echo_id(), echo_name())));
        }
    }
}

impl<E: Extension> Default for ExtensionManager<E> {
    fn default() -> (manager: Self)
        ensures
            manager@ == Seq::<E>::empty(),
    {
        ExtensionManager::new()
    }
}

} // verus!
