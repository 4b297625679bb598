//! What holds of the registry over all rosters and identifiers, stated over
//! the spec functions that the contracts use.

use vstd::prelude::*;
use crate::extension::Extension;
use crate::manager::{first_match, has_id, is_first_match, roster_of, roster_text};
use crate::text::{debug_text, joined_text, list_text, not_found_text, pair_text};

verus! {

/// Whether `needle` stands somewhere in `hay` as a contiguous run.
pub open spec fn occurs_in(needle: Seq<char>, hay: Seq<char>) -> bool {
    exists|k: int|
        0 <= k && k + needle.len() <= hay.len() && #[trigger] hay.subrange(k, k + needle.len())
            == needle
}

/// An identifier that some entry of the roster has is always dispatched, and
/// one that no entry has never is; the entry that dispatch picks is the first
/// one with the identifier.
pub proof fn law_known_ids_are_dispatched(roster: Seq<(Seq<char>, Seq<char>)>, id: Seq<char>)
    ensures
        first_match(roster, id) is Some <==> has_id(roster, id),
        first_match(roster, id) matches Some(i) ==> is_first_match(roster, id, i),
{
    if has_id(roster, id) {
        let w = choose|i: int| 0 <= i < roster.len() && (#[trigger] roster[i]).0 == id;
        lemma_least_match(roster, id, w);
    }
    if first_match(roster, id) is Some {
        let i = choose|i: int| is_first_match(roster, id, i);
        assert(roster[i].0 == id);
    }
}

/// At or below any entry that has the identifier stands a first one.
proof fn lemma_least_match(roster: Seq<(Seq<char>, Seq<char>)>, id: Seq<char>, w: int)
    requires
        0 <= w < roster.len(),
        roster[w].0 == id,
    ensures
        exists|i: int| 0 <= i <= w && is_first_match(roster, id, i),
    decreases w,
{
    if exists|j: int| 0 <= j < w && (#[trigger] roster[j]).0 == id {
        let j = choose|j: int| 0 <= j < w && (#[trigger] roster[j]).0 == id;
        lemma_least_match(roster, id, j);
    } else {
        assert(is_first_match(roster, id, w));
    }
}

/// On an empty roster no identifier is dispatched.
pub proof fn law_empty_roster_matches_nothing(id: Seq<char>)
    ensures
        first_match(Seq::<(Seq<char>, Seq<char>)>::empty(), id) is None,
{
}

/// Where two entries share an identifier, the earlier one wins: dispatch picks
/// the first entry with the identifier, and never an entry that stands behind
/// another one with the same identifier.
pub proof fn law_first_registered_wins(
    roster: Seq<(Seq<char>, Seq<char>)>,
    id: Seq<char>,
    i: int,
    j: int,
)
    requires
        0 <= i < j < roster.len(),
        roster[i].0 == id,
        roster[j].0 == id,
    ensures
        first_match(roster, id) matches Some(k) && k <= i,
        first_match(roster, id) != Some(j),
        forall|other: Seq<char>| first_match(roster, other) != Some(j),
{
    law_known_ids_are_dispatched(roster, id);
    assert forall|other: Seq<char>| first_match(roster, other) != Some(j) by {
        law_known_ids_are_dispatched(roster, other);
        if first_match(roster, other) == Some(j) {
            assert(roster[i].0 != other);
        }
    }
    let k = first_match(roster, id)->Some_0;
    if k > i {
        assert(roster[i].0 != id);
    }
}

/// The entry that is first with its identifier is the one that dispatch picks.
pub proof fn law_first_match_is_unique(roster: Seq<(Seq<char>, Seq<char>)>, id: Seq<char>, i: int)
    requires
        is_first_match(roster, id, i),
    ensures
        first_match(roster, id) == Some(i),
{
    let k = choose|k: int| is_first_match(roster, id, k);
    if k < i {
        assert(roster[k].0 != id);
    }
    if i < k {
        assert(roster[i].0 != id);
    }
}

/// Registering adds exactly one entry to the roster, at its end, and leaves
/// the entries before it as they were: the roster's length counts the
/// registrations, and its order is theirs.
pub proof fn law_register_appends_to_roster<E: Extension>(extensions: Seq<E>, extension: E)
    ensures
        roster_of(extensions.push(extension)) == roster_of(extensions).push(
            (extension.id(), extension.name()),
        ),
        roster_of(extensions.push(extension)).len() == roster_of(extensions).len() + 1,
        roster_of(extensions.push(extension)).last() == (extension.id(), extension.name()),
        roster_of(extensions.push(extension)).drop_last() == roster_of(extensions),
{
    let after = roster_of(extensions.push(extension));
    let before = roster_of(extensions);
    assert(after =~= before.push((extension.id(), extension.name())));
    assert(after.drop_last() =~= before);
}

/// Registering never changes what an identifier that was dispatched before is
/// dispatched to.
pub proof fn law_register_keeps_dispatch(
    roster: Seq<(Seq<char>, Seq<char>)>,
    entry: (Seq<char>, Seq<char>),
    id: Seq<char>,
)
    requires
        has_id(roster, id),
    ensures
        first_match(roster.push(entry), id) == first_match(roster, id),
{
    law_known_ids_are_dispatched(roster, id);
    let i = first_match(roster, id)->Some_0;
    let grown = roster.push(entry);
    assert(grown[i] == roster[i]);
    assert forall|j: int| 0 <= j < i implies (#[trigger] grown[j]).0 != id by {
        assert(grown[j] == roster[j]);
    }
    law_first_match_is_unique(grown, id, i);
}

/// The message for an unknown identifier holds the identifier and the whole
/// roster text.
pub proof fn law_message_holds_id_and_roster(requested_id: Seq<char>, roster: Seq<char>)
    ensures
        occurs_in(requested_id, not_found_text(requested_id, roster)),
        occurs_in(roster, not_found_text(requested_id, roster)),
{
    let head = "Extension '"@;
    let middle = "' not found. Available extensions: "@;
    let message = not_found_text(requested_id, roster);
    let at_id: int = head.len() as int;
    let at_roster: int = (head.len() + requested_id.len() + middle.len()) as int;
    lemma_occurs_at(requested_id, message, at_id);
    lemma_occurs_at(roster, message, at_roster);
}

/// The roster text holds every entry of the roster: its identifier and its
/// name, each as `Debug` formatting writes it, as a pair.
pub proof fn law_roster_text_holds_every_entry(roster: Seq<(Seq<char>, Seq<char>)>, i: int)
    requires
        0 <= i < roster.len(),
    ensures
        occurs_in(
            pair_text(debug_text(roster[i].0), debug_text(roster[i].1)),
            roster_text(roster),
        ),
{
    let items = roster.map_values(
        |p: (Seq<char>, Seq<char>)| pair_text(debug_text(p.0), debug_text(p.1)),
    );
    lemma_joined_holds_every_item(items, i);
    let inner = joined_text(items);
    let whole = list_text(items);
    let at: int = "["@.len() as int;
    lemma_occurs_at(inner, whole, at);
    lemma_occurs_in_is_transitive(items[i], inner, whole);
}

/// A run of `hay` that starts at `k` and reads as `needle` shows that `needle`
/// occurs in `hay`.
proof fn lemma_occurs_at(needle: Seq<char>, hay: Seq<char>, k: int)
    requires
        0 <= k,
        k + needle.len() <= hay.len(),
        forall|n: int| 0 <= n < needle.len() ==> hay[k + n] == needle[n],
    ensures
        occurs_in(needle, hay),
{
    assert(hay.subrange(k, k + needle.len()) =~= needle);
}

/// What occurs in a part occurs in the whole.
proof fn lemma_occurs_in_is_transitive(a: Seq<char>, b: Seq<char>, c: Seq<char>)
    requires
        occurs_in(a, b),
        occurs_in(b, c),
    ensures
        occurs_in(a, c),
{
    let k = choose|k: int|
        0 <= k && k + a.len() <= b.len() && #[trigger] b.subrange(k, k + a.len()) == a;
    let m = choose|m: int|
        0 <= m && m + b.len() <= c.len() && #[trigger] c.subrange(m, m + b.len()) == b;
    lemma_occurs_at(a, c, m + k);
}

/// Every item occurs in the joined text.
proof fn lemma_joined_holds_every_item(items: Seq<Seq<char>>, i: int)
    requires
        0 <= i < items.len(),
    ensures
        occurs_in(items[i], joined_text(items)),
    decreases items.len(),
{
    let whole = joined_text(items);
    if items.len() == 1 {
        lemma_occurs_at(items[0], whole, 0);
    } else {
        let front = joined_text(items.drop_last());
        let comma = ", "@;
        if i == items.len() - 1 {
            let at: int = (front.len() + comma.len()) as int;
            lemma_occurs_at(items[i], whole, at);
        } else {
            lemma_joined_holds_every_item(items.drop_last(), i);
            assert(items.drop_last()[i] == items[i]);
            lemma_occurs_at(front, whole, 0);
            lemma_occurs_in_is_transitive(items[i], front, whole);
        }
    }
}

} // verus!
