//! Text helpers: comparing identifiers and composing the message that reports
//! an unknown extension.

use vstd::prelude::*;
use vstd::string::*;
use vstd::utf8::*;

verus! {

/// Whether two strings hold the same characters.
///
/// The comparison runs over the UTF-8 bytes; since decoding undoes encoding,
/// equal bytes mean equal characters and the other way round.
pub fn str_eq(a: &str, b: &str) -> (equal: bool)
    ensures
        equal == (a@ == b@),
{
    let x = a.as_bytes();
    let y = b.as_bytes();
    proof {
        encode_utf8_decode_utf8(a@);
        encode_utf8_decode_utf8(b@);
    }
    if x.len() != y.len() {
        return false;
    }
    let mut i: usize = 0;
    while i < x.len()
        invariant
            x@ == a.spec_bytes(),
            y@ == b.spec_bytes(),
            x@.len() == y@.len(),
            i <= x@.len(),
            forall|j: int| 0 <= j < i ==> x@[j] == y@[j],
        decreases x@.len() - i,
    {
        if x[i] != y[i] {
            return false;
        }
        i = i + 1;
    }
    proof {
        assert(x@ =~= y@);
    }
    true
}

/// The text that `std`'s `Debug` formatting gives for a string with the given
/// characters: the string between double quotes, with the characters that the
/// formatter escapes written as escapes.
pub uninterp spec fn debug_text(s: Seq<char>) -> Seq<char>;

/// Calls `std`'s `Debug` formatting for `str` (through `format!("{:?}", ..)`).
/// The output depends on the characters of `s` alone; the contract gives it
/// the name `debug_text` and claims nothing else of it.
#[verifier::external_body]
pub(crate) fn debug_quote(s: &str) -> (quoted: String)
    ensures
        quoted@ == debug_text(s@),
{
    format!("{:?}", s)
}

/// One roster entry as text: a pair of already quoted strings in round
/// brackets, separated by a comma and a space.
pub open spec fn pair_text(first: Seq<char>, second: Seq<char>) -> Seq<char> {
    "("@ + first + ", "@ + second + ")"@
}

/// The items written one after the other, with a comma and a space between
/// neighbours.
pub open spec fn joined_text(items: Seq<Seq<char>>) -> Seq<char>
    decreases items.len(),
{
    if items.len() == 0 {
        Seq::empty()
    } else if items.len() == 1 {
        items[0]
    } else {
        joined_text(items.drop_last()) + ", "@ + items.last()
    }
}

/// The items as a list in square brackets.
pub open spec fn list_text(items: Seq<Seq<char>>) -> Seq<char> {
    "["@ + joined_text(items) + "]"@
}

/// The message for a requested identifier that no registered extension has.
/// It names the identifier, shows the roster and suggests the echo extension.
pub open spec fn not_found_text(requested_id: Seq<char>, roster: Seq<char>) -> Seq<char> {
    "Extension '"@ + requested_id + "' not found. Available extensions: "@ + roster
        + ". Try using 'mock_echo' for testing."@
}

/// The views of a vector of strings, in order.
pub open spec fn texts_of(items: Seq<String>) -> Seq<Seq<char>> {
    items.map_values(|s: String| s@)
}

/// Writes one roster entry from the quoted identifier and the quoted name.
pub fn pair_string(first: &str, second: &str) -> (text: String)
    ensures
        text@ == pair_text(first@, second@),
{
    let mut text = String::from_str("(");
    text.append(first);
    text.append(", ");
    text.append(second);
    text.append(")");
    text
}

/// Writes the items as a bracketed list.
pub fn list_string(items: &Vec<String>) -> (text: String)
    ensures
        text@ == list_text(texts_of(items@)),
{
    let mut text = String::from_str("[");
    let mut i: usize = 0;
    while i < items.len()
        invariant
            i <= items@.len(),
            text@ == "["@ + joined_text(texts_of(items@).take(i as int)),
        decreases items@.len() - i,
    {
        proof {
            let all = texts_of(items@);
            let next = all.take(i + 1);
            assert(next.drop_last() =~= all.take(i as int));
            assert(next.last() == items@[i as int]@);
            if i == 0 {
                assert(joined_text(all.take(0)) =~= Seq::<char>::empty());
                assert("["@ + joined_text(all.take(0)) + items@[0]@ =~= "["@ + joined_text(next));
            } else {
                assert("["@ + joined_text(all.take(i as int)) + ", "@ + items@[i as int]@
                    =~= "["@ + joined_text(next));
            }
        }
        if i > 0 {
            text.append(", ");
        }
        text.append(items[i].as_str());
        i = i + 1;
    }
    proof {
        assert(texts_of(items@).take(items@.len() as int) =~= texts_of(items@));
    }
    text.append("]");
    text
}

/// Writes the message for an identifier that was not found, around a roster
/// that is already text.
pub fn not_found_message(requested_id: &str, roster: &str) -> (message: String)
    ensures
        message@ == not_found_text(requested_id@, roster@),
{
    let mut message = String::from_str("Extension '");
    message.append(requested_id);
    message.append("' not found. Available extensions: ");
    message.append(roster);
    message.append(". Try using 'mock_echo' for testing.");
    message
}

} // verus!
