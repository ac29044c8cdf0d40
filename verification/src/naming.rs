use vstd::prelude::*;
use crate::location::Location;

verus! {

/// How the platform names tunnel devices.
#[derive(Debug)]
pub enum Platform {
    /// The platform allows one tunnel device per process, under this name.
    SingleDevice(String),
    /// Every location gets a device of its own, named after the location.
    DevicePerLocation,
}

/// Whether std counts a character as white space.
pub uninterp spec fn whitespace(c: char) -> bool;

/// `char::is_whitespace`, which tells whether a character has the Unicode
/// property White_Space.
#[verifier::external_body]
fn is_whitespace(c: char) -> (white: bool)
    ensures
        white == whitespace(c),
{
    c.is_whitespace()
}

/// `String::push`, which appends one character to a string.
#[verifier::external_body]
fn push_char(text: &mut String, c: char)
    ensures
        final(text)@ == old(text)@.push(c),
{
    text.push(c)
}

/// A text without its white space.
pub open spec fn without_whitespace(text: Seq<char>) -> Seq<char> {
    text.filter(|c: char| !whitespace(c))
}

/// The name of the tunnel device that serves a location called `name`.
pub open spec fn interface_name(name: Seq<char>, platform: Platform) -> Seq<char> {
    match platform {
        Platform::SingleDevice(device) => device@,
        Platform::DevicePerLocation => without_whitespace(name),
    }
}

/// Removes the white space from a text.
pub fn remove_whitespace(text: &str) -> (stripped: String)
    ensures
        stripped@ == without_whitespace(text@),
{
    let mut stripped = String::new();
    let ghost keep = |c: char| !whitespace(c);
    for c in it: text.chars()
        invariant
            it.seq() == text@,
            keep == (|c: char| !whitespace(c)),
            stripped@ == text@.take(it.index()).filter(keep),
    {
        proof {
            assert(text@.take(it.index() + 1) == text@.take(it.index()).push(c));
            text@.take(it.index()).lemma_filter_push(c, keep);
        }
        if !is_whitespace(c) {
            push_char(&mut stripped, c);
        }
    }
    proof {
        assert(text@.take(text@.len() as int) == text@);
    }
    stripped
}

/// The name of the tunnel device that serves `location` on `platform`: the
/// platform's one device where it has only one, else the location's name
/// without white space.
pub fn get_interface_name(location: &Location, platform: &Platform) -> (name: String)
    ensures
        name@ == interface_name(location.name@, *platform),
{
    match platform {
        Platform::SingleDevice(device) => device.clone(),
        Platform::DevicePerLocation => remove_whitespace(location.name.as_str()),
    }
}

} // verus!
