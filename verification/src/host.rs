use vstd::prelude::*;

verus! {

/// `local_ip_address::local_ip`, which asks the operating system for the
/// machine's IPv4 address in the local network, written as text; `None` where
/// the lookup fails. The answer depends on the machine, so nothing is promised
/// of it.
#[verifier::external_body]
pub(crate) fn local_address() -> Option<String> {
    match local_ip_address::local_ip() {
        Ok(address) => Some(address.to_string()),
        Err(_) => None,
    }
}

} // verus!
