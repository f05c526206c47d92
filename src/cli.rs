//! The choices that the command line makes.

use vstd::prelude::*;

verus! {

/// The options of the DNS command; exactly one is to be set.
#[derive(Clone, Copy, PartialEq, Eq, Structural, Debug)]
pub struct DnsArgs {
    /// Set the public resolvers.
    pub pub_dns: bool,
    /// Revert to the resolvers that DHCP assigns.
    pub dhcp: bool,
    /// List the resolvers in use.
    pub list: bool,
}

/// The program's description, with its version.
pub fn get_about(version: &str) -> (r: String)
    ensures
        r@ == "Rust empowered tools v"@ + version@,
{
    let mut r = "Rust empowered tools v".to_owned();
    push_text(&mut r, version);
    r
}

/// Relies on `String::push_str`: appends the characters of `t`.
#[verifier::external_body]
fn push_text(s: &mut String, t: &str)
    ensures
        final(s)@ == old(s)@ + t@,
{
    s.push_str(t)
}

} // verus!
