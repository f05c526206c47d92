//! What DNS state is wanted, and how an observed state is judged.

use vstd::prelude::*;
use crate::cli::DnsArgs;
use crate::parse::holds;
use crate::session::{initial, Session};
use crate::text::{chars_of, contains, contains_text};

verus! {

/// Why a command line chose no run.
#[derive(Clone, Copy, PartialEq, Eq, Structural, Debug)]
pub enum UsageError {
    /// None of the modes was given.
    NoMode,
    /// More than one mode was given.
    SeveralModes,
}

/// What a run does to each active interface.
#[derive(Clone, Copy, PartialEq, Eq, Structural, Debug)]
pub enum Mode {
    /// Set the built-in public resolvers.
    PublicDns,
    /// Clear manual DNS, so that DHCP-assigned resolvers apply.
    ClearToDhcp,
    /// Change nothing; report the effective resolvers.
    ListOnly,
}

/// Where an interface's reported resolvers come from.
#[derive(Clone, Copy, PartialEq, Eq, Structural, Debug)]
pub enum Source {
    /// Configured for the interface itself.
    Manual,
    /// The host's system-wide resolver state.
    SystemFallback,
}

/// The built-in public resolvers: two providers, an IPv4 and an IPv6 address each.
pub open spec fn public_dns_list() -> Seq<Seq<char>> {
    seq!["1.1.1.1"@, "2606:4700:4700::1111"@, "8.8.4.4"@, "2001:4860:4860::8844"@]
}

/// The argument that clears an interface's manual DNS.
pub open spec fn clear_list() -> Seq<Seq<char>> {
    seq!["empty"@]
}

/// The addresses that a run in `mode` sets on each interface.
pub open spec fn servers_of(mode: Mode) -> Seq<Seq<char>> {
    match mode {
        Mode::PublicDns => public_dns_list(),
        _ => clear_list(),
    }
}

/// The phrase by which the host says that an interface has no manual DNS.
pub open spec fn unset_phrase() -> Seq<char> {
    "There aren't any DNS Servers set on"@
}

/// Whether a manual DNS query's lines say that none is configured.
pub open spec fn is_unset(m: Seq<Seq<char>>) -> bool {
    exists|k: int| 0 <= k < m.len() && contains(#[trigger] m[k], unset_phrase())
}

/// Whether at least one of the public resolvers is among `m`.
pub open spec fn has_public_dns(m: Seq<Seq<char>>) -> bool {
    exists|k: int| 0 <= k < public_dns_list().len() && m.contains(#[trigger] public_dns_list()[k])
}

/// Whether the manual DNS `m` observed after a change in `mode` is what the
/// change asked for.
pub open spec fn satisfied(mode: Mode, m: Seq<Seq<char>>) -> bool {
    match mode {
        Mode::PublicDns => has_public_dns(m),
        Mode::ClearToDhcp => is_unset(m),
        Mode::ListOnly => true,
    }
}

/// The effective resolvers of an interface whose manual query gave `manual`
/// (the none-configured phrase) and whose system-wide fallback gave `fallback`.
pub open spec fn resolve(manual: Seq<Seq<char>>, fallback: Seq<Seq<char>>) -> (Seq<Seq<char>>, Source) {
    if fallback.len() > 0 {
        (fallback, Source::SystemFallback)
    } else {
        (manual, Source::Manual)
    }
}

/// The built-in public resolvers, in order of priority.
pub fn public_dns() -> (r: Vec<String>)
    ensures
        r.deep_view() == public_dns_list(),
{
    let r = vec![
        "1.1.1.1".to_owned(),
        "2606:4700:4700::1111".to_owned(),
        "8.8.4.4".to_owned(),
        "2001:4860:4860::8844".to_owned(),
    ];
    assert(r.deep_view() =~= public_dns_list());
    r
}

/// The addresses that a run in `mode` sets on each interface.
pub fn servers_for(mode: Mode) -> (r: Vec<String>)
    ensures
        r.deep_view() == servers_of(mode),
{
    match mode {
        Mode::PublicDns => public_dns(),
        _ => {
            let r = vec!["empty".to_owned()];
            assert(r.deep_view() =~= clear_list());
            r
        },
    }
}

/// Whether a manual DNS query's lines say that none is configured.
pub fn dns_unset(current: &Vec<String>) -> (r: bool)
    ensures
        r == is_unset(current.deep_view()),
{
    let phrase = chars_of("There aren't any DNS Servers set on");
    let mut k: usize = 0;
    while k < current.len()
        invariant
            k <= current.len(),
            phrase@ == unset_phrase(),
            forall|j: int| 0 <= j < k ==> !contains(#[trigger] current.deep_view()[j], unset_phrase()),
        decreases current.len() - k,
    {
        let line = chars_of(current[k].as_str());
        assert(current.deep_view()[k as int] == current@[k as int]@);
        if contains_text(&line, &phrase) {
            return true;
        }
        k = k + 1;
    }
    false
}

/// Whether at least one of the public resolvers is among `current`.
pub fn public_dns_applied(current: &Vec<String>) -> (r: bool)
    ensures
        r == has_public_dns(current.deep_view()),
{
    let wanted = public_dns();
    let mut k: usize = 0;
    while k < wanted.len()
        invariant
            k <= wanted.len(),
            wanted.deep_view() == public_dns_list(),
            forall|j: int| 0 <= j < k ==> !current.deep_view().contains(#[trigger] public_dns_list()[j]),
        decreases wanted.len() - k,
    {
        assert(wanted.deep_view()[k as int] == wanted@[k as int]@);
        if holds(current, &wanted[k]) {
            return true;
        }
        k = k + 1;
    }
    false
}

/// Whether the manual DNS `current` observed after a change in `mode` is
/// what the change asked for.
pub fn check_applied(mode: Mode, current: &Vec<String>) -> (r: bool)
    ensures
        r == satisfied(mode, current.deep_view()),
{
    match mode {
        Mode::PublicDns => public_dns_applied(current),
        Mode::ClearToDhcp => dns_unset(current),
        Mode::ListOnly => true,
    }
}

/// The effective resolvers of an interface without manual DNS: the
/// system-wide ones if there are any, else the manual query's own lines.
pub fn effective_dns(manual: Vec<String>, fallback: Vec<String>) -> (r: (Vec<String>, Source))
    ensures
        (r.0.deep_view(), r.1) == resolve(manual.deep_view(), fallback.deep_view()),
{
    if fallback.len() > 0 {
        (fallback, Source::SystemFallback)
    } else {
        (manual, Source::Manual)
    }
}

/// The mode that `a` selects, if it selects exactly one.
pub open spec fn mode_of(a: DnsArgs) -> Option<Mode> {
    if a.pub_dns && !a.dhcp && !a.list {
        Some(Mode::PublicDns)
    } else if !a.pub_dns && a.dhcp && !a.list {
        Some(Mode::ClearToDhcp)
    } else if !a.pub_dns && !a.dhcp && a.list {
        Some(Mode::ListOnly)
    } else {
        None
    }
}

/// A run that sets the public resolvers on every active interface.
pub fn enable_pub_dns() -> (s: Session)
    ensures
        s@ == initial(Mode::PublicDns),
{
    Session::start(Mode::PublicDns)
}

/// A run that clears the manual DNS of every active interface.
pub fn enable_dhcp_dns() -> (s: Session)
    ensures
        s@ == initial(Mode::ClearToDhcp),
{
    Session::start(Mode::ClearToDhcp)
}

/// A run that reports the effective resolvers of every active interface.
pub fn print_current_dns() -> (s: Session)
    ensures
        s@ == initial(Mode::ListOnly),
{
    Session::start(Mode::ListOnly)
}

/// The run that the options ask for, before any host operation.
pub fn perform(args: DnsArgs) -> (r: Result<Session, UsageError>)
    ensures
        match r {
            Ok(s) => mode_of(args) is Some && s@ == initial(mode_of(args)->0),
            Err(UsageError::NoMode) => !args.pub_dns && !args.dhcp && !args.list,
            Err(UsageError::SeveralModes) => mode_of(args) is None && (args.pub_dns || args.dhcp
                || args.list),
        },
{
    let count: u8 = (if args.pub_dns { 1u8 } else { 0u8 }) + (if args.dhcp { 1u8 } else { 0u8 })
        + (if args.list { 1u8 } else { 0u8 });
    if count == 0 {
        Err(UsageError::NoMode)
    } else if count > 1 {
        Err(UsageError::SeveralModes)
    } else if args.dhcp {
        Ok(enable_dhcp_dns())
    } else if args.pub_dns {
        Ok(enable_pub_dns())
    } else {
        Ok(print_current_dns())
    }
}

} // verus!
