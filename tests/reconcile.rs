use rempower::cli::{get_about, DnsArgs};
use rempower::dns::{
    check_applied, dns_unset, effective_dns, enable_dhcp_dns, enable_pub_dns, perform,
    print_current_dns, public_dns, public_dns_applied, servers_for, Mode, Source, UsageError,
};
use rempower::session::{Event, Outcome, Phase, Request, Session};

const LISTING: &str = "An asterisk (*) denotes that a network service is disabled.\nWi-Fi\nEthernet\n";
const PUBLIC: [&str; 4] = ["1.1.1.1", "2606:4700:4700::1111", "8.8.4.4", "2001:4860:4860::8844"];
const UNSET: &str = "There aren't any DNS Servers set on Wi-Fi.\n";

fn strings(v: &[&str]) -> Vec<String> {
    v.iter().map(|s| s.to_string()).collect()
}

fn args(pub_dns: bool, dhcp: bool, list: bool) -> DnsArgs {
    DnsArgs { pub_dns, dhcp, list }
}

/// A host whose answers the test chooses; it records each request.
struct Host<'a> {
    set_ok: &'a dyn Fn(&str) -> bool,
    manual: &'a dyn Fn(&str) -> String,
    resolver: String,
    seen: Vec<String>,
}

/// Drives a session against `host`; returns the reports and the last request.
fn run(mut s: Session, host: &mut Host) -> (Vec<Outcome>, Request) {
    let mut outcomes = Vec::new();
    loop {
        let event = match s.request() {
            Request::ListInterfaces => {
                host.seen.push("list".to_string());
                Event::Interfaces(LISTING.to_string())
            }
            Request::SetDns { interface, servers } => {
                host.seen.push(format!("set {} {}", interface, servers.join(" ")));
                if (host.set_ok)(&interface) {
                    Event::Applied
                } else {
                    Event::Failed
                }
            }
            Request::GetManualDns { interface } => {
                host.seen.push(format!("get {}", interface));
                Event::Manual((host.manual)(&interface))
            }
            Request::QueryResolverState => {
                host.seen.push("resolver".to_string());
                Event::Resolver(host.resolver.clone())
            }
            last => return (outcomes, last),
        };
        if let Some(o) = s.advance(event) {
            outcomes.push(o);
        }
    }
}

fn checked(o: &Outcome) -> (String, bool) {
    match o {
        Outcome::Checked { interface, ok, .. } => (interface.clone(), *ok),
        other => panic!("unexpected {:?}", other),
    }
}

#[test]
fn enable_reports_success_on_both_interfaces() {
    let mut host = Host {
        set_ok: &|_| true,
        manual: &|_| PUBLIC.join("\n"),
        resolver: String::new(),
        seen: Vec::new(),
    };
    let s = perform(args(true, false, false)).unwrap();
    let (outcomes, last) = run(s, &mut host);
    assert!(matches!(last, Request::Done));
    let got: Vec<(String, bool)> = outcomes.iter().map(checked).collect();
    assert_eq!(got, vec![("Wi-Fi".to_string(), true), ("Ethernet".to_string(), true)]);
    assert_eq!(
        host.seen,
        strings(&[
            "list",
            "set Wi-Fi 1.1.1.1 2606:4700:4700::1111 8.8.4.4 2001:4860:4860::8844",
            "get Wi-Fi",
            "set Ethernet 1.1.1.1 2606:4700:4700::1111 8.8.4.4 2001:4860:4860::8844",
            "get Ethernet",
        ])
    );
}

#[test]
fn reset_reports_success_on_both_interfaces() {
    let mut host = Host {
        set_ok: &|_| true,
        manual: &|_| UNSET.to_string(),
        resolver: String::new(),
        seen: Vec::new(),
    };
    let s = perform(args(false, true, false)).unwrap();
    let (outcomes, last) = run(s, &mut host);
    assert!(matches!(last, Request::Done));
    let got: Vec<(String, bool)> = outcomes.iter().map(checked).collect();
    assert_eq!(got, vec![("Wi-Fi".to_string(), true), ("Ethernet".to_string(), true)]);
    assert_eq!(host.seen[1], "set Wi-Fi empty");
    assert!(!host.seen.iter().any(|r| r == "resolver"));
}

#[test]
fn list_falls_back_and_deduplicates() {
    let mut host = Host {
        set_ok: &|_| true,
        manual: &|_| UNSET.to_string(),
        resolver: "nameserver[0] : 192.168.1.1\nnameserver[1] : 192.168.1.1\n".to_string(),
        seen: Vec::new(),
    };
    let s = perform(args(false, false, true)).unwrap();
    let (outcomes, _) = run(s, &mut host);
    match &outcomes[0] {
        Outcome::Listed { interface, servers, source } => {
            assert_eq!(interface, "Wi-Fi");
            assert_eq!(servers, &strings(&["192.168.1.1"]));
            assert_eq!(*source, Source::SystemFallback);
        }
        other => panic!("unexpected {:?}", other),
    }
    assert!(!host.seen.iter().any(|r| r.starts_with("set")));
}

#[test]
fn set_failure_aborts_before_second_interface() {
    let mut host = Host {
        set_ok: &|_| false,
        manual: &|_| PUBLIC.join("\n"),
        resolver: String::new(),
        seen: Vec::new(),
    };
    let s = perform(args(true, false, false)).unwrap();
    let (outcomes, last) = run(s, &mut host);
    assert!(matches!(last, Request::Abort));
    assert!(outcomes.is_empty());
    assert!(!host.seen.iter().any(|r| r.contains("Ethernet")));
}

#[test]
fn public_dns_twice_gives_the_same_report() {
    let written = std::cell::RefCell::new(Vec::<String>::new());
    let set = |_: &str| true;
    let get = |_: &str| {
        let w = written.borrow();
        if w.is_empty() { UNSET.to_string() } else { w.join("\n") }
    };
    let mut reports = Vec::new();
    for _ in 0..2 {
        let mut s = enable_pub_dns();
        s.advance(Event::Interfaces("Wi-Fi\n".to_string()));
        match s.request() {
            Request::SetDns { servers, .. } => *written.borrow_mut() = servers,
            other => panic!("unexpected {:?}", other),
        }
        let mut host = Host { set_ok: &set, manual: &get, resolver: String::new(), seen: Vec::new() };
        assert!(s.advance(Event::Applied).is_none());
        let text = (host.manual)("Wi-Fi");
        host.seen.push(text.clone());
        reports.push(checked(&s.advance(Event::Manual(text)).unwrap()));
    }
    assert_eq!(reports[0], reports[1]);
    assert_eq!(reports[0], ("Wi-Fi".to_string(), true));
}

#[test]
fn list_with_manual_dns_never_queries_resolver_state() {
    let mut host = Host {
        set_ok: &|_| true,
        manual: &|_| "9.9.9.9\n".to_string(),
        resolver: "nameserver[0] : 192.168.1.1\n".to_string(),
        seen: Vec::new(),
    };
    let (outcomes, _) = run(print_current_dns(), &mut host);
    assert!(!host.seen.iter().any(|r| r == "resolver"));
    match &outcomes[1] {
        Outcome::Listed { interface, servers, source } => {
            assert_eq!(interface, "Ethernet");
            assert_eq!(servers, &strings(&["9.9.9.9"]));
            assert_eq!(*source, Source::Manual);
        }
        other => panic!("unexpected {:?}", other),
    }
}

#[test]
fn list_keeps_unset_phrase_when_resolver_state_is_empty() {
    let mut host = Host {
        set_ok: &|_| true,
        manual: &|_| UNSET.to_string(),
        resolver: "No DNS configuration available\n".to_string(),
        seen: Vec::new(),
    };
    let (outcomes, _) = run(print_current_dns(), &mut host);
    match &outcomes[0] {
        Outcome::Listed { servers, source, .. } => {
            assert_eq!(servers, &strings(&["There aren't any DNS Servers set on Wi-Fi."]));
            assert_eq!(*source, Source::Manual);
        }
        other => panic!("unexpected {:?}", other),
    }
}

#[test]
fn mismatch_is_reported_not_fatal() {
    let mut host = Host {
        set_ok: &|_| true,
        manual: &|i| if i == "Wi-Fi" { "9.9.9.9".to_string() } else { PUBLIC.join("\n") },
        resolver: String::new(),
        seen: Vec::new(),
    };
    let (outcomes, last) = run(enable_pub_dns(), &mut host);
    assert!(matches!(last, Request::Done));
    let got: Vec<(String, bool)> = outcomes.iter().map(checked).collect();
    assert_eq!(got, vec![("Wi-Fi".to_string(), false), ("Ethernet".to_string(), true)]);
}

#[test]
fn reset_mismatch_when_servers_remain() {
    let mut host = Host {
        set_ok: &|_| true,
        manual: &|_| "1.1.1.1\n".to_string(),
        resolver: String::new(),
        seen: Vec::new(),
    };
    let (outcomes, _) = run(enable_dhcp_dns(), &mut host);
    assert_eq!(checked(&outcomes[0]), ("Wi-Fi".to_string(), false));
}

#[test]
fn failure_of_listing_aborts() {
    let mut s = enable_pub_dns();
    assert!(s.advance(Event::Failed).is_none());
    assert!(matches!(s.request(), Request::Abort));
    assert!(s.advance(Event::Interfaces(LISTING.to_string())).is_none());
    assert_eq!(s.phase(), Phase::Failed);
}

#[test]
fn failure_of_manual_query_aborts() {
    let mut s = print_current_dns();
    s.advance(Event::Interfaces(LISTING.to_string()));
    assert_eq!(s.phase(), Phase::AwaitManual(0));
    s.advance(Event::Failed);
    assert!(matches!(s.request(), Request::Abort));
}

#[test]
fn unexpected_event_changes_nothing() {
    let mut s = enable_dhcp_dns();
    assert!(s.advance(Event::Applied).is_none());
    assert_eq!(s.phase(), Phase::AwaitInterfaces);
    s.advance(Event::Interfaces(LISTING.to_string()));
    assert!(s.advance(Event::Manual(UNSET.to_string())).is_none());
    assert_eq!(s.phase(), Phase::AwaitSet(0));
}

#[test]
fn no_active_interfaces_is_done_at_once() {
    let mut s = enable_pub_dns();
    s.advance(Event::Interfaces("An asterisk (*) denotes that a network service is disabled.\n".to_string()));
    assert!(matches!(s.request(), Request::Done));
}

#[test]
fn usage_errors() {
    assert_eq!(perform(args(false, false, false)).err(), Some(UsageError::NoMode));
    assert_eq!(perform(args(true, true, false)).err(), Some(UsageError::SeveralModes));
    assert_eq!(perform(args(true, false, true)).err(), Some(UsageError::SeveralModes));
    assert_eq!(perform(args(true, true, true)).err(), Some(UsageError::SeveralModes));
    assert_eq!(perform(args(false, true, false)).unwrap().mode(), Mode::ClearToDhcp);
    assert_eq!(perform(args(false, false, true)).unwrap().mode(), Mode::ListOnly);
    assert_eq!(perform(args(true, false, false)).unwrap().mode(), Mode::PublicDns);
}

#[test]
fn public_predicate_needs_any_public_address() {
    assert!(public_dns_applied(&strings(&["8.8.4.4"])));
    assert!(public_dns_applied(&strings(&["9.9.9.9", "2001:4860:4860::8844"])));
    assert!(!public_dns_applied(&strings(&["9.9.9.9"])));
    assert!(!public_dns_applied(&Vec::new()));
    assert!(check_applied(Mode::PublicDns, &strings(&["1.1.1.1"])));
}

#[test]
fn unset_phrase_is_found_in_any_line() {
    assert!(dns_unset(&strings(&["x", "There aren't any DNS Servers set on Ethernet."])));
    assert!(!dns_unset(&strings(&["1.1.1.1"])));
    assert!(!dns_unset(&Vec::new()));
    assert!(check_applied(Mode::ClearToDhcp, &strings(&[UNSET.trim()])));
}

#[test]
fn effective_dns_prefers_nonempty_fallback() {
    let manual = strings(&[UNSET.trim()]);
    let (r, s) = effective_dns(manual.clone(), strings(&["10.0.0.1"]));
    assert_eq!((r, s), (strings(&["10.0.0.1"]), Source::SystemFallback));
    let (r, s) = effective_dns(manual.clone(), Vec::new());
    assert_eq!((r, s), (manual, Source::Manual));
}

#[test]
fn server_lists() {
    assert_eq!(public_dns(), strings(&PUBLIC));
    assert_eq!(servers_for(Mode::ClearToDhcp), strings(&["empty"]));
    assert_eq!(servers_for(Mode::PublicDns), strings(&PUBLIC));
}

#[test]
fn about_text_has_version() {
    assert_eq!(get_about("0.3.1"), "Rust empowered tools v0.3.1");
}
