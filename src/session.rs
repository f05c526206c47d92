//! The reconciliation run as a state machine: the session names the next
//! host operation, and is advanced by what that operation gave.

use vstd::prelude::*;
use crate::dns::{
    check_applied, dns_unset, effective_dns, has_public_dns, is_unset, public_dns_list, resolve,
    satisfied, servers_for, servers_of, Mode, Source,
};
use crate::parse::{
    active_interfaces, extract_dns_from_scutil, interface_list, manual_dns_lines, manual_list,
    resolver_list,
};

verus! {

/// Where a run stands.
#[derive(Clone, Copy, PartialEq, Eq, Structural, Debug)]
pub enum Phase {
    /// Waiting for the listing of network services.
    AwaitInterfaces,
    /// Waiting for the change of the interface at this index.
    AwaitSet(usize),
    /// Waiting for the manual DNS of the interface at this index.
    AwaitManual(usize),
    /// Waiting for the system-wide resolver state, for the interface at this index.
    AwaitResolver(usize),
    /// Every interface has been handled.
    Done,
    /// A host operation failed; the run is over.
    Failed,
}

/// What a host operation gave.
pub enum Event {
    /// The text of the network service listing.
    Interfaces(String),
    /// The change of an interface's DNS succeeded.
    Applied,
    /// The text of an interface's manual DNS query.
    Manual(String),
    /// The text of the system-wide resolver state.
    Resolver(String),
    /// The operation could not run, failed, or gave text that is not UTF-8.
    Failed,
}

/// The host operation that a run needs next.
#[derive(Debug)]
pub enum Request {
    /// List the network services.
    ListInterfaces,
    /// Set the DNS servers of an interface (with privilege).
    SetDns { interface: String, servers: Vec<String> },
    /// Query the manual DNS of an interface.
    GetManualDns { interface: String },
    /// Query the system-wide resolver state.
    QueryResolverState,
    /// Nothing is left to do.
    Done,
    /// The run failed and is over.
    Abort,
}

/// What a run reports for one interface.
#[derive(Debug)]
pub enum Outcome {
    /// After a change: whether the observed manual DNS is what was asked for.
    Checked { interface: String, ok: bool, observed: Vec<String> },
    /// In listing mode: the interface's effective resolvers.
    Listed { interface: String, servers: Vec<String>, source: Source },
}

pub enum EventView {
    Interfaces(Seq<char>),
    Applied,
    Manual(Seq<char>),
    Resolver(Seq<char>),
    Failed,
}

pub enum RequestView {
    ListInterfaces,
    SetDns { interface: Seq<char>, servers: Seq<Seq<char>> },
    GetManualDns { interface: Seq<char> },
    QueryResolverState,
    Done,
    Abort,
}

pub enum OutcomeView {
    Checked { interface: Seq<char>, ok: bool, observed: Seq<Seq<char>> },
    Listed { interface: Seq<char>, servers: Seq<Seq<char>>, source: Source },
}

impl View for Event {
    type V = EventView;

    open spec fn view(&self) -> EventView {
        match self {
            Event::Interfaces(t) => EventView::Interfaces(t@),
            Event::Applied => EventView::Applied,
            Event::Manual(t) => EventView::Manual(t@),
            Event::Resolver(t) => EventView::Resolver(t@),
            Event::Failed => EventView::Failed,
        }
    }
}

impl View for Request {
    type V = RequestView;

    open spec fn view(&self) -> RequestView {
        match self {
            Request::ListInterfaces => RequestView::ListInterfaces,
            Request::SetDns { interface, servers } => RequestView::SetDns {
                interface: interface@,
                servers: servers.deep_view(),
            },
            Request::GetManualDns { interface } => RequestView::GetManualDns {
                interface: interface@,
            },
            Request::QueryResolverState => RequestView::QueryResolverState,
            Request::Done => RequestView::Done,
            Request::Abort => RequestView::Abort,
        }
    }
}

impl DeepView for Outcome {
    type V = OutcomeView;

    open spec fn deep_view(&self) -> OutcomeView {
        match self {
            Outcome::Checked { interface, ok, observed } => OutcomeView::Checked {
                interface: interface@,
                ok: *ok,
                observed: observed.deep_view(),
            },
            Outcome::Listed { interface, servers, source } => OutcomeView::Listed {
                interface: interface@,
                servers: servers.deep_view(),
                source: *source,
            },
        }
    }
}

/// A run's state: its mode, the active interfaces in listing order, where it
/// stands, and the last manual DNS observed.
pub struct SessionView {
    pub mode: Mode,
    pub interfaces: Seq<Seq<char>>,
    pub phase: Phase,
    pub manual: Seq<Seq<char>>,
}

/// The phase in which a run handles the interface at index `i`.
pub open spec fn visit(mode: Mode, i: usize) -> Phase {
    match mode {
        Mode::ListOnly => Phase::AwaitManual(i),
        _ => Phase::AwaitSet(i),
    }
}

/// The phase after the interface at index `i` of `n` has been handled.
pub open spec fn after(mode: Mode, i: usize, n: int) -> Phase {
    if i + 1 < n {
        visit(mode, (i + 1) as usize)
    } else {
        Phase::Done
    }
}

/// The phase that follows the listing of `n` active interfaces.
pub open spec fn first(mode: Mode, n: int) -> Phase {
    if 0 < n {
        visit(mode, 0)
    } else {
        Phase::Done
    }
}

/// A run in `mode` that has not asked anything yet.
pub open spec fn initial(mode: Mode) -> SessionView {
    SessionView {
        mode,
        interfaces: Seq::empty(),
        phase: Phase::AwaitInterfaces,
        manual: Seq::empty(),
    }
}

/// Whether the phase's interface index, if any, names an interface.
pub open spec fn phase_in_range(phase: Phase, n: int) -> bool {
    match phase {
        Phase::AwaitSet(i) => i < n,
        Phase::AwaitManual(i) => i < n,
        Phase::AwaitResolver(i) => i < n,
        _ => true,
    }
}

/// The host operation that a run in state `s` needs next.
pub open spec fn request_of(s: SessionView) -> RequestView {
    match s.phase {
        Phase::AwaitInterfaces => RequestView::ListInterfaces,
        Phase::AwaitSet(i) => RequestView::SetDns {
            interface: s.interfaces[i as int],
            servers: servers_of(s.mode),
        },
        Phase::AwaitManual(i) => RequestView::GetManualDns { interface: s.interfaces[i as int] },
        Phase::AwaitResolver(_) => RequestView::QueryResolverState,
        Phase::Done => RequestView::Done,
        Phase::Failed => RequestView::Abort,
    }
}

/// The state that follows `s` on event `e`, and what is reported for an
/// interface on the way. An event that is not the answer to the pending
/// request changes nothing; a failure ends any run that is not over.
pub open spec fn advance_model(s: SessionView, e: EventView) -> (SessionView, Option<OutcomeView>) {
    let n = s.interfaces.len() as int;
    match s.phase {
        Phase::Done | Phase::Failed => (s, None),
        _ => match e {
            EventView::Failed => (SessionView { phase: Phase::Failed, ..s }, None),
            EventView::Interfaces(t) => match s.phase {
                Phase::AwaitInterfaces => {
                    let ifs = interface_list(t);
                    (
                        SessionView {
                            interfaces: ifs,
                            phase: first(s.mode, ifs.len() as int),
                            manual: Seq::empty(),
                            ..s
                        },
                        None,
                    )
                },
                _ => (s, None),
            },
            EventView::Applied => match s.phase {
                Phase::AwaitSet(i) => (SessionView { phase: Phase::AwaitManual(i), ..s }, None),
                _ => (s, None),
            },
            EventView::Manual(t) => match s.phase {
                Phase::AwaitManual(i) => {
                    let m = manual_list(t);
                    let name = s.interfaces[i as int];
                    if s.mode is ListOnly {
                        if is_unset(m) {
                            (SessionView { phase: Phase::AwaitResolver(i), manual: m, ..s }, None)
                        } else {
                            (
                                SessionView { phase: after(s.mode, i, n), manual: m, ..s },
                                Some(
                                    OutcomeView::Listed {
                                        interface: name,
                                        servers: m,
                                        source: Source::Manual,
                                    },
                                ),
                            )
                        }
                    } else {
                        (
                            SessionView { phase: after(s.mode, i, n), manual: m, ..s },
                            Some(
                                OutcomeView::Checked {
                                    interface: name,
                                    ok: satisfied(s.mode, m),
                                    observed: m,
                                },
                            ),
                        )
                    }
                },
                _ => (s, None),
            },
            EventView::Resolver(t) => match s.phase {
                Phase::AwaitResolver(i) => {
                    let r = resolve(s.manual, resolver_list(t));
                    (
                        SessionView { phase: after(s.mode, i, n), ..s },
                        Some(
                            OutcomeView::Listed {
                                interface: s.interfaces[i as int],
                                servers: r.0,
                                source: r.1,
                            },
                        ),
                    )
                },
                _ => (s, None),
            },
        },
    }
}

/// One run of DNS reconciliation over the active interfaces.
pub struct Session {
    mode: Mode,
    interfaces: Vec<String>,
    phase: Phase,
    manual: Vec<String>,
}

impl View for Session {
    type V = SessionView;

    closed spec fn view(&self) -> SessionView {
        SessionView {
            mode: self.mode,
            interfaces: self.interfaces.deep_view(),
            phase: self.phase,
            manual: self.manual.deep_view(),
        }
    }
}

impl Session {
    #[verifier::type_invariant]
    spec fn well_formed(self) -> bool {
        phase_in_range(self.phase, self.interfaces.len() as int)
    }

    /// A run in `mode` that has not asked anything yet.
    pub fn start(mode: Mode) -> (s: Session)
        ensures
            s@ == initial(mode),
    {
        let s = Session {
            mode,
            interfaces: Vec::new(),
            phase: Phase::AwaitInterfaces,
            manual: Vec::new(),
        };
        assert(s@.interfaces =~= Seq::<Seq<char>>::empty());
        assert(s@.manual =~= Seq::<Seq<char>>::empty());
        s
    }

    /// The run's mode.
    pub fn mode(&self) -> (r: Mode)
        ensures
            r == self@.mode,
    {
        self.mode
    }

    /// Where the run stands.
    pub fn phase(&self) -> (r: Phase)
        ensures
            r == self@.phase,
    {
        self.phase
    }

    /// The host operation that the run needs next.
    pub fn request(&self) -> (r: Request)
        ensures
            r@ == request_of(self@),
    {
        proof {
            use_type_invariant(self);
        }
        match self.phase {
            Phase::AwaitInterfaces => Request::ListInterfaces,
            Phase::AwaitSet(i) => {
                assert(self.interfaces.deep_view()[i as int] == self.interfaces@[i as int]@);
                Request::SetDns {
                    interface: self.interfaces[i].clone(),
                    servers: servers_for(self.mode),
                }
            },
            Phase::AwaitManual(i) => {
                assert(self.interfaces.deep_view()[i as int] == self.interfaces@[i as int]@);
                Request::GetManualDns { interface: self.interfaces[i].clone() }
            },
            Phase::AwaitResolver(_) => Request::QueryResolverState,
            Phase::Done => Request::Done,
            Phase::Failed => Request::Abort,
        }
    }

    /// The phase after the interface at index `i` has been handled.
    fn after_exec(&self, i: usize) -> (r: Phase)
        requires
            i < self.interfaces.len(),
        ensures
            r == after(self@.mode, i, self@.interfaces.len() as int),
            phase_in_range(r, self.interfaces.len() as int),
    {
        if i + 1 < self.interfaces.len() {
            match self.mode {
                Mode::ListOnly => Phase::AwaitManual(i + 1),
                _ => Phase::AwaitSet(i + 1),
            }
        } else {
            Phase::Done
        }
    }

    /// Takes in what the pending host operation gave; returns what is to be
    /// reported for an interface, if anything.
    pub fn advance(&mut self, event: Event) -> (r: Option<Outcome>)
        ensures
            (final(self)@, r.deep_view()) == advance_model(old(self)@, event@),
    {
        proof {
            use_type_invariant(&*self);
        }
        match self.phase {
            Phase::Done | Phase::Failed => {
                return None;
            },
            _ => {},
        }
        match event {
            Event::Failed => {
                self.phase = Phase::Failed;
                None
            },
            Event::Interfaces(t) => match self.phase {
                Phase::AwaitInterfaces => {
                    let ifs = active_interfaces(t.as_str());
                    let n = ifs.len();
                    let p = if 0 < n {
                        match self.mode {
                            Mode::ListOnly => Phase::AwaitManual(0),
                            _ => Phase::AwaitSet(0),
                        }
                    } else {
                        Phase::Done
                    };
                    self.manual = Vec::new();
                    self.interfaces = ifs;
                    self.phase = p;
                    assert(self@.manual =~= Seq::<Seq<char>>::empty());
                    None
                },
                _ => None,
            },
            Event::Applied => match self.phase {
                Phase::AwaitSet(i) => {
                    self.phase = Phase::AwaitManual(i);
                    None
                },
                _ => None,
            },
            Event::Manual(t) => match self.phase {
                Phase::AwaitManual(i) => {
                    let m = manual_dns_lines(t.as_str());
                    assert(self.interfaces.deep_view()[i as int] == self.interfaces@[i as int]@);
                    let name = self.interfaces[i].clone();
                    let next = self.after_exec(i);
                    match self.mode {
                        Mode::ListOnly => {
                            if dns_unset(&m) {
                                self.manual = m;
                                self.phase = Phase::AwaitResolver(i);
                                None
                            } else {
                                let servers = m.clone();
                                assert(servers.deep_view() =~= m.deep_view());
                                self.manual = m;
                                self.phase = next;
                                Some(Outcome::Listed { interface: name, servers, source: Source::Manual })
                            }
                        },
                        _ => {
                            let ok = check_applied(self.mode, &m);
                            let observed = m.clone();
                            assert(observed.deep_view() =~= m.deep_view());
                            self.manual = m;
                            self.phase = next;
                            Some(Outcome::Checked { interface: name, ok, observed })
                        },
                    }
                },
                _ => None,
            },
            Event::Resolver(t) => match self.phase {
                Phase::AwaitResolver(i) => {
                    let fallback = extract_dns_from_scutil(t.as_str());
                    assert(self.interfaces.deep_view()[i as int] == self.interfaces@[i as int]@);
                    let name = self.interfaces[i].clone();
                    let manual = self.manual.clone();
                    assert(manual.deep_view() =~= self.manual.deep_view());
                    let (servers, source) = effective_dns(manual, fallback);
                    self.phase = self.after_exec(i);
                    Some(Outcome::Listed { interface: name, servers, source })
                },
                _ => None,
            },
        }
    }
}

/// The report after one change of the interface that `s` is about to change,
/// when the host answers the following manual query with `host` of what was
/// written.
pub open spec fn change_once(s: SessionView, host: spec_fn(Seq<Seq<char>>) -> Seq<char>) -> Option<
    OutcomeView,
> {
    advance_model(
        advance_model(s, EventView::Applied).0,
        EventView::Manual(host(servers_of(s.mode))),
    ).1
}

/// Setting the public resolvers on an interface twice gives the same report
/// both times, when the host's manual query reflects what was written; and
/// the report is a success when the query lists what was written.
pub proof fn lemma_public_dns_repeatable(
    a: SessionView,
    b: SessionView,
    host: spec_fn(Seq<Seq<char>>) -> Seq<char>,
)
    requires
        a.mode == Mode::PublicDns,
        b.mode == Mode::PublicDns,
        a.phase is AwaitSet,
        b.phase is AwaitSet,
        phase_in_range(a.phase, a.interfaces.len() as int),
        phase_in_range(b.phase, b.interfaces.len() as int),
        a.interfaces[a.phase->AwaitSet_0 as int] == b.interfaces[b.phase->AwaitSet_0 as int],
    ensures
        change_once(a, host) == change_once(b, host),
        change_once(a, host) matches Some(OutcomeView::Checked { interface, ok, observed })
            && interface == a.interfaces[a.phase->AwaitSet_0 as int]
            && observed == manual_list(host(public_dns_list())),
        manual_list(host(public_dns_list())) == public_dns_list() ==> change_once(a, host) matches Some(
            OutcomeView::Checked { ok: true, .. },
        ),
{
    let w = public_dns_list();
    if manual_list(host(w)) == w {
        assert(w.contains(w[0]));
        assert(has_public_dns(w));
    }
}

/// The system-wide resolver state is asked for only right after an
/// interface's manual query said that none is configured: whatever the
/// state and the event, a run that starts waiting for the resolver state
/// got, in listing mode, a manual query's text with that phrase.
pub proof fn lemma_fallback_only_when_unset(s: SessionView, e: EventView)
    ensures
        ({
            let s2 = advance_model(s, e).0;
            request_of(s2) is QueryResolverState && !(request_of(s) is QueryResolverState) ==> {
                &&& s.mode == Mode::ListOnly
                &&& s.phase is AwaitManual
                &&& e is Manual
                &&& is_unset(manual_list(e->Manual_0))
            }
        }),
        (s.mode == Mode::ListOnly && s.phase is AwaitManual && e is Manual && !is_unset(
            manual_list(e->Manual_0),
        )) ==> !(request_of(advance_model(s, e).0) is QueryResolverState) && advance_model(s, e).1
            == Some(
            OutcomeView::Listed {
                interface: s.interfaces[s.phase->AwaitManual_0 as int],
                servers: manual_list(e->Manual_0),
                source: Source::Manual,
            },
        ),
{
}

/// A failed host operation ends the run: nothing more is asked of the host,
/// and no later event changes the state or reports anything.
pub proof fn lemma_failure_ends_run(s: SessionView, later: EventView)
    requires
        !(s.phase is Done),
        !(s.phase is Failed),
    ensures
        request_of(advance_model(s, EventView::Failed).0) == RequestView::Abort,
        advance_model(advance_model(s, EventView::Failed).0, later) == (
            advance_model(s, EventView::Failed).0,
            None::<OutcomeView>,
        ),
{
}

} // verus!
