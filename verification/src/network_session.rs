//! One run of the system network mode, from waiting for the TAP interface to
//! removing the temporary profile.
use vstd::prelude::*;
use vstd::string::StringExecFns;

use crate::system_network::{
    activate_profile, add_profile, delete_profile, endpoint_route, list_endpoints, list_interfaces,
    parse_endpoints, parse_interfaces, preserve_mac, route_uses_tap, show_details, show_fwmark,
    show_route, show_status, CommandLine, CommandView,
};

verus! {

/// Where a session stands.
#[derive(Clone, Copy, Debug, PartialEq, Eq, Structural)]
pub enum SessionPhase {
    /// Looks for the TAP interface.
    WaitTap,
    /// Asks whether NetworkManager runs.
    Status,
    /// Adds the profile.
    Add,
    /// Keeps the MAC address of the TAP interface.
    Preserve,
    /// Activates the profile.
    Activate,
    /// Shows what was configured.
    Show,
    /// Asks for the route to the internet.
    Route,
    /// Lists the WireGuard interfaces.
    Interfaces,
    /// Lists the endpoints of an interface.
    Endpoints,
    /// Asks for the mark of an interface.
    Fwmark,
    /// Asks for the route to an endpoint.
    EndpointRoute,
    /// Waits for the program to shut down.
    AwaitCancel,
    /// Removes the profile.
    Delete,
    /// The session is over.
    Done,
}

/// What can happen in a session.
#[derive(Debug)]
pub enum SessionEvent {
    /// The program is shutting down.
    Cancelled,
    /// There is no TAP interface yet.
    TapMissing,
    /// The TAP interface is there; whether the program is shutting down.
    TapUp(bool),
    /// The TAP interface could not be looked for.
    ProbeFailed(String),
    /// A command ended with this result.
    Output(Result<String, String>),
}

/// What can happen in a session, as texts.
pub enum SessionEventView {
    Cancelled,
    TapMissing,
    TapUp(bool),
    ProbeFailed(Seq<char>),
    Output(Result<Seq<char>, Seq<char>>),
}

impl View for SessionEvent {
    type V = SessionEventView;

    open spec fn view(&self) -> SessionEventView {
        match self {
            SessionEvent::Cancelled => SessionEventView::Cancelled,
            SessionEvent::TapMissing => SessionEventView::TapMissing,
            SessionEvent::TapUp(cancelled) => SessionEventView::TapUp(*cancelled),
            SessionEvent::ProbeFailed(err) => SessionEventView::ProbeFailed(err@),
            SessionEvent::Output(result) => SessionEventView::Output(
                crate::system_network::result_view(*result),
            ),
        }
    }
}

/// What to do next.
#[derive(Debug)]
pub enum SessionAction {
    /// Wait a little and look for the TAP interface, or stop at a shutdown.
    Probe,
    /// Run a command.
    Run(CommandLine),
    /// Run a command, or stop it at a shutdown.
    RunOrCancel(CommandLine),
    /// Wait for the shutdown.
    AwaitCancel,
    /// The session is over.
    Finish(Result<(), String>),
}

/// What to do next, as texts.
pub enum SessionActionView {
    Probe,
    Run(CommandView),
    RunOrCancel(CommandView),
    AwaitCancel,
    Finish(Result<(), Seq<char>>),
}

/// The texts of an outcome.
pub open spec fn outcome_view(r: Result<(), String>) -> Result<(), Seq<char>> {
    match r {
        Ok(()) => Ok(()),
        Err(s) => Err(s@),
    }
}

impl View for SessionAction {
    type V = SessionActionView;

    open spec fn view(&self) -> SessionActionView {
        match self {
            SessionAction::Probe => SessionActionView::Probe,
            SessionAction::Run(command) => SessionActionView::Run(command@),
            SessionAction::RunOrCancel(command) => SessionActionView::RunOrCancel(command@),
            SessionAction::AwaitCancel => SessionActionView::AwaitCancel,
            SessionAction::Finish(outcome) => SessionActionView::Finish(outcome_view(*outcome)),
        }
    }
}

/// A run of the system network mode.
#[derive(Debug)]
pub struct NetworkSession {
    pub phase: SessionPhase,
    /// The name of the temporary profile.
    pub profile: String,
    /// The metric of the routes.
    pub metric: u32,
    /// What the session ends with.
    pub outcome: Result<(), String>,
    /// The WireGuard interfaces that are left, the current one first.
    pub interfaces: Vec<String>,
    /// The endpoints of the current interface that are left.
    pub endpoints: Vec<String>,
    /// The mark of the current interface.
    pub fwmark: String,
}

/// A run of the system network mode, as texts.
#[verifier::ext_equal]
pub struct SessionView {
    pub phase: SessionPhase,
    pub profile: Seq<char>,
    pub metric: u32,
    pub outcome: Result<(), Seq<char>>,
    pub interfaces: Seq<Seq<char>>,
    pub endpoints: Seq<Seq<char>>,
    pub fwmark: Seq<char>,
}

impl View for NetworkSession {
    type V = SessionView;

    open spec fn view(&self) -> SessionView {
        SessionView {
            phase: self.phase,
            profile: self.profile@,
            metric: self.metric,
            outcome: outcome_view(self.outcome),
            interfaces: crate::system_network::strings(self.interfaces@),
            endpoints: crate::system_network::strings(self.endpoints@),
            fwmark: self.fwmark@,
        }
    }
}

impl SessionView {
    /// There is an interface, and an endpoint, where one is being looked at.
    pub open spec fn wf(self) -> bool {
        &&& self.phase is Endpoints || self.phase is Fwmark || self.phase is EndpointRoute
            ==> self.interfaces.len() > 0
        &&& self.phase is EndpointRoute ==> self.endpoints.len() > 0
    }

    /// Whether the event answers the action of this state.
    pub open spec fn accepts(self, event: SessionEventView) -> bool {
        match self.phase {
            SessionPhase::WaitTap => !(event is Output),
            SessionPhase::Activate => event is Output || event is Cancelled,
            SessionPhase::AwaitCancel => event is Cancelled,
            SessionPhase::Done => false,
            _ => event is Output,
        }
    }

    /// The state in another phase.
    pub open spec fn at(self, phase: SessionPhase) -> SessionView {
        SessionView { phase, ..self }
    }

    /// The state in another phase, with a failure as the outcome.
    pub open spec fn failing(self, phase: SessionPhase, message: Seq<char>) -> SessionView {
        SessionView { phase, outcome: Err(message), ..self }
    }

    /// Looks at the first of these interfaces, or goes on to wait for the shutdown.
    pub open spec fn at_interface(self, interfaces: Seq<Seq<char>>) -> SessionView {
        SessionView {
            phase: if interfaces.len() == 0 {
                SessionPhase::AwaitCancel
            } else {
                SessionPhase::Endpoints
            },
            interfaces,
            ..self
        }
    }

    /// Looks at the first of these endpoints, or goes on to the next interface.
    pub open spec fn at_endpoint(self, endpoints: Seq<Seq<char>>) -> SessionView {
        let state = SessionView { endpoints, ..self };
        if endpoints.len() == 0 {
            state.at_interface(self.interfaces.drop_first())
        } else {
            state.at(SessionPhase::EndpointRoute)
        }
    }

    /// The state that follows.
    pub open spec fn next(self, event: SessionEventView) -> SessionView {
        match (self.phase, event) {
            (SessionPhase::WaitTap, SessionEventView::Cancelled) => self.at(SessionPhase::Done),
            (SessionPhase::WaitTap, SessionEventView::TapUp(cancelled)) => self.at(
                if cancelled {
                    SessionPhase::Done
                } else {
                    SessionPhase::Status
                },
            ),
            (SessionPhase::WaitTap, SessionEventView::ProbeFailed(err)) => self.failing(
                SessionPhase::Done,
                "Failed to run ip: "@ + err,
            ),
            (SessionPhase::Status, SessionEventView::Output(Ok(_))) => self.at(SessionPhase::Add),
            (SessionPhase::Status, SessionEventView::Output(Err(err))) => self.failing(
                SessionPhase::Done,
                "NetworkManager is required: "@ + err,
            ),
            (SessionPhase::Add, SessionEventView::Output(Ok(_))) => self.at(SessionPhase::Preserve),
            (SessionPhase::Add, SessionEventView::Output(Err(err))) => self.failing(
                SessionPhase::Done,
                err,
            ),
            (SessionPhase::Preserve, SessionEventView::Output(Ok(_))) => self.at(
                SessionPhase::Activate,
            ),
            (SessionPhase::Preserve, SessionEventView::Output(Err(err))) => self.failing(
                SessionPhase::Delete,
                err,
            ),
            (SessionPhase::Activate, SessionEventView::Cancelled) => self.at(SessionPhase::Delete),
            (SessionPhase::Activate, SessionEventView::Output(Ok(_))) => self.at(
                SessionPhase::Show,
            ),
            (SessionPhase::Activate, SessionEventView::Output(Err(err))) => self.failing(
                SessionPhase::Delete,
                err,
            ),
            (SessionPhase::Show, SessionEventView::Output(Ok(_))) => self.at(SessionPhase::Route),
            (SessionPhase::Show, SessionEventView::Output(Err(err))) => self.failing(
                SessionPhase::Delete,
                err,
            ),
            (SessionPhase::Route, SessionEventView::Output(Ok(route))) => self.at(
                if crate::scan::occurs("dev esp32tap"@, route) {
                    SessionPhase::AwaitCancel
                } else {
                    SessionPhase::Interfaces
                },
            ),
            (SessionPhase::Route, SessionEventView::Output(Err(_))) => self.at(
                SessionPhase::AwaitCancel,
            ),
            (SessionPhase::Interfaces, SessionEventView::Output(Ok(listing))) =>
                self.at_interface(crate::scan::words(listing)),
            (SessionPhase::Interfaces, SessionEventView::Output(Err(_))) => self.at(
                SessionPhase::AwaitCancel,
            ),
            (SessionPhase::Endpoints, SessionEventView::Output(Ok(listing))) => SessionView {
                phase: SessionPhase::Fwmark,
                endpoints: crate::system_network::endpoints_of(listing),
                ..self
            },
            (SessionPhase::Endpoints, SessionEventView::Output(Err(_))) => self.at_interface(
                self.interfaces.drop_first(),
            ),
            (SessionPhase::Fwmark, SessionEventView::Output(result)) => SessionView {
                fwmark: match result {
                    Ok(mark) => mark,
                    Err(_) => "off"@,
                },
                ..self
            }.at_endpoint(self.endpoints),
            (SessionPhase::EndpointRoute, SessionEventView::Output(_)) => self.at_endpoint(
                self.endpoints.drop_first(),
            ),
            (SessionPhase::AwaitCancel, SessionEventView::Cancelled) => self.at(
                SessionPhase::Delete,
            ),
            (SessionPhase::Delete, SessionEventView::Output(_)) => self.at(SessionPhase::Done),
            _ => self,
        }
    }

    /// What the state asks for.
    pub open spec fn action(self) -> SessionActionView {
        match self.phase {
            SessionPhase::WaitTap => SessionActionView::Probe,
            SessionPhase::Status => SessionActionView::Run(crate::system_network::status_command()),
            SessionPhase::Add => SessionActionView::Run(
                crate::system_network::add_command(self.profile, self.metric),
            ),
            SessionPhase::Preserve => SessionActionView::Run(
                crate::system_network::preserve_command(self.profile),
            ),
            SessionPhase::Activate => SessionActionView::RunOrCancel(
                crate::system_network::activate_command(self.profile),
            ),
            SessionPhase::Show => SessionActionView::Run(crate::system_network::show_command()),
            SessionPhase::Route => SessionActionView::Run(crate::system_network::route_command()),
            SessionPhase::Interfaces => SessionActionView::Run(
                crate::system_network::interfaces_command(),
            ),
            SessionPhase::Endpoints => SessionActionView::Run(
                crate::system_network::endpoints_command(self.interfaces[0]),
            ),
            SessionPhase::Fwmark => SessionActionView::Run(
                crate::system_network::fwmark_command(self.interfaces[0]),
            ),
            SessionPhase::EndpointRoute => SessionActionView::Run(
                crate::system_network::endpoint_route_command(self.endpoints[0], self.fwmark),
            ),
            SessionPhase::AwaitCancel => SessionActionView::AwaitCancel,
            SessionPhase::Delete => SessionActionView::Run(
                crate::system_network::delete_command(self.profile),
            ),
            SessionPhase::Done => SessionActionView::Finish(self.outcome),
        }
    }
}

/// Removes the first string of a list.
fn drop_front(list: &mut Vec<String>)
    requires
        old(list)@.len() > 0,
    ensures
        crate::system_network::strings(final(list)@) == crate::system_network::strings(
            old(list)@,
        ).drop_first(),
{
    list.remove(0);
    assert(crate::system_network::strings(list@) =~= crate::system_network::strings(
        old(list)@,
    ).drop_first());
}

impl NetworkSession {
    /// A session that waits for the TAP interface.
    pub fn new(profile: String, metric: u32) -> (r: NetworkSession)
        ensures
            r@ == (SessionView {
                phase: SessionPhase::WaitTap,
                profile: profile@,
                metric,
                outcome: Ok(()),
                interfaces: Seq::empty(),
                endpoints: Seq::empty(),
                fwmark: ""@,
            }),
            r@.wf(),
    {
        let r = NetworkSession {
            phase: SessionPhase::WaitTap,
            profile,
            metric,
            outcome: Ok(()),
            interfaces: Vec::new(),
            endpoints: Vec::new(),
            fwmark: "".to_owned(),
        };
        assert(r@.interfaces =~= Seq::empty());
        assert(r@.endpoints =~= Seq::empty());
        r
    }

    /// Goes on to the first interface that is left, or to the end of the report.
    fn enter_interface(&mut self)
        ensures
            final(self)@ == old(self)@.at_interface(old(self)@.interfaces),
    {
        self.phase = if self.interfaces.len() == 0 {
            SessionPhase::AwaitCancel
        } else {
            SessionPhase::Endpoints
        };
    }

    /// Goes on to the first endpoint that is left, or to the next interface.
    fn enter_endpoint(&mut self)
        requires
            old(self)@.interfaces.len() > 0,
        ensures
            final(self)@ == old(self)@.at_endpoint(old(self)@.endpoints),
    {
        if self.endpoints.len() == 0 {
            drop_front(&mut self.interfaces);
            self.enter_interface();
        } else {
            self.phase = SessionPhase::EndpointRoute;
        }
    }

    /// Goes on to a phase with a failure as the outcome.
    fn fail(&mut self, phase: SessionPhase, message: String)
        ensures
            final(self)@ == old(self)@.failing(phase, message@),
    {
        self.phase = phase;
        self.outcome = Err(message);
    }

    /// Takes the outcome of the action.
    pub fn step(&mut self, event: SessionEvent)
        requires
            old(self)@.wf(),
            old(self)@.accepts(event@),
        ensures
            final(self)@ == old(self)@.next(event@),
            final(self)@.wf(),
    {
        match event {
            SessionEvent::Cancelled => {
                self.phase = match self.phase {
                    SessionPhase::WaitTap => SessionPhase::Done,
                    _ => SessionPhase::Delete,
                };
            },
            SessionEvent::TapMissing => {},
            SessionEvent::TapUp(cancelled) => {
                self.phase = if cancelled {
                    SessionPhase::Done
                } else {
                    SessionPhase::Status
                };
            },
            SessionEvent::ProbeFailed(err) => {
                let mut message = "Failed to run ip: ".to_owned();
                message.append(err.as_str());
                self.fail(SessionPhase::Done, message);
            },
            SessionEvent::Output(result) => self.take_output(result),
        }
    }

    /// Takes the result of a command.
    fn take_output(&mut self, result: Result<String, String>)
        requires
            old(self)@.wf(),
            old(self)@.accepts(
                SessionEventView::Output(crate::system_network::result_view(result)),
            ),
        ensures
            final(self)@ == old(self)@.next(
                SessionEventView::Output(crate::system_network::result_view(result)),
            ),
            final(self)@.wf(),
    {
        match (self.phase, result) {
            (SessionPhase::Status, Ok(_)) => self.phase = SessionPhase::Add,
            (SessionPhase::Status, Err(err)) => {
                let mut message = "NetworkManager is required: ".to_owned();
                message.append(err.as_str());
                self.fail(SessionPhase::Done, message);
            },
            (SessionPhase::Add, Ok(_)) => self.phase = SessionPhase::Preserve,
            (SessionPhase::Add, Err(err)) => self.fail(SessionPhase::Done, err),
            (SessionPhase::Preserve, Ok(_)) => self.phase = SessionPhase::Activate,
            (SessionPhase::Activate, Ok(_)) => self.phase = SessionPhase::Show,
            (SessionPhase::Show, Ok(_)) => self.phase = SessionPhase::Route,
            (SessionPhase::Preserve, Err(err)) => self.fail(SessionPhase::Delete, err),
            (SessionPhase::Activate, Err(err)) => self.fail(SessionPhase::Delete, err),
            (SessionPhase::Show, Err(err)) => self.fail(SessionPhase::Delete, err),
            (SessionPhase::Route, Ok(route)) => {
                self.phase = if route_uses_tap(route.as_str()) {
                    SessionPhase::AwaitCancel
                } else {
                    SessionPhase::Interfaces
                };
            },
            (SessionPhase::Route, Err(_)) => self.phase = SessionPhase::AwaitCancel,
            (SessionPhase::Interfaces, Ok(listing)) => {
                self.interfaces = parse_interfaces(listing.as_str());
                self.enter_interface();
            },
            (SessionPhase::Interfaces, Err(_)) => self.phase = SessionPhase::AwaitCancel,
            (SessionPhase::Endpoints, Ok(listing)) => {
                self.endpoints = parse_endpoints(listing.as_str());
                self.phase = SessionPhase::Fwmark;
            },
            (SessionPhase::Endpoints, Err(_)) => {
                drop_front(&mut self.interfaces);
                self.enter_interface();
            },
            (SessionPhase::Fwmark, Ok(mark)) => {
                self.fwmark = mark;
                self.enter_endpoint();
            },
            (SessionPhase::Fwmark, Err(_)) => {
                self.fwmark = "off".to_owned();
                self.enter_endpoint();
            },
            (SessionPhase::EndpointRoute, _) => {
                drop_front(&mut self.endpoints);
                self.enter_endpoint();
            },
            _ => self.phase = SessionPhase::Done,
        }
    }

    /// What the session asks for.
    pub fn action(&self) -> (r: SessionAction)
        requires
            self@.wf(),
        ensures
            r@ == self@.action(),
    {
        match self.phase {
            SessionPhase::WaitTap => SessionAction::Probe,
            SessionPhase::Status => SessionAction::Run(show_status()),
            SessionPhase::Add => SessionAction::Run(
                add_profile(self.profile.as_str(), self.metric),
            ),
            SessionPhase::Preserve => SessionAction::Run(preserve_mac(self.profile.as_str())),
            SessionPhase::Activate => SessionAction::RunOrCancel(
                activate_profile(self.profile.as_str()),
            ),
            SessionPhase::Show => SessionAction::Run(show_details()),
            SessionPhase::Route => SessionAction::Run(show_route()),
            SessionPhase::Interfaces => SessionAction::Run(list_interfaces()),
            SessionPhase::Endpoints => SessionAction::Run(
                list_endpoints(self.interfaces[0].as_str()),
            ),
            SessionPhase::Fwmark => SessionAction::Run(show_fwmark(self.interfaces[0].as_str())),
            SessionPhase::EndpointRoute => SessionAction::Run(
                endpoint_route(self.endpoints[0].as_str(), self.fwmark.as_str()),
            ),
            SessionPhase::AwaitCancel => SessionAction::AwaitCancel,
            SessionPhase::Delete => SessionAction::Run(delete_profile(self.profile.as_str())),
            SessionPhase::Done => SessionAction::Finish(
                match &self.outcome {
                    Ok(()) => Ok(()),
                    Err(message) => Err(message.clone()),
                },
            ),
        }
    }
}

/// The state after a sequence of events.
pub open spec fn after(start: SessionView, events: Seq<SessionEventView>) -> SessionView
    decreases events.len(),
{
    if events.len() == 0 {
        start
    } else {
        after(start, events.drop_last()).next(events.last())
    }
}

/// Whether each event of the sequence answers the action before it.
pub open spec fn possible(start: SessionView, events: Seq<SessionEventView>) -> bool {
    forall|i: int|
        0 <= i < events.len() ==> after(start, events.take(i)).accepts(#[trigger] events[i])
}

/// How often the events ended a command with success, or at all.
pub open spec fn times(start: SessionView, events: Seq<SessionEventView>, action: SessionActionView, succeeded: bool) -> nat
    decreases events.len(),
{
    if events.len() == 0 {
        0
    } else {
        let before = times(start, events.drop_last(), action, succeeded);
        let done = after(start, events.drop_last()).action() == action && (events.last() matches
            SessionEventView::Output(result) && (succeeded ==> result is Ok));
        if done {
            before + 1
        } else {
            before
        }
    }
}

/// The start of a session.
pub open spec fn begun(start: SessionView) -> bool {
    start.phase is WaitTap && start.outcome == Ok::<(), Seq<char>>(())
}

/// What the phase says of the profile and of the outcome.
spec fn profile_inv(start: SessionView, events: Seq<SessionEventView>) -> bool {
    let state = after(start, events);
    let added = times(
        start,
        events,
        SessionActionView::Run(crate::system_network::add_command(start.profile, start.metric)),
        true,
    );
    let deleted = times(
        start,
        events,
        SessionActionView::Run(crate::system_network::delete_command(start.profile)),
        false,
    );
    &&& state.profile == start.profile
    &&& state.metric == start.metric
    &&& state.wf()
    &&& state.phase is Delete || state.phase is Done || state.outcome == Ok::<(), Seq<char>>(())
    &&& match state.phase {
        SessionPhase::WaitTap | SessionPhase::Status | SessionPhase::Add => added == 0 && deleted
            == 0,
        SessionPhase::Done => added == deleted && added <= 1,
        _ => added == 1 && deleted == 0,
    }
}

/// Only one phase adds the profile, and only one removes it.
proof fn phase_of_command(state: SessionView)
    ensures
        state.action() == SessionActionView::Run(
            crate::system_network::add_command(state.profile, state.metric),
        ) <==> state.phase is Add,
        state.action() == SessionActionView::Run(
            crate::system_network::delete_command(state.profile),
        ) <==> state.phase is Delete,
{
    reveal_strlit("nmcli");
    reveal_strlit("ip");
    reveal_strlit("wg");
    assert("nmcli"@.len() == 5 && "ip"@.len() == 2 && "wg"@.len() == 2);
    assert(crate::system_network::add_command(state.profile, state.metric).args.len() == 20);
    assert(crate::system_network::delete_command(state.profile).args.len() == 4);
    assert(crate::system_network::status_command().args.len() == 2);
    assert(crate::system_network::preserve_command(state.profile).args.len() == 6);
    assert(crate::system_network::show_command().args.len() == 5);
}

/// One event keeps what the phase says.
proof fn step_keeps_inv(start: SessionView, events: Seq<SessionEventView>)
    requires
        events.len() > 0,
        profile_inv(start, events.drop_last()),
        after(start, events.drop_last()).accepts(events.last()),
    ensures
        profile_inv(start, events),
{
    let state = after(start, events.drop_last());
    phase_of_command(state);
}

proof fn session_keeps_inv(start: SessionView, events: Seq<SessionEventView>)
    requires
        begun(start),
        possible(start, events),
    ensures
        profile_inv(start, events),
    decreases events.len(),
{
    if events.len() > 0 {
        let before = events.drop_last();
        assert forall|i: int| 0 <= i < before.len() implies after(start, before.take(i)).accepts(
            #[trigger] before[i],
        ) by {
            assert(before.take(i) =~= events.take(i));
            assert(before[i] == events[i]);
        }
        session_keeps_inv(start, before);
        assert(events.take(events.len() - 1) =~= before);
        let state = after(start, before);
        assert(state.accepts(events[events.len() - 1]));
        step_keeps_inv(start, events);
    }
}

/// Whatever fails, a session asks for the removal of what it added: at its end, the
/// command that removes the profile has run exactly as often as the profile was
/// added, which is at most once.
pub proof fn an_added_profile_is_removed(start: SessionView, events: Seq<SessionEventView>)
    requires
        begun(start),
        possible(start, events),
        after(start, events).phase is Done,
    ensures
        ({
            let added = times(
                start,
                events,
                SessionActionView::Run(
                    crate::system_network::add_command(start.profile, start.metric),
                ),
                true,
            );
            let deleted = times(
                start,
                events,
                SessionActionView::Run(crate::system_network::delete_command(start.profile)),
                false,
            );
            added == deleted <= 1
        }),
{
    session_keeps_inv(start, events);
}

/// The phases whose command changes something.
pub open spec fn changes_something(phase: SessionPhase) -> bool {
    phase is Add || phase is Preserve || phase is Activate || phase is Delete
}

/// The command that a state asks for, when it asks for one.
pub open spec fn command_of(state: SessionView) -> Option<CommandView> {
    match state.action() {
        SessionActionView::Run(command) => Some(command),
        SessionActionView::RunOrCancel(command) => Some(command),
        _ => None,
    }
}

/// Whether a command only reads: it asks for the state of NetworkManager, of the TAP
/// interface, of a route or of WireGuard.
pub open spec fn only_reads(command: CommandView) -> bool {
    ||| command == crate::system_network::status_command()
    ||| command == crate::system_network::show_command()
    ||| command == crate::system_network::route_command()
    ||| command == crate::system_network::interfaces_command()
    ||| exists|interface: Seq<char>|
        command == #[trigger] crate::system_network::endpoints_command(interface)
    ||| exists|interface: Seq<char>|
        command == #[trigger] crate::system_network::fwmark_command(interface)
    ||| exists|endpoint: Seq<char>, fwmark: Seq<char>|
        command == #[trigger] crate::system_network::endpoint_route_command(endpoint, fwmark)
}

/// Nothing but the temporary profile is changed. In the phases that change
/// something, the command is one of NetworkManager on connections, and names the
/// profile; where it adds or activates the profile, it names the TAP interface too.
/// In every other phase the command, when there is one, only reads.
pub proof fn only_the_profile_is_changed(state: SessionView)
    ensures
        changes_something(state.phase) ==> (command_of(state) matches Some(command)
            && command.program == "nmcli"@ && command.args.contains("connection"@)
            && command.args.contains(state.profile)),
        state.phase is Add || state.phase is Activate ==> (command_of(state) matches Some(command)
            && command.args.contains("ifname"@) && command.args.contains("esp32tap"@)),
        !changes_something(state.phase) ==> (command_of(state) matches Some(command)
            ==> only_reads(command)),
{
    let command = command_of(state)->0;
    if state.phase is Add {
        assert(command.args[0] == "connection"@ && command.args[7] == state.profile);
        assert(command.args[4] == "ifname"@ && command.args[5] == "esp32tap"@);
    } else if state.phase is Activate {
        assert(command.args[2] == "connection"@ && command.args[5] == state.profile);
        assert(command.args[6] == "ifname"@ && command.args[7] == "esp32tap"@);
    } else if changes_something(state.phase) {
        assert(command.args[0] == "connection"@ && command.args[3] == state.profile);
    }
}

/// A shutdown ends the session from every phase that waits: before the profile is
/// added at once, and after that through its removal, whether that works or not.
/// It is no failure.
pub proof fn a_shutdown_ends_the_session(start: SessionView, events: Seq<SessionEventView>, removal: Result<Seq<char>, Seq<char>>)
    requires
        begun(start),
        possible(start, events),
        ({
            let phase = after(start, events).phase;
            phase is WaitTap || phase is Activate || phase is AwaitCancel
        }),
    ensures
        ({
            let state = after(start, events);
            let stopped = state.next(SessionEventView::Cancelled);
            let removed = stopped.next(SessionEventView::Output(removal));
            &&& state.accepts(SessionEventView::Cancelled)
            &&& if state.phase is WaitTap {
                stopped.action() == SessionActionView::Finish(Ok(()))
            } else {
                &&& stopped.action() == SessionActionView::Run(
                    crate::system_network::delete_command(start.profile),
                )
                &&& removed.action() == SessionActionView::Finish(Ok(()))
            }
        }),
{
    session_keeps_inv(start, events);
}

/// How the system network task ended.
#[derive(Debug)]
pub enum NetworkExit<E> {
    /// It was not asked for.
    NotRun,
    /// It returned.
    Finished(Result<(), E>),
    /// It was aborted or panicked.
    Crashed,
}

/// What the program exits with, and a failure of the system network that is only
/// logged.
#[derive(Debug)]
pub struct ExitDecision<E> {
    pub result: Result<(), E>,
    pub logged: Option<E>,
}

/// Combines the results of the transport and of the system network: the failure
/// of the transport comes first, then that of the network.
pub fn exit_result<E>(transport: Result<(), E>, network: NetworkExit<E>) -> (r: ExitDecision<E>)
    ensures
        match (transport, network) {
            (Ok(()), NetworkExit::Finished(Err(err))) => r.result == Err::<(), E>(err)
                && r.logged is None,
            (Err(_), NetworkExit::Finished(Err(err))) => r.result == transport && r.logged == Some(
                err,
            ),
            _ => r.result == transport && r.logged is None,
        },
{
    match network {
        NetworkExit::Finished(Err(err)) => match transport {
            Ok(()) => ExitDecision { result: Err(err), logged: None },
            Err(first) => ExitDecision { result: Err(first), logged: Some(err) },
        },
        _ => ExitDecision { result: transport, logged: None },
    }
}

/// What a session does while nothing fails: it waits for the TAP interface, asks whether
/// NetworkManager runs, adds the profile, keeps the MAC address, activates the profile,
/// shows what came of it, and asks for the route to the internet.
#[verifier::rlimit(60)]
#[verifier::spinoff_prover]
pub proof fn a_session_goes_on_step_by_step(state: SessionView, output: Seq<char>)
    ensures
        ({
            let worked = state.next(SessionEventView::Output(Ok(output)));
            &&& state.phase is WaitTap ==> {
                &&& state.action() is Probe
                &&& state.next(SessionEventView::TapMissing) == state
                &&& state.next(SessionEventView::TapUp(false)).action() == SessionActionView::Run(
                    crate::system_network::status_command(),
                )
                &&& state.next(SessionEventView::TapUp(true)).action()
                    == SessionActionView::Finish(state.outcome)
            }
            &&& state.phase is Status ==> worked.action() == SessionActionView::Run(
                crate::system_network::add_command(state.profile, state.metric),
            )
            &&& state.phase is Add ==> worked.action() == SessionActionView::Run(
                crate::system_network::preserve_command(state.profile),
            )
            &&& state.phase is Preserve ==> worked.action() == SessionActionView::RunOrCancel(
                crate::system_network::activate_command(state.profile),
            )
            &&& state.phase is Activate ==> worked.action() == SessionActionView::Run(
                crate::system_network::show_command(),
            )
            &&& state.phase is Show ==> worked.action() == SessionActionView::Run(
                crate::system_network::route_command(),
            )
            &&& state.phase is Delete ==> worked.action() == SessionActionView::Finish(
                state.outcome,
            )
            &&& !(state.phase is WaitTap) ==> worked.outcome == state.outcome
            &&& worked.profile == state.profile && worked.metric == state.metric
        }),
{
}

/// What a failure does. Before the profile is there it ends the session with its message;
/// once it is there, it is removed first, and the session ends with the message of what
/// failed, whether the removal works or not. A report that fails is no failure.
#[verifier::rlimit(60)]
#[verifier::spinoff_prover]
pub proof fn a_failure_is_the_outcome(state: SessionView, err: Seq<char>, removal: Result<Seq<char>, Seq<char>>)
    ensures
        ({
            let failed = state.next(SessionEventView::Output(Err(err)));
            let removed = failed.next(SessionEventView::Output(removal));
            &&& state.phase is WaitTap ==> state.next(SessionEventView::ProbeFailed(err)).action()
                == SessionActionView::Finish(Err("Failed to run ip: "@ + err))
            &&& state.phase is Status ==> failed.action() == SessionActionView::Finish(
                Err("NetworkManager is required: "@ + err),
            )
            &&& state.phase is Add ==> failed.action() == SessionActionView::Finish(Err(err))
            &&& state.phase is Preserve || state.phase is Activate || state.phase is Show ==> {
                &&& failed.action() == SessionActionView::Run(
                    crate::system_network::delete_command(state.profile),
                )
                &&& removed.action() == SessionActionView::Finish(Err(err))
            }
            &&& state.phase is Route || state.phase is Interfaces ==> failed.action()
                is AwaitCancel && failed.outcome == state.outcome
            &&& state.phase is Delete ==> failed.action() == SessionActionView::Finish(
                state.outcome,
            )
            &&& failed.profile == state.profile && failed.metric == state.metric
        }),
{
}

/// What the report on routes asks. A route through the TAP interface needs no report.
/// Otherwise the interfaces of WireGuard are asked for; of each of them the endpoints, its
/// mark, and with that the route to each endpoint; then comes the next interface, and
/// after the last one the wait for the shutdown. An interface that gives no endpoints is
/// passed over, and one without a mark is asked about without one.
#[verifier::rlimit(60)]
#[verifier::spinoff_prover]
pub proof fn every_endpoint_is_reported(state: SessionView, output: Seq<char>, failed: Seq<char>)
    requires
        state.wf(),
    ensures
        ({
            let told = state.next(SessionEventView::Output(Ok(output)));
            let refused = state.next(SessionEventView::Output(Err(failed)));
            let listed = crate::scan::words(output);
            let rest = state.interfaces.drop_first();
            let next_interface = if rest.len() == 0 {
                SessionActionView::AwaitCancel
            } else {
                SessionActionView::Run(crate::system_network::endpoints_command(rest[0]))
            };
            &&& state.phase is Route ==> {
                &&& crate::scan::occurs("dev esp32tap"@, output) ==> told.action() is AwaitCancel
                &&& !crate::scan::occurs("dev esp32tap"@, output) ==> told.action()
                    == SessionActionView::Run(crate::system_network::interfaces_command())
            }
            &&& state.phase is Interfaces ==> {
                &&& told.interfaces == listed
                &&& listed.len() == 0 ==> told.action() is AwaitCancel
                &&& listed.len() > 0 ==> told.action() == SessionActionView::Run(
                    crate::system_network::endpoints_command(listed[0]),
                )
            }
            &&& state.phase is Endpoints ==> {
                &&& told.interfaces == state.interfaces
                &&& told.endpoints == crate::system_network::endpoints_of(output)
                &&& told.action() == SessionActionView::Run(
                    crate::system_network::fwmark_command(state.interfaces[0]),
                )
                &&& refused.interfaces == rest
                &&& refused.action() == next_interface
            }
            &&& state.phase is Fwmark ==> {
                &&& state.endpoints.len() > 0 ==> {
                    &&& told.action() == SessionActionView::Run(
                        crate::system_network::endpoint_route_command(state.endpoints[0], output),
                    )
                    &&& refused.action() == SessionActionView::Run(
                        crate::system_network::endpoint_route_command(state.endpoints[0], "off"@),
                    )
                    &&& told.endpoints == state.endpoints && told.interfaces == state.interfaces
                }
                &&& state.endpoints.len() == 0 ==> told.action() == next_interface
                    && refused.action() == next_interface && told.interfaces == rest
            }
            &&& state.phase is EndpointRoute ==> {
                let left = state.endpoints.drop_first();
                &&& left.len() > 0 ==> told.action() == SessionActionView::Run(
                    crate::system_network::endpoint_route_command(left[0], state.fwmark),
                ) && told.endpoints == left && told.fwmark == state.fwmark && told.interfaces
                    == state.interfaces
                &&& left.len() == 0 ==> told.action() == next_interface && told.interfaces == rest
                &&& refused.action() == told.action()
                &&& refused.endpoints == told.endpoints && refused.interfaces == told.interfaces
            }
        }),
{
}

/// A shutdown never fails a session: it changes neither its outcome nor the profile that
/// is removed.
pub proof fn a_shutdown_changes_no_outcome(state: SessionView)
    requires
        state.accepts(SessionEventView::Cancelled),
    ensures
        ({
            let stopped = state.next(SessionEventView::Cancelled);
            &&& stopped.outcome == state.outcome
            &&& stopped.profile == state.profile
            &&& state.phase is WaitTap ==> stopped.action() == SessionActionView::Finish(
                state.outcome,
            )
            &&& !(state.phase is WaitTap) ==> stopped.action() == SessionActionView::Run(
                crate::system_network::delete_command(state.profile),
            )
        }),
{
}

/// What an action and an event are seen as: the same kind, with the same texts. So is the
/// state of a session.
pub proof fn sessions_are_seen_as_they_are(session: NetworkSession, action: SessionAction, event: SessionEvent)
    ensures
        action is Probe <==> action@ is Probe,
        action is AwaitCancel <==> action@ is AwaitCancel,
        action matches SessionAction::Run(command) ==> action@ == SessionActionView::Run(command@),
        action matches SessionAction::RunOrCancel(command) ==> action@
            == SessionActionView::RunOrCancel(command@),
        action matches SessionAction::Finish(Ok(())) ==> action@ == SessionActionView::Finish(
            Ok(()),
        ),
        action matches SessionAction::Finish(Err(message)) ==> action@
            == SessionActionView::Finish(Err(message@)),
        event is Cancelled <==> event@ is Cancelled,
        event is TapMissing <==> event@ is TapMissing,
        event matches SessionEvent::TapUp(cancelled) ==> event@ == SessionEventView::TapUp(
            cancelled,
        ),
        event matches SessionEvent::ProbeFailed(err) ==> event@ == SessionEventView::ProbeFailed(
            err@,
        ),
        event matches SessionEvent::Output(Ok(text)) ==> event@ == SessionEventView::Output(
            Ok(text@),
        ),
        event matches SessionEvent::Output(Err(text)) ==> event@ == SessionEventView::Output(
            Err(text@),
        ),
        session@.phase == session.phase && session@.metric == session.metric,
        session@.profile == session.profile@ && session@.fwmark == session.fwmark@,
        session@.interfaces.len() == session.interfaces@.len(),
        forall|i: int|
            0 <= i < session.interfaces@.len() ==> #[trigger] session@.interfaces[i]
                == session.interfaces@[i]@,
        session@.endpoints.len() == session.endpoints@.len(),
        forall|i: int|
            0 <= i < session.endpoints@.len() ==> #[trigger] session@.endpoints[i]
                == session.endpoints@[i]@,
        session@.outcome is Ok <==> session.outcome is Ok,
{
}

} // verus!
