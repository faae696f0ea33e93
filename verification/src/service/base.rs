//! The service contract and the state every service shares.

use crate::config::{prop_view, Properties};
use crate::envelope::{kind_of, Envelope, MessageType};
use crate::json::JsonValue;
use crate::lifecycle::LifeCycle;
use crate::messaging::channel::MessageProducer;
use crate::messaging::command::Command;
use crate::messaging::event::{EventMessage, EventType};
use crate::messaging::Message;
use crate::route::model::route_meta;
use crate::service::observer::ServiceStatusObserver;
use crate::service::report::{is_report_json, ServiceReport};
use crate::service::status::ServiceStatus;
use crate::text::owned;
use crate::util::string_map::{lookup, sorted_insert, StringMap};
use std::sync::Arc;
use vstd::prelude::*;

verus! {

/// The configuration key naming the service implementation.
pub const RA_SERVICE_IMPL: &'static str = "ra.service.impl";

/// The service status events are routed to.
pub const NOTIFICATION_SERVICE: &'static str = "ra.notification.NotificationService";

/// The operation status events are routed to.
pub const NOTIFICATION_OPERATION: &'static str = "PUBLISH";

/// State shared by every service.
#[derive(Clone)]
pub struct ServiceCore {
    /// Fully-qualified name of the concrete service.
    pub service_class_name: String,
    /// Current status.
    pub status: ServiceStatus,
    /// Whether the service is registered with a registrar.
    pub registered: bool,
    /// Service version.
    pub version: Option<String>,
    /// Names of the services this one depends on.
    pub services_dependent_upon: Vec<String>,
    /// Effective configuration.
    pub config: Properties,
    /// Where this service sends outbound envelopes.
    pub producer: Option<Arc<dyn MessageProducer>>,
    /// Notified on status changes.
    pub observer: Option<Arc<dyn ServiceStatusObserver>>,
}

/// Whether `r` reports `c`: its name, status, registration, version and
/// dependencies, and whether its status is `Running`.
pub open spec fn reports(c: ServiceCore, r: ServiceReport) -> bool {
    &&& r.service_class_name@ == c.service_class_name@
    &&& r.service_status == c.status
    &&& r.registered == c.registered
    &&& r.running == (c.status == ServiceStatus::Running)
    &&& match c.version {
        Some(v) => r.version matches Some(w) && w@ == v@,
        None => r.version is None,
    }
    &&& r.services_dependent_upon@ == c.services_dependent_upon@
}

/// Whether `e` announces the state of `c`: an event envelope of type
/// `SERVICE_STATUS` carrying a report of `c` as its payload, routed to the
/// notification service's `PUBLISH` operation, with no routes left on its slip.
pub open spec fn is_status_envelope(c: ServiceCore, e: Envelope) -> bool {
    &&& e.message matches Some(Message::Event(m)) && m.event_type@ == "SERVICE_STATUS"@
        && (m.message matches Some(p) && exists|rep: ServiceReport|
        reports(c, rep) && #[trigger] is_report_json(p, rep))
    &&& e.route matches Some(x) && (route_meta(x).service matches Some(s) && s@
        == "ra.notification.NotificationService"@) && (route_meta(x).operation matches Some(o)
        && o@ == "PUBLISH"@)
    &&& e.dynamic_routing_slip.spec_routes().len() == 0
}

impl ServiceCore {
    /// A new core for the given fully-qualified service name: not initialized,
    /// not registered, no version, dependencies, configuration, producer or
    /// observer.
    pub fn new(service_class_name: String) -> (r: ServiceCore)
        ensures
            r.service_class_name@ == service_class_name@,
            r.status == ServiceStatus::NotInitialized,
            !r.registered,
            r.version is None,
            r.services_dependent_upon@.len() == 0,
            r.config@.len() == 0,
            r.producer is None,
            r.observer is None,
    {
        ServiceCore {
            service_class_name,
            status: ServiceStatus::NotInitialized,
            registered: false,
            version: None,
            services_dependent_upon: Vec::new(),
            config: StringMap::new(),
            producer: None,
            observer: None,
        }
    }

    /// Declares a dependency on another service.
    pub fn add_dependent_service(&mut self, name: String)
        ensures
            final(self).services_dependent_upon@ == old(self).services_dependent_upon@.push(name),
            final(self).status == old(self).status,
            final(self).service_class_name == old(self).service_class_name,
    {
        self.services_dependent_upon.push(name);
    }

    /// Sends an envelope through the producer; `false` when there is none.
    pub fn send(&self, envelope: Envelope) -> (r: bool)
        ensures
            self.producer is None ==> !r,
            self.producer matches Some(p) ==> (*p).offered(envelope),
    {
        match &self.producer {
            Some(p) => p.send(envelope),
            None => false,
        }
    }

    /// A report of the current state.
    pub fn report(&self) -> (r: ServiceReport)
        ensures
            reports(*self, r),
    {
        let mut deps: Vec<String> = Vec::new();
        let mut i: usize = 0;
        while i < self.services_dependent_upon.len()
            invariant
                i <= self.services_dependent_upon@.len(),
                deps@ == self.services_dependent_upon@.take(i as int),
            decreases self.services_dependent_upon@.len() - i,
        {
            deps.push(self.services_dependent_upon[i].clone());
            i = i + 1;
            assert(deps@ =~= self.services_dependent_upon@.take(i as int));
        }
        assert(self.services_dependent_upon@.take(i as int) =~= self.services_dependent_upon@);
        let version = match &self.version {
            Some(v) => Some(v.clone()),
            None => None,
        };
        ServiceReport {
            service_class_name: self.service_class_name.clone(),
            service_status: self.status,
            registered: self.registered,
            running: self.status == ServiceStatus::Running,
            version,
            services_dependent_upon: deps,
        }
    }

    /// Changes the status. When it actually changes, the observer (if any) is
    /// told, and a status envelope is sent through the producer (if any).
    pub fn update_status(&mut self, status: ServiceStatus)
        ensures
            *final(self) == (ServiceCore { status, ..*old(self) }),
            old(self).status != status ==> (old(self).observer matches Some(o) ==> (*o).told(
                old(self).service_class_name@,
                status,
            )),
            old(self).status != status ==> (old(self).producer matches Some(p) ==> exists|
                e: Envelope,
            | #[trigger] (*p).offered(e) && is_status_envelope(*final(self), e)),
    {
        if self.status == status {
            return ;
        }
        self.status = status;
        match &self.observer {
            Some(obs) => obs.service_status_changed(self.service_class_name.as_str(), status),
            None => {},
        }
        if self.producer.is_some() {
            let e = self.status_envelope();
            self.send(e);
        }
    }

    /// The envelope announcing the current status: an event envelope of type
    /// `SERVICE_STATUS` carrying the report as its payload, routed to the
    /// notification service's `PUBLISH` operation (already ratcheted onto that
    /// route).
    pub fn status_envelope(&self) -> (r: Envelope)
        ensures
            is_status_envelope(*self, r),
    {
        let mut ev = EventMessage::of(EventType::ServiceStatus);
        let rep = self.report();
        let payload = rep.to_json();
        ev.set_message(payload);
        let mut e = Envelope::event(EventType::ServiceStatus);
        e.message = Some(Message::Event(ev));
        e.add_route(owned(NOTIFICATION_SERVICE), owned(NOTIFICATION_OPERATION));
        e.ratchet();
        e
    }
}

/// What a service does for a command message.
#[derive(Debug, Clone, Copy, PartialEq, Eq, Structural)]
pub enum CommandAction {
    Start,
    Pause,
    Unpause,
    Restart,
    Shutdown,
    GracefulShutdown,
    Report,
    Ignore,
}

/// The action for a command: the lifecycle method of the same name, a report,
/// or nothing (for no command, or one a service does not act on itself).
pub open spec fn action_for(command: Option<Command>) -> CommandAction {
    match command {
        Some(Command::Start) => CommandAction::Start,
        Some(Command::Pause) => CommandAction::Pause,
        Some(Command::Unpause) => CommandAction::Unpause,
        Some(Command::Restart) => CommandAction::Restart,
        Some(Command::Shutdown) => CommandAction::Shutdown,
        Some(Command::GracefullyShutdown) => CommandAction::GracefulShutdown,
        Some(Command::Report) => CommandAction::Report,
        _ => CommandAction::Ignore,
    }
}

/// The command an envelope carries, if it carries a command message naming one.
pub open spec fn command_of(e: Envelope) -> Option<Command> {
    match e.message {
        Some(Message::Command(c)) => c.command,
        _ => None,
    }
}

/// The action for a command.
pub fn command_action(command: Option<Command>) -> (r: CommandAction)
    ensures
        r == action_for(command),
{
    match command {
        Some(Command::Start) => CommandAction::Start,
        Some(Command::Pause) => CommandAction::Pause,
        Some(Command::Unpause) => CommandAction::Unpause,
        Some(Command::Restart) => CommandAction::Restart,
        Some(Command::Shutdown) => CommandAction::Shutdown,
        Some(Command::GracefullyShutdown) => CommandAction::GracefulShutdown,
        Some(Command::Report) => CommandAction::Report,
        _ => CommandAction::Ignore,
    }
}

/// The command an envelope carries.
pub fn envelope_command(e: &Envelope) -> (r: Option<Command>)
    ensures
        r == command_of(*e),
{
    match &e.message {
        Some(Message::Command(c)) => c.command,
        _ => None,
    }
}

/// A message-driven service.
pub trait Service: LifeCycle {
    /// The shared state.
    fn service_core(&self) -> &ServiceCore;

    /// The shared state, for changing it.
    fn service_core_mut(&mut self) -> &mut ServiceCore;

    /// Handles a document message. Default: ignore it.
    fn handle_document(&mut self, envelope: &mut Envelope) {
    }

    /// Handles an event message. Default: ignore it.
    fn handle_event(&mut self, envelope: &mut Envelope) {
    }

    /// Handles a command message. Default: run the lifecycle method the
    /// command names (starting with the service's configuration), or for a
    /// report command put the report into the `result` header; other commands,
    /// and envelopes without one, are ignored.
    fn handle_command(&mut self, envelope: &mut Envelope)
        default_ensures
            action_for(command_of(*old(envelope))) != CommandAction::Report ==> *final(envelope)
                == *old(envelope),
            action_for(command_of(*old(envelope))) == CommandAction::Report ==> {
                &&& exists|rep: ServiceReport, v: JsonValue|
                    #![trigger is_report_json(v, rep)]
                    call_ensures(Self::report, (&*old(self),), rep) && is_report_json(v, rep)
                        && lookup(final(envelope).headers@, "result"@) == Some(v)
                &&& forall|k: Seq<char>|
                    k != "result"@ ==> #[trigger] lookup(final(envelope).headers@, k) == lookup(
                        old(envelope).headers@,
                        k,
                    )
                &&& *final(envelope) == (Envelope { headers: final(envelope).headers, ..*old(envelope) })
                &&& *final(self) == *old(self)
            },
            action_for(command_of(*old(envelope))) == CommandAction::Ignore ==> *final(self)
                == *old(self),
            action_for(command_of(*old(envelope))) == CommandAction::Start ==> exists|
                c: &ServiceCore,
                s: &mut Self,
                p: &Properties,
                b: bool,
            |
                #![trigger call_ensures(Self::start, (s, p), b), call_ensures(Self::service_core, (&*old(self),), c)]
                call_ensures(Self::service_core, (&*old(self),), c) && prop_view(p@)
                    == prop_view(c.config@) && *s == *old(self) && *final(s) == *final(self)
                    && call_ensures(Self::start, (s, p), b),
            action_for(command_of(*old(envelope))) == CommandAction::Pause ==> exists|
                s: &mut Self,
                b: bool,
            |
                #![trigger call_ensures(Self::pause, (s,), b)]
                *s == *old(self) && *final(s) == *final(self) && call_ensures(Self::pause, (s,), b),
            action_for(command_of(*old(envelope))) == CommandAction::Unpause ==> exists|
                s: &mut Self,
                b: bool,
            |
                #![trigger call_ensures(Self::unpause, (s,), b)]
                *s == *old(self) && *final(s) == *final(self) && call_ensures(Self::unpause, (s,), b),
            action_for(command_of(*old(envelope))) == CommandAction::Restart ==> exists|
                s: &mut Self,
                b: bool,
            |
                #![trigger call_ensures(Self::restart, (s,), b)]
                *s == *old(self) && *final(s) == *final(self) && call_ensures(Self::restart, (s,), b),
            action_for(command_of(*old(envelope))) == CommandAction::Shutdown ==> exists|
                s: &mut Self,
                b: bool,
            |
                #![trigger call_ensures(Self::shutdown, (s,), b)]
                *s == *old(self) && *final(s) == *final(self) && call_ensures(Self::shutdown, (s,), b),
            action_for(command_of(*old(envelope))) == CommandAction::GracefulShutdown ==> exists|
                s: &mut Self,
                b: bool,
            |
                #![trigger call_ensures(Self::graceful_shutdown, (s,), b)]
                *s == *old(self) && *final(s) == *final(self) && call_ensures(
                    Self::graceful_shutdown,
                    (s,),
                    b,
                ),
    {
        match command_action(envelope_command(envelope)) {
            CommandAction::Start => {
                let config = self.service_core().config.clone();
                self.start(&config);
            },
            CommandAction::Pause => {
                self.pause();
            },
            CommandAction::Unpause => {
                self.unpause();
            },
            CommandAction::Restart => {
                self.restart();
            },
            CommandAction::Shutdown => {
                self.shutdown();
            },
            CommandAction::GracefulShutdown => {
                self.graceful_shutdown();
            },
            CommandAction::Report => {
                let report = self.report();
                let v = report.to_json();
                let ghost g = v;
                let ghost before = envelope.headers@;
                envelope.set_header(owned("result"), v);
                proof {
                    reveal_strlit("result");
                    crate::util::string_map::lemma_lookup_after_insert_all(before, "result"@, g);
                }
            },
            CommandAction::Ignore => {},
        }
    }

    /// Handles a headers-only (or text) envelope. Default: ignore it.
    fn handle_headers(&mut self, envelope: &mut Envelope) {
    }

    /// The current status.
    fn service_status(&self) -> (r: ServiceStatus)
        default_ensures
            exists|c: &ServiceCore| #[trigger] call_ensures(Self::service_core, (self,), c) && r == c.status,
    {
        self.service_core().status
    }

    /// A report of the current state.
    fn report(&self) -> (r: ServiceReport)
        default_ensures
            exists|c: &ServiceCore| #[trigger] call_ensures(Self::service_core, (self,), c) && reports(*c, r),
    {
        self.service_core().report()
    }

    /// Dispatches `envelope` to the handler for its kind of message (document,
    /// event, command; anything else to the headers handler) and returns it.
    fn handle(&mut self, envelope: Envelope) -> (r: Envelope)
        default_ensures
            exists|s: &mut Self, e: &mut Envelope|
                *s == *old(self) && *final(s) == *final(self) && *e == envelope
                    && *final(e) == r && match kind_of(envelope) {
                    MessageType::Document => call_ensures(Self::handle_document, (s, e), ()),
                    MessageType::Event => call_ensures(Self::handle_event, (s, e), ()),
                    MessageType::Command => call_ensures(Self::handle_command, (s, e), ()),
                    _ => call_ensures(Self::handle_headers, (s, e), ()),
                },
    {
        let mut envelope = envelope;
        match envelope.message_type() {
            MessageType::Document => self.handle_document(&mut envelope),
            MessageType::Event => self.handle_event(&mut envelope),
            MessageType::Command => self.handle_command(&mut envelope),
            _ => self.handle_headers(&mut envelope),
        }
        envelope
    }
}

} // verus!
