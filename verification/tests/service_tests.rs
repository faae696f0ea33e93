use ra_common::config::Properties;
use ra_common::envelope::Envelope;
use ra_common::json::JsonValue;
use ra_common::lifecycle::LifeCycle;
use ra_common::messaging::command::{Command, CommandMessage};
use ra_common::messaging::Message;
use ra_common::service::base::{command_action, CommandAction, Service, ServiceCore};
use ra_common::service::message::{ServiceMessage, NO_ERROR};
use ra_common::service::status::{ServiceLevel, ServiceStatus};

struct Toy {
    core: ServiceCore,
    started: bool,
}

impl LifeCycle for Toy {
    fn start(&mut self, _p: &Properties) -> bool {
        self.started = true;
        self.core.update_status(ServiceStatus::Running);
        true
    }
    fn shutdown(&mut self) -> bool {
        self.started = false;
        self.core.update_status(ServiceStatus::Shutdown);
        true
    }
}

impl Service for Toy {
    fn service_core(&self) -> &ServiceCore {
        &self.core
    }
    fn service_core_mut(&mut self) -> &mut ServiceCore {
        &mut self.core
    }
}

#[test]
fn command_message_drives_lifecycle() {
    let mut toy = Toy { core: ServiceCore::new("ra.test.Toy".to_string()), started: false };
    let mut e = Envelope::command();
    if let Some(Message::Command(c)) = e.message.as_mut() {
        *c = CommandMessage::new(Command::Start);
    }
    let out = toy.handle(e);
    assert!(toy.started);
    assert_eq!(toy.service_status(), ServiceStatus::Running);
    let mut r = Envelope::command();
    if let Some(Message::Command(c)) = r.message.as_mut() {
        *c = CommandMessage::new(Command::Report);
    }
    let r = toy.handle(r);
    assert!(r.header("result").is_some());
    drop(out);
}

#[test]
fn report_reflects_state() {
    let mut core = ServiceCore::new("ra.test.Svc".to_string());
    core.version = Some("9.9".into());
    core.update_status(ServiceStatus::Running);
    let rep = core.report();
    assert!(rep.running);
    assert_eq!(rep.version.as_deref(), Some("9.9"));
}

#[test]
fn report_json_has_the_report_fields() {
    let mut core = ServiceCore::new("ra.test.Svc".to_string());
    core.add_dependent_service("ra.tor.TorService".to_string());
    core.update_status(ServiceStatus::Paused);
    let v = core.report().to_json();
    match v {
        JsonValue::Object(o) => {
            assert_eq!(o.get("service_class_name"), Some(&JsonValue::String("ra.test.Svc".into())));
            assert_eq!(o.get("service_status"), Some(&JsonValue::String("Paused".into())));
            assert_eq!(o.get("running"), Some(&JsonValue::Bool(false)));
            assert_eq!(o.get("registered"), Some(&JsonValue::Bool(false)));
            assert!(o.get("version").is_none());
            assert_eq!(o.len(), 5);
        }
        _ => panic!("a report is an object"),
    }
}

#[test]
fn shutdown_and_ignored_commands() {
    let mut toy = Toy { core: ServiceCore::new("t".to_string()), started: true };
    let mut e = Envelope::command();
    if let Some(Message::Command(c)) = e.message.as_mut() {
        *c = CommandMessage::new(Command::NetState);
    }
    let e = toy.handle(e);
    assert!(e.headers.is_empty());
    assert!(toy.started);
    let mut s = Envelope::command();
    if let Some(Message::Command(c)) = s.message.as_mut() {
        *c = CommandMessage::new(Command::GracefullyShutdown);
    }
    toy.handle(s);
    assert!(!toy.started);
    assert_eq!(toy.service_status(), ServiceStatus::Shutdown);
    assert_eq!(command_action(Some(Command::Pause)), CommandAction::Pause);
    assert_eq!(command_action(None), CommandAction::Ignore);
}

#[test]
fn status_envelope_targets_the_notification_service() {
    let core = ServiceCore::new("ra.test.Svc".to_string());
    let e = core.status_envelope();
    let r = e.route.as_ref().unwrap();
    assert_eq!(r.service(), Some("ra.notification.NotificationService"));
    assert_eq!(r.operation(), Some("PUBLISH"));
    match &e.message {
        Some(Message::Event(m)) => {
            assert_eq!(m.event_type, "SERVICE_STATUS");
            assert!(m.message.is_some());
        }
        _ => panic!("a status envelope carries an event"),
    }
    assert!(!core.send(e));
}

#[test]
fn statuses_and_messages() {
    assert!(ServiceStatus::DegradedRunning.is_running());
    assert!(!ServiceStatus::Paused.is_running());
    assert_eq!(ServiceLevel::default(), ServiceLevel::AtLeastOnce);
    let mut m = ServiceMessage::default();
    assert_eq!(m.status_code, NO_ERROR);
    assert!(!m.is_error());
    m.error_message = Some("x".into());
    assert!(m.is_error());
}

struct Recorder {
    told: std::sync::Mutex<Vec<(String, ServiceStatus)>>,
    sent: std::sync::Mutex<Vec<Envelope>>,
}

impl ra_common::service::observer::ServiceStatusObserver for Recorder {
    fn service_status_changed(&self, service_full_name: &str, status: ServiceStatus) {
        self.told.lock().unwrap().push((service_full_name.to_string(), status));
    }
}

impl ra_common::messaging::channel::MessageProducer for Recorder {
    fn send(&self, envelope: Envelope) -> bool {
        self.sent.lock().unwrap().push(envelope);
        true
    }

    fn send_with_callback(
        &self,
        envelope: Envelope,
        _callback: std::sync::Arc<dyn ra_common::lifecycle::Client>,
    ) -> bool {
        self.send(envelope)
    }

    fn dead_letter(&self, _envelope: Envelope) -> bool {
        false
    }
}

#[test]
fn status_change_tells_observer_and_publishes() {
    let rec = std::sync::Arc::new(Recorder {
        told: std::sync::Mutex::new(Vec::new()),
        sent: std::sync::Mutex::new(Vec::new()),
    });
    let mut core = ServiceCore::new("ra.test.Svc".to_string());
    core.observer = Some(rec.clone());
    core.producer = Some(rec.clone());
    core.update_status(ServiceStatus::Running);
    core.update_status(ServiceStatus::Running);
    let told = rec.told.lock().unwrap();
    assert_eq!(told.len(), 1);
    assert_eq!(told[0], ("ra.test.Svc".to_string(), ServiceStatus::Running));
    let sent = rec.sent.lock().unwrap();
    assert_eq!(sent.len(), 1);
    match &sent[0].message {
        Some(Message::Event(m)) => assert_eq!(m.event_type.as_str(), "SERVICE_STATUS"),
        _ => panic!("expected an event message"),
    }
}
