use cups_api::mqtt::{
    config_from_supervisor, detect_mqtt, discovery_config, mqtt_state, session_options,
    session_step, topic_of, Message, MqttConfig, MqttDetection, Qos, SessionAction, SessionEvent,
    SessionPhase, SupervisorMqttData, SupervisorReply, ATTRIBUTES_TOPIC, DISCOVERY_TOPIC,
    STATE_TOPIC,
};
use cups_api::status::{CupsInfo, PrinterInfo, StatusResponse};

fn reply(result: &str, username: Option<&str>) -> SupervisorReply {
    SupervisorReply {
        result: result.to_string(),
        data: SupervisorMqttData {
            host: "core-mosquitto".to_string(),
            port: 1883,
            username: username.map(|u| u.to_string()),
            password: None,
        },
    }
}

#[test]
fn hand_set_host_wins() {
    match detect_mqtt("broker", Some("1884"), "user", "pw", "token") {
        MqttDetection::Configured(c) => {
            assert_eq!(c.host, "broker");
            assert_eq!(c.port, 1884);
            assert_eq!(c.username, "user");
            assert_eq!(c.password, "pw");
        }
        other => panic!("unexpected {:?}", other),
    }
}

#[test]
fn bad_or_missing_port_is_1883() {
    for port in [None, Some("x"), Some("70000"), Some("")] {
        match detect_mqtt("broker", port, "", "", "") {
            MqttDetection::Configured(c) => assert_eq!(c.port, 1883),
            other => panic!("unexpected {:?}", other),
        }
    }
}

#[test]
fn supervisor_asked_with_bearer_token() {
    match detect_mqtt("", Some("1"), "u", "p", "abc123") {
        MqttDetection::AskSupervisor { authorization } => assert_eq!(authorization, "Bearer abc123"),
        other => panic!("unexpected {:?}", other),
    }
}

#[test]
fn nothing_to_ask() {
    assert!(matches!(detect_mqtt("", None, "", "", ""), MqttDetection::Unavailable));
}

#[test]
fn supervisor_answer() {
    let c = config_from_supervisor(true, Some(reply("ok", Some("addons")))).unwrap();
    assert_eq!(c.host, "core-mosquitto");
    assert_eq!(c.port, 1883);
    assert_eq!(c.username, "addons");
    assert_eq!(c.password, "");
    assert!(config_from_supervisor(true, Some(reply("error", None))).is_none());
    assert!(config_from_supervisor(false, Some(reply("ok", None))).is_none());
    assert!(config_from_supervisor(true, None).is_none());
}

#[test]
fn options_for_session() {
    let cfg = MqttConfig {
        host: "h".to_string(),
        port: 1883,
        username: "u".to_string(),
        password: "p".to_string(),
    };
    let o = session_options(&cfg, 4321);
    assert_eq!(o.client_id, "cups-api-4321");
    assert_eq!(o.host, "h");
    assert_eq!(o.port, 1883);
    assert_eq!(o.keep_alive_secs, 60);
    assert!(o.clean_session);
    assert_eq!(o.credentials, Some(("u".to_string(), "p".to_string())));
    assert_eq!(o.request_capacity, 100);
    let anonymous = MqttConfig { username: String::new(), ..cfg };
    assert_eq!(session_options(&anonymous, 7).credentials, None);
}

fn printer(name: &str, state: &str) -> PrinterInfo {
    PrinterInfo {
        name: name.to_string(),
        state: state.to_string(),
        is_accepting_jobs: true,
        is_enabled: true,
        make_and_model: String::new(),
        device_uri: String::new(),
        state_reasons: vec![],
        jobs_in_queue: 0,
    }
}

#[test]
fn state_of_first_printer() {
    let mut status = StatusResponse {
        cups: CupsInfo { is_running: true, version: "CUPS".to_string() },
        printers: vec![printer("A", "idle."), printer("B", "stopped.")],
        jobs_completed_total: 0,
        avahi_running: false,
    };
    let m = mqtt_state(&status);
    assert_eq!(m.state, "idle.");
    assert_eq!(m.printer_name, "A");
    status.printers.clear();
    let m = mqtt_state(&status);
    assert_eq!(m.state, "unknown");
    assert_eq!(m.printer_name, "");
}

#[test]
fn discovery_message() {
    let c = discovery_config();
    assert_eq!(c.name, "CUPS Printer");
    assert_eq!(c.state_topic, "homeassistant/sensor/cups_printer/state");
    assert_eq!(c.json_attributes_topic, "homeassistant/sensor/cups_printer/attributes");
    assert_eq!(c.unique_id, "cups_addon_printer");
    assert_eq!(c.icon, "mdi:printer");
    assert_eq!(c.device_class, "enum");
    assert_eq!(c.value_template, "{{ value_json.state }}");
    assert_eq!(c.device.identifiers, vec!["cups_addon"]);
    assert_eq!(c.device.name, "CUPS Print Server");
    assert_eq!(c.device.manufacturer, "CUPS");
    assert_eq!(c.device.model, "CUPS Print Server");
}

#[test]
fn topics() {
    assert_eq!(topic_of(&Message::Discovery), DISCOVERY_TOPIC);
    assert_eq!(topic_of(&Message::State), STATE_TOPIC);
    assert_eq!(topic_of(&Message::Attributes), ATTRIBUTES_TOPIC);
    assert_eq!(DISCOVERY_TOPIC, "homeassistant/sensor/cups_printer/config");
}

fn publish(message: Message, retain: bool) -> SessionAction {
    SessionAction::Publish { message, qos: Qos::AtMostOnce, retain }
}

#[test]
fn session_announces_then_reports() {
    let (p, a) = session_step(SessionPhase::Disconnected, SessionEvent::Start);
    assert_eq!(p, SessionPhase::Connected);
    assert_eq!(
        a,
        vec![
            SessionAction::Connect,
            publish(Message::Discovery, true),
            publish(Message::State, false),
            publish(Message::Attributes, false),
            SessionAction::StartTimer { period_secs: 30 },
        ]
    );
    let (p, a) = session_step(p, SessionEvent::Tick);
    assert_eq!(p, SessionPhase::Connected);
    assert_eq!(a, vec![publish(Message::State, false), publish(Message::Attributes, false)]);
    let (p, a) = session_step(p, SessionEvent::Traffic);
    assert_eq!(p, SessionPhase::Connected);
    assert!(a.is_empty());
}

#[test]
fn failure_pauses_and_closes() {
    let (p, a) = session_step(SessionPhase::Connected, SessionEvent::Failure);
    assert_eq!(p, SessionPhase::Disconnected);
    assert_eq!(a, vec![SessionAction::Pause { secs: 10 }, SessionAction::Pause { secs: 10 }]);
    let (p, a) = session_step(p, SessionEvent::Tick);
    assert_eq!(p, SessionPhase::Disconnected);
    assert!(a.is_empty());
    let (p, a) = session_step(p, SessionEvent::Start);
    assert_eq!(p, SessionPhase::Connected);
    assert_eq!(a[1], publish(Message::Discovery, true));
}
