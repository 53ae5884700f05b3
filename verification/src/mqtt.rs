use vstd::prelude::*;
use crate::status::{StatusResponse, PrinterInfo};
use crate::text::{parse_unsigned, decimal, parse_unsigned_text, decimal_text, concat_text};

verus! {

/// Topic of the retained discovery message.
pub const DISCOVERY_TOPIC: &'static str = "homeassistant/sensor/cups_printer/config";

/// Topic of the short state message.
pub const STATE_TOPIC: &'static str = "homeassistant/sensor/cups_printer/state";

/// Topic of the full status message.
pub const ATTRIBUTES_TOPIC: &'static str = "homeassistant/sensor/cups_printer/attributes";

/// Where the supervisor tells about the MQTT broker.
pub const SUPERVISOR_MQTT_URL: &'static str = "http://supervisor/services/mqtt";

/// The broker port used where none is configured.
pub const DEFAULT_MQTT_PORT: u16 = 1883;

/// How to reach the MQTT broker.
#[derive(Debug, Clone)]
pub struct MqttConfig {
    pub host: String,
    pub port: u16,
    pub username: String,
    pub password: String,
}

/// What a port setting gives: the port it writes, or `default` where it is absent or no
/// port number.
pub open spec fn port_setting(setting: Option<Seq<char>>, default: u16) -> u16 {
    match setting {
        Some(t) => match parse_unsigned(t, 65535) {
            Some(n) => n as u16,
            None => default,
        },
        None => default,
    }
}

/// The text of an optional setting.
pub open spec fn setting_text(setting: Option<&str>) -> Option<Seq<char>> {
    match setting {
        Some(t) => Some(t@),
        None => None,
    }
}

/// Reads a port setting (`str::parse::<u16>`), falling back to `default`.
pub fn port_from_setting(setting: Option<&str>, default: u16) -> (p: u16)
    ensures
        p == port_setting(setting_text(setting), default),
{
    match setting {
        Some(t) => match parse_unsigned_text(t, 65535) {
            Some(n) => n as u16,
            None => default,
        },
        None => default,
    }
}

/// A port setting is taken as written: the decimal text of a port gives that port, whatever
/// the default, and no setting gives the default.
pub proof fn law_port_setting_exact(port: u16, default: u16)
    ensures
        port_setting(Some(decimal(port as nat)), default) == port,
        port_setting(None, default) == default,
{
    crate::text::law_decimal_parses_back(port as nat, 65535);
}

/// The outcome of looking for the broker in the environment.
#[derive(Debug, Clone)]
pub enum MqttDetection {
    /// The broker is configured by hand.
    Configured(MqttConfig),
    /// The supervisor is to be asked, with this `Authorization` header.
    AskSupervisor { authorization: String },
    /// There is no way to find the broker.
    Unavailable,
}

/// Decides where the broker comes from: the hand-set host where it is not empty (with its
/// port, default 1883, and credentials); else the supervisor where a token is given; else
/// nowhere.
pub fn detect_mqtt(
    host: &str,
    port: Option<&str>,
    username: &str,
    password: &str,
    supervisor_token: &str,
) -> (d: MqttDetection)
    ensures
        host@.len() > 0 ==> match d {
            MqttDetection::Configured(c) => {
                &&& c.host@ == host@
                &&& c.port == port_setting(setting_text(port), DEFAULT_MQTT_PORT)
                &&& c.username@ == username@
                &&& c.password@ == password@
            },
            _ => false,
        },
        host@.len() == 0 && supervisor_token@.len() > 0 ==> match d {
            MqttDetection::AskSupervisor { authorization } => authorization@ == "Bearer "@
                + supervisor_token@,
            _ => false,
        },
        host@.len() == 0 && supervisor_token@.len() == 0 ==> d is Unavailable,
{
    if !host.is_empty() {
        MqttDetection::Configured(
            MqttConfig {
                host: host.to_owned(),
                port: port_from_setting(port, DEFAULT_MQTT_PORT),
                username: username.to_owned(),
                password: password.to_owned(),
            },
        )
    } else if !supervisor_token.is_empty() {
        MqttDetection::AskSupervisor { authorization: concat_text("Bearer ", supervisor_token) }
    } else {
        MqttDetection::Unavailable
    }
}

/// The broker details in the supervisor's answer.
#[derive(Debug, Clone)]
pub struct SupervisorMqttData {
    pub host: String,
    pub port: u16,
    pub username: Option<String>,
    pub password: Option<String>,
}

/// The supervisor's answer about the MQTT service.
#[derive(Debug, Clone)]
pub struct SupervisorReply {
    pub result: String,
    pub data: SupervisorMqttData,
}

/// The text of an optional string, empty where absent.
pub open spec fn text_or_empty(t: Option<String>) -> Seq<char> {
    match t {
        Some(s) => s@,
        None => Seq::empty(),
    }
}

/// Whether the supervisor's answer could be read and its result is `ok`.
pub open spec fn reply_ok(reply: Option<SupervisorReply>) -> bool {
    match reply {
        Some(r) => r.result@ == "ok"@,
        None => false,
    }
}

/// The broker that the supervisor names: only for a successful answer that could be read and
/// whose result is `ok`; absent credentials become empty.
pub fn config_from_supervisor(success: bool, reply: Option<SupervisorReply>) -> (c: Option<
    MqttConfig,
>)
    ensures
        c is Some <==> success && reply_ok(reply),
        c matches Some(c) ==> match reply {
            Some(r) => {
                &&& c.host@ == r.data.host@
                &&& c.port == r.data.port
                &&& c.username@ == text_or_empty(r.data.username)
                &&& c.password@ == text_or_empty(r.data.password)
            },
            None => false,
        },
{
    if !success {
        return None;
    }
    match reply {
        Some(r) => {
            if r.result == "ok".to_owned() {
                Some(
                    MqttConfig {
                        host: r.data.host,
                        port: r.data.port,
                        username: string_or_empty(r.data.username),
                        password: string_or_empty(r.data.password),
                    },
                )
            } else {
                None
            }
        },
        None => None,
    }
}

/// The string, or an empty one.
fn string_or_empty(t: Option<String>) -> (s: String)
    ensures
        s@ == text_or_empty(t),
{
    match t {
        Some(s) => s,
        None => String::new(),
    }
}

/// How an MQTT session is opened.
#[derive(Debug, Clone)]
pub struct SessionOptions {
    pub client_id: String,
    pub host: String,
    pub port: u16,
    pub keep_alive_secs: u64,
    pub clean_session: bool,
    /// User name and password, given only where a user name is configured.
    pub credentials: Option<(String, String)>,
    /// How many requests may wait to be sent.
    pub request_capacity: usize,
}

/// The session options for `config`, for the process `process_id`: client id
/// `cups-api-<pid>`, keep-alive 60 s, a clean session, credentials where a user name is set,
/// and room for 100 waiting requests.
pub fn session_options(config: &MqttConfig, process_id: u32) -> (o: SessionOptions)
    ensures
        o.client_id@ == "cups-api-"@ + decimal(process_id as nat),
        o.host@ == config.host@,
        o.port == config.port,
        o.keep_alive_secs == 60,
        o.clean_session,
        o.credentials is Some <==> config.username@.len() > 0,
        o.credentials matches Some(c) ==> c.0@ == config.username@ && c.1@ == config.password@,
        o.request_capacity == 100,
{
    let pid = decimal_text(process_id as u64);
    let credentials = if config.username.as_str().is_empty() {
        None
    } else {
        Some((config.username.clone(), config.password.clone()))
    };
    SessionOptions {
        client_id: concat_text("cups-api-", pid.as_str()),
        host: config.host.clone(),
        port: config.port,
        keep_alive_secs: 60,
        clean_session: true,
        credentials,
        request_capacity: 100,
    }
}

/// The short state message: the first printer's state and name, or `unknown` and an empty
/// name where there is no printer.
#[derive(Debug, Clone)]
pub struct MqttState {
    pub state: String,
    pub printer_name: String,
}

/// The state message for `status`.
pub fn mqtt_state(status: &StatusResponse) -> (m: MqttState)
    ensures
        status.printers@.len() > 0 ==> m.state@ == status.printers@[0].state@
            && m.printer_name@ == status.printers@[0].name@,
        status.printers@.len() == 0 ==> m.state@ == "unknown"@ && m.printer_name@ == ""@,
{
    if status.printers.len() > 0 {
        let p: &PrinterInfo = &status.printers[0];
        MqttState { state: p.state.clone(), printer_name: p.name.clone() }
    } else {
        MqttState { state: "unknown".to_owned(), printer_name: "".to_owned() }
    }
}

/// The device that the discovered sensor belongs to.
#[derive(Debug, Clone)]
pub struct DiscoveryDevice {
    pub identifiers: Vec<String>,
    pub name: String,
    pub manufacturer: String,
    pub model: String,
}

/// The discovery message that makes Home Assistant create the printer sensor.
#[derive(Debug, Clone)]
pub struct DiscoveryConfig {
    pub name: String,
    pub state_topic: String,
    pub json_attributes_topic: String,
    pub unique_id: String,
    pub icon: String,
    pub device_class: String,
    pub value_template: String,
    pub device: DiscoveryDevice,
}

/// The discovery message: a sensor `CUPS Printer` whose state comes from the state topic and
/// whose attributes come from the attributes topic.
pub fn discovery_config() -> (c: DiscoveryConfig)
    ensures
        c.name@ == "CUPS Printer"@,
        c.state_topic@ == STATE_TOPIC@,
        c.json_attributes_topic@ == ATTRIBUTES_TOPIC@,
        c.unique_id@ == "cups_addon_printer"@,
        c.icon@ == "mdi:printer"@,
        c.device_class@ == "enum"@,
        c.value_template@ == "{{ value_json.state }}"@,
        c.device.identifiers@.len() == 1,
        c.device.identifiers@[0]@ == "cups_addon"@,
        c.device.name@ == "CUPS Print Server"@,
        c.device.manufacturer@ == "CUPS"@,
        c.device.model@ == "CUPS Print Server"@,
{
    let mut identifiers: Vec<String> = Vec::new();
    identifiers.push("cups_addon".to_owned());
    DiscoveryConfig {
        name: "CUPS Printer".to_owned(),
        state_topic: STATE_TOPIC.to_owned(),
        json_attributes_topic: ATTRIBUTES_TOPIC.to_owned(),
        unique_id: "cups_addon_printer".to_owned(),
        icon: "mdi:printer".to_owned(),
        device_class: "enum".to_owned(),
        value_template: "{{ value_json.state }}".to_owned(),
        device: DiscoveryDevice {
            identifiers,
            name: "CUPS Print Server".to_owned(),
            manufacturer: "CUPS".to_owned(),
            model: "CUPS Print Server".to_owned(),
        },
    }
}


// ───────────────────────── the session loop ─────────────────────────

/// Delivery guarantee of a message.
#[derive(Debug, Clone, Copy, PartialEq, Eq)]
pub enum Qos {
    AtMostOnce,
    AtLeastOnce,
    ExactlyOnce,
}

/// The messages that the session publishes.
#[derive(Debug, Clone, Copy, PartialEq, Eq)]
pub enum Message {
    /// The discovery message (`discovery_config`), on `DISCOVERY_TOPIC`.
    Discovery,
    /// The short state message (`mqtt_state`), on `STATE_TOPIC`.
    State,
    /// The full status, on `ATTRIBUTES_TOPIC`.
    Attributes,
}

/// The topic that `message` is published on.
pub fn topic_of(message: &Message) -> (t: &'static str)
    ensures
        t@ == match message {
            Message::Discovery => DISCOVERY_TOPIC@,
            Message::State => STATE_TOPIC@,
            Message::Attributes => ATTRIBUTES_TOPIC@,
        },
{
    match message {
        Message::Discovery => DISCOVERY_TOPIC,
        Message::State => STATE_TOPIC,
        Message::Attributes => ATTRIBUTES_TOPIC,
    }
}

/// Whether a session with the broker is open.
#[derive(Debug, Clone, Copy, PartialEq, Eq)]
pub enum SessionPhase {
    Disconnected,
    Connected,
}

/// What happens to the session.
#[derive(Debug, Clone, Copy, PartialEq, Eq)]
pub enum SessionEvent {
    /// A session is to be opened.
    Start,
    /// The status timer fired.
    Tick,
    /// The connection carried a packet in or out.
    Traffic,
    /// The connection failed.
    Failure,
}

/// What the session asks its runner to do.
#[derive(Debug, Clone, Copy, PartialEq, Eq)]
pub enum SessionAction {
    /// Open the connection with `session_options`.
    Connect,
    /// Publish a message.
    Publish { message: Message, qos: Qos, retain: bool },
    /// Fire `Tick` every `period_secs` seconds, the first time at once.
    StartTimer { period_secs: u64 },
    /// Wait `secs` seconds.
    Pause { secs: u64 },
}

/// Publishes `message` at most once.
pub open spec fn publish(message: Message, retain: bool) -> SessionAction {
    SessionAction::Publish { message, qos: Qos::AtMostOnce, retain }
}

/// The phase after `event`.
pub open spec fn next_phase(phase: SessionPhase, event: SessionEvent) -> SessionPhase {
    match (phase, event) {
        (SessionPhase::Disconnected, SessionEvent::Start) => SessionPhase::Connected,
        (SessionPhase::Connected, SessionEvent::Failure) => SessionPhase::Disconnected,
        _ => phase,
    }
}

/// What the runner does on `event`: opening a session connects, announces the sensor
/// (retained) and reports the status, then starts the 30 s timer; each tick reports the
/// status; a failure waits 10 s before the session ends and 10 s more before the next one
/// may start; anything else does nothing.
pub open spec fn actions_for(phase: SessionPhase, event: SessionEvent) -> Seq<SessionAction> {
    match (phase, event) {
        (SessionPhase::Disconnected, SessionEvent::Start) => seq![
            SessionAction::Connect,
            publish(Message::Discovery, true),
            publish(Message::State, false),
            publish(Message::Attributes, false),
            SessionAction::StartTimer { period_secs: 30 },
        ],
        (SessionPhase::Connected, SessionEvent::Tick) => seq![
            publish(Message::State, false),
            publish(Message::Attributes, false),
        ],
        (SessionPhase::Connected, SessionEvent::Failure) => seq![
            SessionAction::Pause { secs: 10 },
            SessionAction::Pause { secs: 10 },
        ],
        _ => seq![],
    }
}

/// Advances the session on `event`.
pub fn session_step(phase: SessionPhase, event: SessionEvent) -> (r: (SessionPhase, Vec<SessionAction>))
    ensures
        r.0 == next_phase(phase, event),
        r.1@ == actions_for(phase, event),
{
    let mut actions: Vec<SessionAction> = Vec::new();
    match (phase, event) {
        (SessionPhase::Disconnected, SessionEvent::Start) => {
            actions.push(SessionAction::Connect);
            actions.push(SessionAction::Publish { message: Message::Discovery, qos: Qos::AtMostOnce, retain: true });
            actions.push(SessionAction::Publish { message: Message::State, qos: Qos::AtMostOnce, retain: false });
            actions.push(SessionAction::Publish { message: Message::Attributes, qos: Qos::AtMostOnce, retain: false });
            actions.push(SessionAction::StartTimer { period_secs: 30 });
            assert(actions@ =~= actions_for(phase, event));
            (SessionPhase::Connected, actions)
        },
        (SessionPhase::Connected, SessionEvent::Tick) => {
            actions.push(SessionAction::Publish { message: Message::State, qos: Qos::AtMostOnce, retain: false });
            actions.push(SessionAction::Publish { message: Message::Attributes, qos: Qos::AtMostOnce, retain: false });
            assert(actions@ =~= actions_for(phase, event));
            (SessionPhase::Connected, actions)
        },
        (SessionPhase::Connected, SessionEvent::Failure) => {
            actions.push(SessionAction::Pause { secs: 10 });
            actions.push(SessionAction::Pause { secs: 10 });
            assert(actions@ =~= actions_for(phase, event));
            (SessionPhase::Disconnected, actions)
        },
        (p, _) => {
            assert(actions@ =~= actions_for(phase, event));
            (p, actions)
        },
    }
}


// ───────────────────────── laws of the session loop ─────────────────────────

/// The phase and the actions after the events `events`, starting in `phase`.
pub open spec fn run_session(phase: SessionPhase, events: Seq<SessionEvent>) -> (SessionPhase, Seq<SessionAction>)
    decreases events.len(),
{
    if events.len() == 0 {
        (phase, seq![])
    } else {
        let (p, acts) = run_session(phase, events.drop_last());
        (next_phase(p, events.last()), acts + actions_for(p, events.last()))
    }
}

/// Whether `a` publishes printer status (the state or the attributes message).
pub open spec fn reports_status(a: SessionAction) -> bool {
    match a {
        SessionAction::Publish { message, .. } => !(message is Discovery),
        _ => false,
    }
}

/// Whether, before position `i` of `trace`, the sensor was announced (a retained discovery
/// message) with no new connection since.
pub open spec fn announced_before(trace: Seq<SessionAction>, i: int) -> bool {
    exists|j: int|
        0 <= j < i && #[trigger] trace[j] == publish(Message::Discovery, true) && forall|k: int|
            j < k < i ==> !(#[trigger] trace[k] is Connect)
}

proof fn lemma_announced_extends(t: Seq<SessionAction>, a: Seq<SessionAction>, i: int)
    requires
        announced_before(t, i),
        0 <= i <= t.len(),
    ensures
        announced_before(t + a, i),
{
    let j = choose|j: int|
        0 <= j < i && #[trigger] t[j] == publish(Message::Discovery, true) && forall|k: int|
            j < k < i ==> !(#[trigger] t[k] is Connect);
    assert((t + a)[j] == t[j]);
    assert forall|k: int| j < k < i implies !(#[trigger] (t + a)[k] is Connect) by {
        assert((t + a)[k] == t[k]);
    }
}

proof fn lemma_announced_continues(t: Seq<SessionAction>, a: Seq<SessionAction>, i: int)
    requires
        announced_before(t, t.len() as int),
        forall|k: int| 0 <= k < a.len() ==> !(#[trigger] a[k] is Connect),
        t.len() <= i <= t.len() + a.len(),
    ensures
        announced_before(t + a, i),
{
    let n = t.len() as int;
    let j = choose|j: int|
        0 <= j < n && #[trigger] t[j] == publish(Message::Discovery, true) && forall|k: int|
            j < k < n ==> !(#[trigger] t[k] is Connect);
    assert((t + a)[j] == t[j]);
    assert forall|k: int| j < k < i implies !(#[trigger] (t + a)[k] is Connect) by {
        if k < n {
            assert((t + a)[k] == t[k]);
        } else {
            assert((t + a)[k] == a[k - n]);
        }
    }
}

/// What holds after any run from a closed session: every status message follows an
/// announcement of the same connection, and an open session has announced the sensor.
proof fn lemma_run_announces(events: Seq<SessionEvent>)
    ensures
        ({
            let (p, t) = run_session(SessionPhase::Disconnected, events);
            &&& forall|i: int| 0 <= i < t.len() && reports_status(#[trigger] t[i]) ==> announced_before(t, i)
            &&& p is Connected ==> announced_before(t, t.len() as int)
        }),
    decreases events.len(),
{
    if events.len() > 0 {
        lemma_run_announces(events.drop_last());
        let (p, t) = run_session(SessionPhase::Disconnected, events.drop_last());
        let e = events.last();
        let a = actions_for(p, e);
        let t2 = t + a;
        let n = t.len() as int;
        assert(run_session(SessionPhase::Disconnected, events) == (next_phase(p, e), t2));
        match (p, e) {
            (SessionPhase::Disconnected, SessionEvent::Start) => {
                assert(t2[n + 1] == publish(Message::Discovery, true));
                assert forall|i: int| n + 1 < i <= t2.len() implies announced_before(t2, i) by {
                    assert forall|k: int| n + 1 < k < i implies !(#[trigger] t2[k] is Connect) by {
                        assert(t2[k] == a[k - n]);
                    }
                }
            },
            (SessionPhase::Connected, _) => {
                assert forall|k: int| 0 <= k < a.len() implies !(#[trigger] a[k] is Connect) by {}
                assert forall|i: int| n <= i <= t2.len() implies announced_before(t2, i) by {
                    lemma_announced_continues(t, a, i);
                }
            },
            _ => {},
        }
        assert forall|i: int| 0 <= i < t2.len() && reports_status(#[trigger] t2[i]) implies announced_before(t2, i) by {
            if i < n {
                assert(t2[i] == t[i]);
                lemma_announced_extends(t, a, i);
            } else {
                assert(t2[i] == a[i - n]);
            }
        }
        if next_phase(p, e) is Connected && !(p is Disconnected && e is Start) {
            lemma_announced_extends(t, a, n);
            lemma_announced_continues(t, a, t2.len() as int);
        }
    }
}

/// Each session announces the sensor before it reports: in whatever events befall a session
/// loop that starts closed, every state or attributes message comes after a retained
/// discovery message sent on the same connection.
pub proof fn law_announce_before_report(events: Seq<SessionEvent>, i: int)
    requires
        0 <= i < run_session(SessionPhase::Disconnected, events).1.len(),
        reports_status(run_session(SessionPhase::Disconnected, events).1[i]),
    ensures
        announced_before(run_session(SessionPhase::Disconnected, events).1, i),
{
    lemma_run_announces(events);
}

/// Only the discovery message is retained; every message is sent at most once.
pub proof fn law_only_discovery_retained(phase: SessionPhase, event: SessionEvent, i: int)
    requires
        0 <= i < actions_for(phase, event).len(),
        actions_for(phase, event)[i] is Publish,
    ensures
        match actions_for(phase, event)[i] {
            SessionAction::Publish { message, qos, retain } => retain == (message is Discovery)
                && qos is AtMostOnce,
            _ => false,
        },
{
}

/// A closed session publishes nothing until it is started, and a failure always closes it.
pub proof fn law_failure_closes(phase: SessionPhase, event: SessionEvent)
    ensures
        event is Failure ==> next_phase(phase, event) is Disconnected,
        phase is Disconnected && !(event is Start) ==> actions_for(phase, event).len() == 0,
{
}


proof fn lemma_stays_connected(events: Seq<SessionEvent>, i: int)
    requires
        0 <= i < events.len(),
        events[0] is Start,
        forall|k: int| 0 <= k < events.len() ==> !(#[trigger] events[k] is Failure),
    ensures
        run_session(SessionPhase::Disconnected, events.take(i + 1)).0 is Connected,
    decreases i,
{
    let t = events.take(i + 1);
    assert(t.drop_last() =~= events.take(i));
    assert(t.last() == events[i]);
    if i == 0 {
        assert(events.take(0) =~= Seq::<SessionEvent>::empty());
    } else {
        lemma_stays_connected(events, i - 1);
        assert(!(events[i] is Failure));
    }
}

/// A session reports while it stays open: when the first event starts it and no failure
/// follows, the session opens by announcing the sensor, reporting the status and starting
/// the 30 s timer, stays open after every event, and reports the state and then the
/// attributes on every tick of that timer.
pub proof fn law_reports_while_connected(events: Seq<SessionEvent>, i: int)
    requires
        0 <= i < events.len(),
        events[0] is Start,
        forall|k: int| 0 <= k < events.len() ==> !(#[trigger] events[k] is Failure),
    ensures
        run_session(SessionPhase::Disconnected, events.take(1)).1 == seq![
            SessionAction::Connect,
            publish(Message::Discovery, true),
            publish(Message::State, false),
            publish(Message::Attributes, false),
            SessionAction::StartTimer { period_secs: 30 },
        ],
        run_session(SessionPhase::Disconnected, events.take(i + 1)).0 is Connected,
        i > 0 && events[i] is Tick ==> run_session(SessionPhase::Disconnected, events.take(i + 1)).1
            == run_session(SessionPhase::Disconnected, events.take(i)).1 + seq![
            publish(Message::State, false),
            publish(Message::Attributes, false),
        ],
{
    let one = events.take(1);
    assert(one.drop_last() =~= Seq::<SessionEvent>::empty());
    assert(one.last() == events[0]);
    assert(run_session(SessionPhase::Disconnected, one.drop_last()).1 =~= Seq::<SessionAction>::empty());
    assert(run_session(SessionPhase::Disconnected, one).1 == Seq::<SessionAction>::empty()
        + actions_for(SessionPhase::Disconnected, SessionEvent::Start));
    assert(run_session(SessionPhase::Disconnected, one).1 =~= seq![
        SessionAction::Connect,
        publish(Message::Discovery, true),
        publish(Message::State, false),
        publish(Message::Attributes, false),
        SessionAction::StartTimer { period_secs: 30 },
    ]);
    lemma_stays_connected(events, i);
    if i > 0 {
        lemma_stays_connected(events, i - 1);
        let t = events.take(i + 1);
        assert(t.drop_last() =~= events.take(i));
        assert(t.last() == events[i]);
    }
}

} // verus!
