use cups_api::server::{api_port, cupsd_exit_message, health, listen_address};

#[test]
fn port_setting() {
    assert_eq!(api_port(None), 8000);
    assert_eq!(api_port(Some("9100")), 9100);
    assert_eq!(api_port(Some("+81")), 81);
    assert_eq!(api_port(Some("eighty")), 8000);
    assert_eq!(api_port(Some("65536")), 8000);
}

#[test]
fn listen_on_every_interface() {
    assert_eq!(listen_address(8000), "0.0.0.0:8000");
    assert_eq!(listen_address(0), "0.0.0.0:0");
    assert_eq!(listen_address(65535), "0.0.0.0:65535");
    assert_eq!(listen_address(api_port(Some("8123"))), "0.0.0.0:8123");
}

#[test]
fn health_is_ok() {
    let h = health(true);
    assert!(h.ok);
    assert!(h.avahi_running);
    let h = health(false);
    assert!(h.ok);
    assert!(!h.avahi_running);
}

#[test]
fn exit_messages() {
    assert_eq!(cupsd_exit_message(true, Some(0)), "cupsd exited cleanly");
    assert_eq!(cupsd_exit_message(false, Some(1)), "cupsd exited with code 1");
    assert_eq!(cupsd_exit_message(false, None), "cupsd exited with code -1");
    assert_eq!(cupsd_exit_message(false, Some(-2)), "cupsd exited with code -2");
}
