use vstd::prelude::*;
use crate::mqtt::{port_setting, setting_text, port_from_setting};
use crate::text::{parse_unsigned, law_decimal_parses_back, decimal, signed_decimal, decimal_text, signed_decimal_text, concat_text};

verus! {

/// The REST API port used where none is configured.
pub const DEFAULT_API_PORT: u16 = 8000;

/// The REST API port for the setting `CUPS_API_PORT`: its number, else 8000.
pub fn api_port(setting: Option<&str>) -> (p: u16)
    ensures
        p == port_setting(setting_text(setting), DEFAULT_API_PORT),
{
    port_from_setting(setting, DEFAULT_API_PORT)
}

/// The address the REST API listens on: every interface, at `port`.
pub fn listen_address(port: u16) -> (a: String)
    ensures
        a@ == "0.0.0.0:"@ + decimal(port as nat),
{
    let p = decimal_text(port as u64);
    concat_text("0.0.0.0:", p.as_str())
}

/// The answer of the health check.
#[derive(Debug, Clone)]
pub struct HealthResponse {
    pub ok: bool,
    /// Whether the mDNS responder (Avahi) runs.
    pub avahi_running: bool,
}

/// The health check: the server answers, so it is healthy; it also tells whether the mDNS
/// responder runs.
pub fn health(avahi_running: bool) -> (h: HealthResponse)
    ensures
        h.ok,
        h.avahi_running == avahi_running,
{
    HealthResponse { ok: true, avahi_running }
}

/// The exit code reported for a scheduler that ended: its code, or -1 where it has none (it
/// was ended by a signal).
pub open spec fn reported_code(code: Option<i32>) -> int {
    match code {
        Some(c) => c as int,
        None => -1,
    }
}

/// What to log when the scheduler process ends: that it ended cleanly, or with which code.
pub fn cupsd_exit_message(success: bool, code: Option<i32>) -> (m: String)
    ensures
        success ==> m@ == "cupsd exited cleanly"@,
        !success ==> m@ == "cupsd exited with code "@ + signed_decimal(reported_code(code)),
{
    if success {
        "cupsd exited cleanly".to_owned()
    } else {
        let c = match code {
            Some(c) => c,
            None => -1,
        };
        let t = signed_decimal_text(c);
        concat_text("cupsd exited with code ", t.as_str())
    }
}


/// The port in the listen address is the configured port: the text after `0.0.0.0:` parses
/// back to it.
pub proof fn law_listen_address_names_port(port: u16)
    ensures
        ("0.0.0.0:"@ + decimal(port as nat)).len() > 8,
        parse_unsigned(("0.0.0.0:"@ + decimal(port as nat)).skip(8), 65535) == Some(port as nat),
{
    reveal_strlit("0.0.0.0:");
    law_decimal_parses_back(port as nat, 65535);
    assert(("0.0.0.0:"@ + decimal(port as nat)).skip(8) =~= decimal(port as nat));
}

} // verus!
