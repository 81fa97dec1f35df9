use oyasumivr_oscquery::client::{parse_address_token, parse_discovery_line_exec, ClientState};
use oyasumivr_oscquery::mdns_sidecar::{sidecar_args, SidecarState};
use oyasumivr_oscquery::models::{Error, OSCQueryInitError, OSCServiceType};
use oyasumivr_oscquery::text::{decimal_string, parse_u16, split_path, split_str};

#[test]
fn discovery_lines_set_the_peer() {
    let mut c = ClientState::new();
    c.process_log_line("VRC_OSC_ADDR_DISCOVERY 192.168.1.5:9000".to_string());
    assert_eq!(c.get_vrchat_osc_address(), Some(("192.168.1.5".to_string(), 9000)));
    assert_eq!(c.get_vrchat_oscquery_address(), None);
    c.process_log_line("VRC_OSCQUERY_ADDR_DISCOVERY 10.0.0.2:34567".to_string());
    assert_eq!(c.get_vrchat_oscquery_host(), Some("10.0.0.2".to_string()));
    assert_eq!(c.get_vrchat_oscquery_port(), Some(34567));
    assert_eq!(c.get_vrchat_osc_host(), Some("192.168.1.5".to_string()));
    assert_eq!(c.get_vrchat_osc_port(), Some(9000));
}

#[test]
fn garbage_line_changes_nothing() {
    let mut c = ClientState::new();
    c.process_log_line("VRC_OSC_ADDR_DISCOVERY 1.2.3.4:80".to_string());
    for line in [
        "GARBAGE",
        "",
        "VRC_OSC_ADDR_DISCOVERY",
        "VRC_OSC_ADDR_DISCOVERY 1.2.3.4",
        "VRC_OSC_ADDR_DISCOVERY 1.2.3.4:x",
        "VRC_OSC_ADDR_DISCOVERY 1.2.3.4:70000",
        "VRC_OSC_ADDR_DISCOVERY 1.2.3.4:80 extra",
        "VRC_OSC_ADDR_DISCOVERY a:b:80",
        "vrc_osc_addr_discovery 5.6.7.8:81",
    ] {
        c.process_log_line(line.to_string());
        assert_eq!(c.get_vrchat_osc_address(), Some(("1.2.3.4".to_string(), 80)));
        assert_eq!(c.get_vrchat_oscquery_address(), None);
    }
}

#[test]
fn line_parser_results() {
    assert_eq!(
        parse_discovery_line_exec("VRC_OSCQUERY_ADDR_DISCOVERY h:+1"),
        Some((OSCServiceType::Query, "h".to_string(), 1))
    );
    assert_eq!(
        parse_discovery_line_exec("VRC_OSC_ADDR_DISCOVERY :65535"),
        Some((OSCServiceType::OSC, "".to_string(), 65535))
    );
    assert_eq!(parse_discovery_line_exec("VRC_OSC_ADDR_DISCOVERY  h:1"), None);
    assert_eq!(parse_address_token("h:01"), Some(("h".to_string(), 1)));
    assert_eq!(parse_address_token("h:"), None);
}

#[test]
fn client_init_and_deinit() {
    let mut c = ClientState::new();
    assert!(matches!(c.deinit(), Err(Error::InitError(OSCQueryInitError::NotYetInitialized))));
    assert!(c.init().is_ok());
    assert!(matches!(c.init(), Err(Error::InitError(OSCQueryInitError::AlreadyInitialized))));
    c.process_log_line("VRC_OSC_ADDR_DISCOVERY 1.2.3.4:80".to_string());
    assert!(c.deinit().is_ok());
    assert!(!c.initialized);
    assert_eq!(c.get_vrchat_osc_address(), None);
}

#[test]
fn numbers() {
    assert_eq!(parse_u16("0"), Some(0));
    assert_eq!(parse_u16("65535"), Some(65535));
    assert_eq!(parse_u16("65536"), None);
    assert_eq!(parse_u16("99999999999999999999"), None);
    assert_eq!(parse_u16("+42"), Some(42));
    assert_eq!(parse_u16("+"), None);
    assert_eq!(parse_u16(""), None);
    assert_eq!(parse_u16("-1"), None);
    assert_eq!(parse_u16("4a"), None);
    assert_eq!(decimal_string(0), "0");
    assert_eq!(decimal_string(4294967295), "4294967295");
    assert_eq!(decimal_string(1200), "1200");
}

#[test]
fn splitting() {
    assert_eq!(split_str("a::b", ':'), vec!["a", "", "b"]);
    assert_eq!(split_str("", ':'), vec![""]);
    assert_eq!(split_path("/avatar//parameters/"), vec!["avatar", "parameters"]);
    assert!(split_path("/").is_empty());
}

fn start_of(r: &oyasumivr_oscquery::mdns_sidecar::SidecarPlan) -> Option<(u64, Vec<String>)> {
    r.start.as_ref().map(|o| (o.instance, sidecar_args(77, &o.launch)))
}

#[test]
fn repeated_enable_spawns_once() {
    let mut s = SidecarState::new();
    assert!(s.set_exe_path("/bin/helper".to_string(), true).is_ok());
    let p = s.mark_client_started().unwrap();
    assert_eq!(p.stop, None);
    assert_eq!(start_of(&p), Some((0, vec!["77".to_string()])));
    assert_eq!(p.start.as_ref().unwrap().exe_path, "/bin/helper");
    let p = s.mark_client_started().unwrap();
    assert!(p.stop.is_none() && p.start.is_none());
    let p = s.mark_client_stopped().unwrap();
    assert_eq!(p.stop, Some(0));
    assert!(p.start.is_none());
    let p = s.mark_client_stopped().unwrap();
    assert!(p.stop.is_none() && p.start.is_none());
}

#[test]
fn new_ports_restart_once() {
    let mut s = SidecarState::new();
    s.set_exe_path("/bin/helper".to_string(), true).unwrap();
    let p = s.mark_server_started(9000, 9100, "Svc".to_string()).unwrap();
    assert_eq!(p.stop, None);
    assert_eq!(
        start_of(&p),
        Some((0, vec!["77".to_string(), "9000".to_string(), "9100".to_string(), "Svc".to_string()]))
    );
    let p = s.mark_server_started(9000, 9100, "Svc".to_string()).unwrap();
    assert!(p.stop.is_none() && p.start.is_none());
    let p = s.mark_server_started(9001, 9100, "Svc".to_string()).unwrap();
    assert_eq!(p.stop, Some(0));
    assert_eq!(
        start_of(&p),
        Some((1, vec!["77".to_string(), "9001".to_string(), "9100".to_string(), "Svc".to_string()]))
    );
    assert_eq!(s.running.as_ref().map(|r| r.id), Some(1));
    let p = s.mark_client_started().unwrap();
    assert!(p.stop.is_none() && p.start.is_none());
    let p = s.mark_server_stopped().unwrap();
    assert_eq!(p.stop, Some(1));
    assert_eq!(start_of(&p), Some((2, vec!["77".to_string()])));
}

#[test]
fn missing_executable() {
    let mut s = SidecarState::new();
    assert!(matches!(
        s.set_exe_path("/nowhere".to_string(), false),
        Err(OSCQueryInitError::MDNSExecutableNotFound)
    ));
    assert!(matches!(s.mark_client_started(), Err(OSCQueryInitError::MDNSExecutableNotFound)));
    assert!(s.running.is_none());
    assert!(matches!(s.mark_client_started(), Err(OSCQueryInitError::MDNSExecutableNotFound)));
}

#[test]
fn failures_of_the_helper() {
    let mut s = SidecarState::new();
    s.set_exe_path("/bin/helper".to_string(), true).unwrap();
    s.mark_client_started().unwrap();
    assert_eq!(s.output_failed(5), None);
    assert!(s.running.is_some());
    assert_eq!(s.output_failed(0), Some(0));
    assert!(s.running.is_none());
    let p = s.mark_client_started().unwrap();
    assert_eq!(start_of(&p).map(|x| x.0), Some(1));
    s.spawn_failed(1);
    assert!(s.running.is_none());
}
