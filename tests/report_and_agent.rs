use reverseping::addr::MacAddress;
use reverseping::agent::{agent_default, Agent, AgentConfig, Command, Step};
use reverseping::merge::DiscoveredDevice;
use reverseping::report::{device_ping, ping_report, report_url, ApiError};

fn device() -> DiscoveredDevice {
    DiscoveredDevice {
        local_address: u32::from_be_bytes([10, 0, 0, 5]),
        ping_ms: 12,
        hostname: Some("host5.local.".to_string()),
        mac: MacAddress(0xaa, 0xbb, 0xcc, 0xdd, 0xee, 0xff),
        vendor: Some("Acme".to_string()),
        meta: Some("role=printer, X200".to_string()),
    }
}

#[test]
fn device_entry_carries_every_field_but_vendor() {
    let p = device_ping(&device());
    assert_eq!(p.ping_ms, Some(12));
    assert_eq!(p.local_address.as_deref(), Some("10.0.0.5"));
    assert_eq!(p.mac.as_deref(), Some("aa:bb:cc:dd:ee:ff"));
    assert_eq!(p.hostname.as_deref(), Some("host5.local."));
    assert_eq!(p.meta.as_deref(), Some("role=printer, X200"));
    assert_eq!(p.friendly_name, None);
    assert!(!p.is_agent);
}

#[test]
fn report_is_keyed_by_mac_text() {
    let r = ping_report(&vec![device()]);
    assert_eq!(r.devices.len(), 1);
    assert_eq!(r.devices[0].0, "aa:bb:cc:dd:ee:ff");
    assert!(ping_report(&vec![]).devices.is_empty());
}

#[test]
fn report_url_and_api_error_text() {
    assert_eq!(
        report_url("https://api.reverseping.net", "agent-7"),
        "https://api.reverseping.net/agent-7"
    );
    let e = ApiError { error: "unknown agent".to_string() };
    assert_eq!(e.message(), "API Error: unknown agent");
}

#[test]
fn agent_only_defaults_to_false() {
    assert!(!agent_default());
    let c = AgentConfig { agent: "a".to_string(), agent_only: true };
    assert!(!c.scans_network());
}

#[test]
fn daemon_commands() {
    assert_eq!(Agent::service_name(), "reverseping.service");
    assert_eq!(Agent::unit_path(), "/etc/systemd/system/reverseping.service");
    assert_eq!(Agent::config_file(), "config.toml");
    assert_eq!(
        Agent::install_daemon(),
        vec![
            vec!["systemctl", "--now", "enable", "reverseping.service"],
            vec!["systemctl", "start", "reverseping.service"]
        ]
    );
    assert_eq!(
        Agent::uninstall_daemon(),
        vec![
            vec!["systemctl", "stop", "reverseping.service"],
            vec!["systemctl", "disable", "reverseping.service"]
        ]
    );
}

#[test]
fn command_steps_and_config() {
    let up = Command::Up { agent_id: "x".to_string(), agent_only: true };
    assert_eq!(up.steps(), vec![Step::SaveConfig, Step::InstallDaemon]);
    let c = up.config().unwrap();
    assert_eq!(c.agent, "x");
    assert!(c.agent_only);
    let start = Command::Start { agent_id: None, agent_only: false };
    assert_eq!(start.steps(), vec![Step::LoadConfig, Step::ScanForever]);
    assert!(start.config().is_none());
    let start_id = Command::Start { agent_id: Some("y".to_string()), agent_only: false };
    assert_eq!(
        start_id.steps(),
        vec![Step::SaveConfig, Step::InstallDaemon, Step::ScanForever]
    );
    let scan = Command::Scan { agent: "z".to_string() };
    assert_eq!(scan.steps(), vec![Step::ScanOnce]);
    assert!(!scan.config().unwrap().agent_only);
    assert_eq!(Command::Uninstall.steps(), vec![Step::UninstallDaemon, Step::RemoveConfig]);
}

#[test]
fn transmitter_endpoint() {
    let t = reverseping::report::Transmitter::new("agent-9".to_string());
    assert_eq!(t.endpoint("http://localhost:8080"), "http://localhost:8080/agent-9");
}

#[test]
fn device_summary_line() {
    assert_eq!(
        device().summary(),
        "aa:bb:cc:dd:ee:ff - Acme - 10.0.0.5 - host5.local. - role=printer, X200 (12ms)"
    );
    let bare = DiscoveredDevice {
        local_address: u32::from_be_bytes([192, 168, 1, 200]),
        ping_ms: 1234567,
        hostname: None,
        mac: MacAddress(0, 1, 2, 3, 4, 5),
        vendor: None,
        meta: None,
    };
    assert_eq!(bare.summary(), "00:01:02:03:04:05 - ? - 192.168.1.200 - ? - ? (1234567ms)");
    let zero = DiscoveredDevice { ping_ms: 0, ..bare };
    assert!(zero.summary().ends_with("(0ms)"));
}
