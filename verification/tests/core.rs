use keylight::announcement::{Announcement, DnsRecord, base_url, to_url};
use keylight::discovery::{DiscoveryEvent, DiscoverySession, INACTIVITY_TIMEOUT_MS, QUERY_INTERVAL_MS};
use keylight::keylight_repository::{
    ListError, finish_list, lights_endpoint, open_outcome, service_type_name, switch_commands,
};
use keylight::wire::{LightState, LightsState, encode_on, probe_result};
use keylight::Keylight;

fn ann(records: Vec<DnsRecord>, port: Option<u16>) -> Announcement {
    Announcement { records, port }
}

fn payload(values: &[u8]) -> LightsState {
    LightsState {
        lights: values.iter().map(|&on| LightState { on }).collect(),
    }
}

#[test]
fn keylight_new_keeps_url_and_state() {
    let k = Keylight::new("http://10.0.0.5:9123", true);
    assert_eq!(k.url, "http://10.0.0.5:9123");
    assert!(k.on);
}

#[test]
fn base_url_formats_host_and_port() {
    assert_eq!(base_url("10.0.0.5", 9123), "http://10.0.0.5:9123");
    assert_eq!(base_url("fe80::1", 0), "http://fe80::1:0");
    assert_eq!(base_url("192.168.0.20", 65535), "http://192.168.0.20:65535");
}

#[test]
fn lights_endpoint_appends_path() {
    assert_eq!(
        lights_endpoint("http://10.0.0.5:9123"),
        "http://10.0.0.5:9123/elgato/lights"
    );
}

#[test]
fn service_type_is_elgato() {
    assert_eq!(service_type_name(), "_elg._tcp.local");
}

#[test]
fn resolve_picks_first_address_record() {
    let a = ann(
        vec![
            DnsRecord::Other,
            DnsRecord::AAAA("fe80::1".to_string()),
            DnsRecord::A("10.0.0.5".to_string()),
        ],
        Some(9123),
    );
    assert_eq!(to_url(&a), Some("http://fe80::1:9123".to_string()));
}

#[test]
fn resolve_without_port_is_dropped() {
    let a = ann(vec![DnsRecord::A("10.0.0.5".to_string())], None);
    assert_eq!(to_url(&a), None);
}

#[test]
fn resolve_without_address_record_is_dropped() {
    let a = ann(vec![DnsRecord::Other, DnsRecord::Other], Some(9123));
    assert_eq!(to_url(&a), None);
    let empty = ann(vec![], Some(9123));
    assert_eq!(to_url(&empty), None);
}

#[test]
fn duplicate_announcements_probe_once() {
    let mut session = DiscoverySession::new();
    for _ in 0..3 {
        let cont = session.on_event(DiscoveryEvent::Announcement(ann(
            vec![DnsRecord::A("10.0.0.5".to_string())],
            Some(9123),
        )));
        assert!(cont);
    }
    session.on_event(DiscoveryEvent::Announcement(ann(
        vec![DnsRecord::A("10.0.0.6".to_string())],
        Some(9123),
    )));
    let urls = session.candidates();
    assert_eq!(
        urls,
        vec![
            "http://10.0.0.5:9123".to_string(),
            "http://10.0.0.6:9123".to_string()
        ]
    );
}

#[test]
fn same_address_two_record_families_one_device() {
    let mut session = DiscoverySession::new();
    session.on_event(DiscoveryEvent::Announcement(ann(
        vec![DnsRecord::Other, DnsRecord::A("10.0.0.5".to_string())],
        Some(9123),
    )));
    session.on_event(DiscoveryEvent::Announcement(ann(
        vec![
            DnsRecord::A("10.0.0.5".to_string()),
            DnsRecord::AAAA("fe80::5".to_string()),
        ],
        Some(9123),
    )));
    let urls = session.candidates();
    assert_eq!(urls, vec!["http://10.0.0.5:9123".to_string()]);

    let states = vec![Some(payload(&[1]))];
    let devices = finish_list(&urls, &states);
    assert_eq!(devices.len(), 1);
    assert_eq!(devices[0].url, "http://10.0.0.5:9123");
    assert!(devices[0].on);
}

#[test]
fn packet_errors_keep_window_open() {
    let mut session = DiscoverySession::new();
    assert!(session.on_event(DiscoveryEvent::PacketError));
    assert!(session.on_event(DiscoveryEvent::Announcement(ann(
        vec![DnsRecord::A("10.0.0.5".to_string())],
        Some(9123),
    ))));
    assert!(!session.on_event(DiscoveryEvent::TimedOut));
    let urls = session.candidates();
    assert_eq!(urls.len(), 1);
}

#[test]
fn ended_stream_closes_window() {
    let mut session = DiscoverySession::new();
    assert!(!session.on_event(DiscoveryEvent::Ended));
    assert!(session.candidates().is_empty());
}

#[test]
fn quiet_window_yields_empty_result() {
    let opened = open_outcome(true);
    let mut session = opened.expect("discovery started");
    assert!(session.on_event(DiscoveryEvent::PacketError));
    assert!(!session.on_event(DiscoveryEvent::TimedOut));
    let urls = session.candidates();
    assert!(urls.is_empty());
    let devices = finish_list(&urls, &vec![]);
    assert!(devices.is_empty());
}

#[test]
fn failed_open_is_an_error() {
    match open_outcome(false) {
        Err(e) => assert_eq!(e, ListError::DiscoveryStart),
        Ok(_) => panic!("expected an error"),
    }
}

#[test]
fn empty_lights_payload_is_excluded() {
    assert!(probe_result("http://10.0.0.5:9123", &Some(payload(&[]))).is_none());

    let urls = vec![
        "http://10.0.0.5:9123".to_string(),
        "http://10.0.0.6:9123".to_string(),
    ];
    let states = vec![Some(payload(&[])), Some(payload(&[0]))];
    let devices = finish_list(&urls, &states);
    assert_eq!(devices.len(), 1);
    assert_eq!(devices[0].url, "http://10.0.0.6:9123");
    assert!(!devices[0].on);
}

#[test]
fn failed_probe_is_excluded() {
    assert!(probe_result("http://10.0.0.5:9123", &None).is_none());
}

#[test]
fn power_state_decoding() {
    let on = probe_result("http://10.0.0.5:9123", &Some(payload(&[1, 0]))).unwrap();
    assert!(on.on);
    let off = probe_result("http://10.0.0.5:9123", &Some(payload(&[0, 1]))).unwrap();
    assert!(!off.on);
}

#[test]
fn power_encoding_round_trip() {
    assert_eq!(encode_on(true), 1);
    assert_eq!(encode_on(false), 0);

    let device = Keylight::new("http://10.0.0.5:9123", false);
    let commands = switch_commands(&vec![device], true);
    assert_eq!(commands.len(), 1);
    assert_eq!(commands[0].on, 1);

    let probed = probe_result("http://10.0.0.5:9123", &Some(payload(&[commands[0].on])))
        .unwrap();
    assert!(probed.on);
}

#[test]
fn switch_empty_is_a_noop() {
    assert!(switch_commands(&vec![], true).is_empty());
    assert!(switch_commands(&vec![], false).is_empty());
}

#[test]
fn switch_addresses_every_device() {
    let devices = vec![
        Keylight::new("http://10.0.0.5:9123", true),
        Keylight::new("http://10.0.0.6:9123", true),
        Keylight::new("http://10.0.0.7:9123", true),
    ];
    let commands = switch_commands(&devices, false);
    assert_eq!(commands.len(), 3);
    for (device, command) in devices.iter().zip(commands.iter()) {
        assert_eq!(command.url, format!("{}/elgato/lights", device.url));
        assert_eq!(command.on, 0);
    }
}

#[test]
fn one_unreachable_device_does_not_stop_the_batch() {
    let devices = vec![
        Keylight::new("http://10.0.0.5:9123", false),
        Keylight::new("http://10.0.0.6:9123", false),
        Keylight::new("http://10.0.0.7:9123", false),
    ];
    let commands = switch_commands(&devices, true);
    assert_eq!(commands.len(), 3);

    // The dispatch is fire-and-collect: dropping one outcome leaves the
    // other commands intact, and no command depends on another's fate.
    let delivered: Vec<_> = commands
        .iter()
        .enumerate()
        .filter(|(i, _)| *i != 1)
        .map(|(_, c)| c)
        .collect();
    assert_eq!(delivered.len(), 2);
    assert_eq!(delivered[0].url, "http://10.0.0.5:9123/elgato/lights");
    assert_eq!(delivered[1].url, "http://10.0.0.7:9123/elgato/lights");
    assert_eq!(delivered[0].on, 1);
    assert_eq!(delivered[1].on, 1);
}

#[test]
fn list_keeps_partial_successes() {
    let urls = vec![
        "http://10.0.0.5:9123".to_string(),
        "http://10.0.0.6:9123".to_string(),
        "http://10.0.0.7:9123".to_string(),
    ];
    let states = vec![Some(payload(&[1])), None, Some(payload(&[0]))];
    let devices = finish_list(&urls, &states);
    assert_eq!(devices.len(), 2);
    assert_eq!(devices[0].url, "http://10.0.0.5:9123");
    assert!(devices[0].on);
    assert_eq!(devices[1].url, "http://10.0.0.7:9123");
    assert!(!devices[1].on);
}

#[test]
fn window_defaults_are_the_documented_ones() {
    assert_eq!(QUERY_INTERVAL_MS, 200);
    assert_eq!(INACTIVITY_TIMEOUT_MS, 500);
}
