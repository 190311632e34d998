use companion_core::audio::{default_device, mark_default_devices, select_endpoint, AudioDevice, EndpointInfo};

fn endpoints() -> Vec<EndpointInfo> {
    vec![
        EndpointInfo { id: "{dev-1}".to_string(), name: "Speakers".to_string() },
        EndpointInfo { id: "{dev-2}".to_string(), name: "Headphones".to_string() },
        EndpointInfo { id: "{dev-3}".to_string(), name: "Monitor".to_string() },
    ]
}

#[test]
fn marking_flags_exactly_the_default_endpoint() {
    let devices = mark_default_devices(endpoints(), &"{dev-2}".to_string());
    assert_eq!(devices.len(), 3);
    assert_eq!(devices[0].id, "{dev-1}");
    assert_eq!(devices[0].name, "Speakers");
    assert!(!devices[0].is_default);
    assert!(devices[1].is_default);
    assert_eq!(devices[1].name, "Headphones");
    assert!(!devices[2].is_default);
    assert_eq!(devices.iter().filter(|d| d.is_default).count(), 1);
}

#[test]
fn an_unknown_default_id_marks_nothing() {
    let devices = mark_default_devices(endpoints(), &"{gone}".to_string());
    assert!(devices.iter().all(|d| !d.is_default));
}

#[test]
fn selecting_a_present_device_names_it() {
    let devices = mark_default_devices(endpoints(), &"{dev-1}".to_string());
    let (index, message) = select_endpoint(&devices, &"{dev-3}".to_string()).expect("device exists");
    assert_eq!(index, 2);
    assert_eq!(message, "Switched to audio device: Monitor");
}

#[test]
fn selecting_picks_the_first_match() {
    let devices = vec![
        AudioDevice { id: "{dup}".to_string(), name: "First".to_string(), is_default: false },
        AudioDevice { id: "{dup}".to_string(), name: "Second".to_string(), is_default: false },
    ];
    let (index, message) = select_endpoint(&devices, &"{dup}".to_string()).expect("device exists");
    assert_eq!(index, 0);
    assert_eq!(message, "Switched to audio device: First");
}

#[test]
fn selecting_a_missing_device_fails_without_a_device_to_touch() {
    let devices = mark_default_devices(endpoints(), &"{dev-1}".to_string());
    let err = select_endpoint(&devices, &"{no-such-device}".to_string()).unwrap_err();
    assert_eq!(err, "device not found");
    let none = select_endpoint(&Vec::new(), &"{dev-1}".to_string()).unwrap_err();
    assert_eq!(none, "device not found");
}

#[test]
fn the_current_default_query_reports_its_device_as_default() {
    let d = default_device("{dev-9}".to_string(), "Line Out".to_string());
    assert_eq!(d.id, "{dev-9}");
    assert_eq!(d.name, "Line Out");
    assert!(d.is_default);
}
