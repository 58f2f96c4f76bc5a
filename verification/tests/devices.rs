use filedrop::discovery::{
    device_from_service, device_id_from_fullname, device_removed, device_resolved,
    announcement_parts, ipv4_address_text, nearby_devices, service_announcement,
    service_host_name, HostAddress, ResolvedDevice,
};
use filedrop::identity::{
    environment_device_name, platform_device_name, platform_name, resolve_identity,
    system_device_name, CommandOutput, OperatingSystem,
};
use filedrop::models::{
    app_info, settings_or_default, AppSettings, BackendEvent, DeviceIdentity, NearbyDevice,
};
use filedrop::registry::KeyedRegistry;
use filedrop::text::{trim, white_space};

fn service(id: &str, name: &str, addresses: Vec<HostAddress>) -> ResolvedDevice {
    ResolvedDevice {
        id: Some(id.to_string()),
        name: Some(name.to_string()),
        platform: Some("windows".to_string()),
        protocol: Some("1".to_string()),
        addresses,
        port: 4242,
    }
}

#[test]
fn announcements_are_listed_with_their_first_usable_address() {
    let s = service(
        "peer",
        "Desk",
        vec![HostAddress::V6, HostAddress::V4(127, 0, 0, 1), HostAddress::V4(192, 168, 1, 20)],
    );
    let d = device_from_service("me", &s).unwrap();
    assert_eq!(
        d,
        NearbyDevice {
            id: "peer".to_string(),
            name: "Desk".to_string(),
            platform: "windows".to_string(),
            address: "192.168.1.20".to_string(),
            port: 4242,
        }
    );
    let mut s2 = s.clone();
    s2.platform = None;
    assert_eq!(device_from_service("me", &s2).unwrap().platform, "other");
}

#[test]
fn unusable_announcements_are_ignored() {
    let good = service("peer", "Desk", vec![HostAddress::V4(10, 0, 0, 2)]);
    assert!(device_from_service("peer", &good).is_none());
    let mut s = good.clone();
    s.protocol = Some("2".to_string());
    assert!(device_from_service("me", &s).is_none());
    let mut s = good.clone();
    s.protocol = None;
    assert!(device_from_service("me", &s).is_none());
    let mut s = good.clone();
    s.name = None;
    assert!(device_from_service("me", &s).is_none());
    let mut s = good.clone();
    s.id = None;
    assert!(device_from_service("me", &s).is_none());
    let s = service("peer", "Desk", vec![HostAddress::V6, HostAddress::V4(127, 1, 2, 3)]);
    assert!(device_from_service("me", &s).is_none());
}

#[test]
fn devices_are_listed_by_name_ignoring_case() {
    let mut devices: KeyedRegistry<NearbyDevice> = KeyedRegistry::new();
    for (id, name) in [("1", "zeta"), ("2", "Charlie"), ("3", "bravo"), ("4", "ÉCLAIR"), ("5", "alpha")] {
        device_resolved(&mut devices, "me", &service(id, name, vec![HostAddress::V4(10, 0, 0, 1)]));
    }
    let names: Vec<String> = nearby_devices(&devices).into_iter().map(|d| d.name).collect();
    assert_eq!(names, vec!["alpha", "bravo", "Charlie", "zeta", "ÉCLAIR"]);
}

#[test]
fn resolving_and_removing_report_the_new_listing() {
    let mut devices: KeyedRegistry<NearbyDevice> = KeyedRegistry::new();
    let event = device_resolved(&mut devices, "me", &service("peer", "Desk", vec![HostAddress::V4(10, 0, 0, 1)]));
    match event {
        Some(BackendEvent::DevicesChanged(list)) => assert_eq!(list.len(), 1),
        _ => panic!("expected a listing"),
    }
    let again = device_resolved(&mut devices, "me", &service("peer", "Desk 2", vec![HostAddress::V4(10, 0, 0, 9)]));
    match again {
        Some(BackendEvent::DevicesChanged(list)) => {
            assert_eq!(list.len(), 1);
            assert_eq!(list[0].name, "Desk 2");
            assert_eq!(list[0].address, "10.0.0.9");
        }
        _ => panic!("expected a listing"),
    }
    assert!(device_resolved(&mut devices, "me", &service("me", "Self", vec![HostAddress::V4(10, 0, 0, 1)])).is_none());
    assert!(device_removed(&mut devices, "other._filedrop._tcp.local.").is_none());
    match device_removed(&mut devices, "peer._filedrop._tcp.local.") {
        Some(BackendEvent::DevicesChanged(list)) => assert!(list.is_empty()),
        _ => panic!("expected a listing"),
    }
    assert_eq!(devices.len(), 0);
}

#[test]
fn full_names_give_device_ids() {
    assert_eq!(device_id_from_fullname("abc._filedrop._tcp.local."), "abc");
    assert_eq!(device_id_from_fullname("abc.._filedrop._tcp.local."), "abc");
    assert_eq!(device_id_from_fullname("abc..."), "abc");
    assert_eq!(device_id_from_fullname("plain"), "plain");
    assert_eq!(device_id_from_fullname("_filedrop._tcp.local."), "");
}

#[test]
fn addresses_are_written_in_dotted_decimal() {
    assert_eq!(ipv4_address_text(0, 9, 10, 255), "0.9.10.255");
}

fn identity(name: &str) -> DeviceIdentity {
    DeviceIdentity {
        id: "67e55044-10b1-426f-9247-bb680e5fe0c8".to_string(),
        name: name.to_string(),
        platform: "mac".to_string(),
    }
}

#[test]
fn announcements_carry_a_short_host_name() {
    assert_eq!(
        service_host_name("67e55044-10b1-426f-9247-bb680e5fe0c8"),
        "filedrop-67e55044-10b.local."
    );
    assert_eq!(service_host_name("short"), "filedrop-short.local.");
    assert!(service_announcement(&identity("Desk"), 5000).is_ok());
}

#[test]
fn announcements_carry_the_id_host_port_and_properties() {
    let device = identity("Desk");
    let parts = announcement_parts(&device, 5000);
    assert_eq!(parts.service_type, "_filedrop._tcp.local.");
    assert_eq!(parts.instance, "67e55044-10b1-426f-9247-bb680e5fe0c8");
    assert_eq!(parts.host, "filedrop-67e55044-10b.local.");
    assert_eq!(parts.port, 5000);
    let expected: Vec<(String, String)> = vec![
        ("id".to_string(), "67e55044-10b1-426f-9247-bb680e5fe0c8".to_string()),
        ("name".to_string(), "Desk".to_string()),
        ("platform".to_string(), "mac".to_string()),
        ("protocol".to_string(), "1".to_string()),
    ];
    assert_eq!(parts.properties, expected);

    let service = service_announcement(&device, 4321).unwrap();
    assert!(service.follows_host_addresses());
    let announced = service.announcement();
    assert_eq!(announced.instance, "67e55044-10b1-426f-9247-bb680e5fe0c8");
    assert_eq!(announced.host, "filedrop-67e55044-10b.local.");
    assert_eq!(announced.port, 4321);
    assert_eq!(announced.properties, expected);
    let info = service.into_service_info();
    assert_eq!(info.get_port(), 4321);
    assert_eq!(info.get_property_val_str("name"), Some("Desk"));
    assert_eq!(info.get_property_val_str("id"), Some("67e55044-10b1-426f-9247-bb680e5fe0c8"));
    assert!(info.get_fullname().starts_with("67e55044-10b1-426f-9247-bb680e5fe0c8."));
    assert!(info.is_addr_auto());
}

#[test]
fn announcements_with_overlong_properties_are_refused() {
    let fits = "n".repeat(250);
    assert!(service_announcement(&identity(&fits), 5000).is_ok());
    let too_long = "n".repeat(251);
    let message = service_announcement(&identity(&too_long), 5000).err().unwrap();
    assert_eq!(
        message,
        "Could not create the discovery announcement: TXT property 'name' has length 256 bytes, \
         exceeding the 255-byte limit"
    );
    let wide = "é".repeat(126);
    let message = service_announcement(&identity(&wide), 5000).err().unwrap();
    assert_eq!(
        message,
        "Could not create the discovery announcement: TXT property 'name' has length 257 bytes, \
         exceeding the 255-byte limit"
    );
}

#[test]
fn a_stored_identity_keeps_its_id_and_takes_the_current_name() {
    let first = resolve_identity(None, "Desk".to_string(), "mac".to_string());
    let second = resolve_identity(Some(first.clone()), "Desk renamed".to_string(), "mac".to_string());
    assert_eq!(first.id, second.id);
    assert!(!second.name.is_empty());
    assert_eq!(second.name, "Desk renamed");
    let third = resolve_identity(None, "Desk".to_string(), "mac".to_string());
    assert_ne!(first.id, third.id);
    let id = first.id.as_bytes();
    assert_eq!(id.len(), 36);
    for (i, b) in id.iter().enumerate() {
        if [8, 13, 18, 23].contains(&i) {
            assert_eq!(*b, b'-');
        } else {
            assert!(b.is_ascii_digit() || (b'a'..=b'f').contains(b));
        }
    }
}

#[test]
fn device_names_fall_back_in_order() {
    assert_eq!(system_device_name(Some("  Desk \n".to_string()), Some("host".to_string())), "Desk");
    assert_eq!(system_device_name(None, Some("host".to_string())), "host");
    assert_eq!(system_device_name(Some("   ".to_string()), Some("host".to_string())), "FileDrop Device");
    assert_eq!(system_device_name(None, None), "FileDrop Device");
    assert_eq!(
        environment_device_name(Some("PC".to_string()), Some("host".to_string())),
        Some("PC".to_string())
    );
    assert_eq!(environment_device_name(None, Some("host".to_string())), Some("host".to_string()));
    let ok = CommandOutput { success: true, stdout: " Mac Book\n".to_string() };
    assert_eq!(
        platform_device_name(OperatingSystem::Mac, Some(ok.clone()), None),
        Some("Mac Book".to_string())
    );
    let failed = CommandOutput { success: false, stdout: "x".to_string() };
    assert_eq!(platform_device_name(OperatingSystem::Mac, Some(failed), None), None);
    assert_eq!(
        platform_device_name(OperatingSystem::Windows, Some(ok.clone()), Some("PC".to_string())),
        Some("PC".to_string())
    );
    assert_eq!(platform_device_name(OperatingSystem::Other, Some(ok), Some("PC".to_string())), None);
    assert_eq!(platform_name(OperatingSystem::Mac), "mac");
    assert_eq!(platform_name(OperatingSystem::Windows), "windows");
    assert_eq!(platform_name(OperatingSystem::Other), "other");
}

#[test]
fn white_space_is_what_std_calls_white_space() {
    for c in (0u32..=0x10FFFF).filter_map(char::from_u32) {
        assert_eq!(white_space(c), c.is_whitespace(), "{:?}", c);
    }
    for s in ["", " ", " a ", "\u{2003}x y\u{205f}", "\u{85}a\u{a0}"] {
        assert_eq!(trim(s), s.trim());
    }
}

#[test]
fn stored_settings_are_kept_and_defaults_fill_in() {
    let first = settings_or_default(None);
    assert!(first.discoverable);
    assert!(!first.auto_open_received);
    let changed = AppSettings { auto_open_received: true, discoverable: false };
    let second = settings_or_default(Some(changed));
    assert_eq!(second, changed);
    assert_eq!(AppSettings::default(), first);
}

#[test]
fn app_info_reports_the_protocol_version() {
    let info = app_info(&identity("Desk"), "/home/me/Downloads".to_string());
    assert_eq!(info.identity, identity("Desk"));
    assert_eq!(info.download_directory, "/home/me/Downloads");
    assert_eq!(info.protocol_version, 1);
}
