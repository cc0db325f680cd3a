use usb_toggle::descriptor::{description, device_of, enumerate, is_active, Ids, Probe};

fn name(content: &str) -> Option<String> {
    Some(String::from(content))
}

fn probe(vendor: u16, product: u16, bus: u8, ports: Option<Vec<u8>>) -> Probe {
    Probe {
        ids: Some(Ids { vendor, product }),
        bus,
        ports,
        configured: true,
        localized_name: None,
        ascii_name: None,
    }
}

#[test]
fn localized_name_comes_first() {
    assert_eq!(description(true, &name("Maus"), &name("Mouse"), "1133:50475"), "Maus");
    assert_eq!(description(true, &name("Maus"), &None, "1133:50475"), "Maus");
}

#[test]
fn ascii_name_comes_second() {
    assert_eq!(description(true, &None, &name("Mouse"), "1133:50475"), "Mouse");
    assert_eq!(description(true, &name(""), &name("Mouse"), "1133:50475"), "Mouse");
}

#[test]
fn identifier_comes_last() {
    assert_eq!(description(true, &None, &None, "1133:50475"), "1133:50475");
    assert_eq!(description(true, &name(""), &name(""), "1133:50475"), "1133:50475");
    assert_eq!(description(true, &None, &name(""), "1133:50475"), "1133:50475");
}

#[test]
fn inactive_device_is_not_asked_for_names() {
    assert_eq!(
        description(false, &name("Maus"), &name("Mouse"), "1133:50475"),
        "inactive device with id = 1133:50475"
    );
    assert_eq!(description(false, &None, &None, "1:2"), "inactive device with id = 1:2");
}

#[test]
fn probed_device_has_decimal_ids_and_a_path() {
    let device = device_of(&probe(1234, 5678, 2, Some(vec![1, 3]))).unwrap();
    assert_eq!(device.identifier(), "1234:5678");
    assert_eq!(device.vendor(), "1234");
    assert_eq!(device.product(), "5678");
    assert_eq!(device.path(), "2-1.3");
    assert_eq!(device.description(), "1234:5678");
}

#[test]
fn ids_are_not_padded() {
    let device = device_of(&probe(0x1d6b, 2, 1, Some(vec![1]))).unwrap();
    assert_eq!(device.identifier(), "7531:2");
    let device = device_of(&probe(0, 65535, 1, Some(vec![1]))).unwrap();
    assert_eq!(device.identifier(), "0:65535");
}

#[test]
fn unreadable_descriptor_gives_placeholders() {
    let mut unread = probe(0, 0, 1, Some(vec![2]));
    unread.ids = None;
    let device = device_of(&unread).unwrap();
    assert_eq!(device.identifier(), "unknown:unknown");
    assert_eq!(device.description(), "unknown:unknown");
    assert_eq!(device.path(), "1-2");
}

#[test]
fn device_without_a_chain_is_no_device() {
    assert!(device_of(&probe(0x1d6b, 2, 1, Some(vec![]))).is_none());
    assert!(device_of(&probe(0x046d, 0xc52b, 1, None)).is_none());
}

#[test]
fn probes_without_a_chain_are_not_listed() {
    let mut mouse = probe(0x046d, 0xc077, 1, Some(vec![2, 1]));
    mouse.localized_name = name("USB Optical Mouse");
    mouse.ascii_name = name("USB Optical Mouse");
    let mut disk = probe(0x0781, 0x5581, 2, Some(vec![3]));
    disk.configured = false;
    disk.localized_name = name("Ultra");
    let probes = vec![
        probe(0x1d6b, 2, 1, Some(vec![])),
        mouse,
        probe(0x1d6b, 3, 2, None),
        disk,
    ];
    let devices = enumerate(&probes);
    assert_eq!(devices.len(), 2);
    assert_eq!(devices[0].path(), "1-2.1");
    assert_eq!(devices[0].identifier(), "1133:49271");
    assert_eq!(devices[0].description(), "USB Optical Mouse");
    assert_eq!(devices[1].path(), "2-3");
    assert_eq!(devices[1].identifier(), "1921:21889");
    assert_eq!(devices[1].description(), "inactive device with id = 1921:21889");
}

#[test]
fn no_probes_no_devices() {
    assert!(enumerate(&[]).is_empty());
}

#[test]
fn activity_is_the_configuration_reading() {
    let mut device = probe(1, 2, 1, Some(vec![1]));
    assert!(is_active(&device));
    device.configured = false;
    assert!(!is_active(&device));
}
