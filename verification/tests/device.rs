use usb_toggle::device::{find_by_identifier, Device};

fn device(vendor: &str, product: &str, path: &str, description: &str) -> Device {
    Device::new(
        String::from(vendor),
        String::from(product),
        String::from(path),
        String::from(description),
    )
    .unwrap()
}

#[test]
fn identifier_is_vendor_colon_product() {
    let mouse = device("1234", "5678", "2-1.3", "Mouse");
    assert_eq!(mouse.identifier(), "1234:5678");
}

#[test]
fn identifier_keeps_fields_as_stored() {
    assert_eq!(device("046d", "c52b", "1-2", "").identifier(), "046d:c52b");
    assert_eq!(device("unknown", "unknown", "1-2", "").identifier(), "unknown:unknown");
    assert_eq!(device("", "", "1-2", "").identifier(), ":");
}

#[test]
fn device_hands_back_what_it_was_made_of() {
    let hub = device("05e3", "0608", "1-1.4", "USB2.0 Hub");
    assert_eq!(hub.vendor(), "05e3");
    assert_eq!(hub.product(), "0608");
    assert_eq!(hub.path(), "1-1.4");
    assert_eq!(hub.description(), "USB2.0 Hub");
}

#[test]
fn interface_name_makes_no_device() {
    let made = Device::new(
        String::from("05e3"),
        String::from("0608"),
        String::from("1-1.4:1.0"),
        String::from("USB2.0 Hub"),
    );
    assert!(made.is_none());
}

#[test]
fn empty_token_makes_no_device() {
    let made = Device::new(
        String::from("05e3"),
        String::from("0608"),
        String::new(),
        String::from("USB2.0 Hub"),
    );
    assert!(made.is_none());
}

#[test]
fn lookup_finds_the_first_match() {
    let devices = vec![
        device("05e3", "0608", "1-1", "Hub"),
        device("046d", "c52b", "1-1.1", "Receiver"),
        device("046d", "c52b", "1-1.2", "Receiver"),
    ];
    assert_eq!(find_by_identifier(&devices, "046d:c52b"), Some(1));
    assert_eq!(find_by_identifier(&devices, "05e3:0608"), Some(0));
}

#[test]
fn lookup_miss_finds_nothing() {
    let devices = vec![device("05e3", "0608", "1-1", "Hub")];
    assert_eq!(find_by_identifier(&devices, "05e3:0609"), None);
    assert_eq!(find_by_identifier(&devices, "05e3"), None);
    assert_eq!(find_by_identifier(&devices, ""), None);
    assert_eq!(find_by_identifier(&[], "05e3:0608"), None);
}
