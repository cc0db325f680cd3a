use usb_toggle::sysfs::{
    attribute_path, description, device_of, devices_dir, enumerate, identifier_field, is_active,
    Attribute, Entry,
};

fn read(content: &str) -> Option<String> {
    Some(String::from(content))
}

fn entry(name: &str, vendor: Option<&str>, product: Option<&str>, label: Option<&str>) -> Entry {
    Entry {
        name: String::from(name),
        vendor_id: vendor.map(String::from),
        product_id: product.map(String::from),
        product_name: label.map(String::from),
    }
}

#[test]
fn attribute_files_live_under_the_entry() {
    assert_eq!(devices_dir(), "/sys/bus/usb/devices");
    assert_eq!(attribute_path("1-1.2", Attribute::VendorId), "/sys/bus/usb/devices/1-1.2/idVendor");
    assert_eq!(
        attribute_path("1-1.2", Attribute::ProductId),
        "/sys/bus/usb/devices/1-1.2/idProduct"
    );
    assert_eq!(
        attribute_path("2-4", Attribute::Configuration),
        "/sys/bus/usb/devices/2-4/bConfigurationValue"
    );
    assert_eq!(attribute_path("2-4", Attribute::ProductName), "/sys/bus/usb/devices/2-4/product");
}

#[test]
fn attribute_file_names() {
    assert_eq!(Attribute::VendorId.file_name(), "idVendor");
    assert_eq!(Attribute::ProductId.file_name(), "idProduct");
    assert_eq!(Attribute::Configuration.file_name(), "bConfigurationValue");
    assert_eq!(Attribute::ProductName.file_name(), "product");
}

#[test]
fn id_field_is_trimmed() {
    assert_eq!(identifier_field(&read("046d\n")), "046d");
    assert_eq!(identifier_field(&read("  c52b  ")), "c52b");
    assert_eq!(identifier_field(&read("")), "");
}

#[test]
fn unreadable_id_field_is_unknown() {
    assert_eq!(identifier_field(&None), "unknown");
}

#[test]
fn absent_configuration_is_inactive() {
    assert!(!is_active(&None));
}

#[test]
fn empty_configuration_is_inactive() {
    assert!(!is_active(&read("")));
    assert!(!is_active(&read("\n")));
    assert!(!is_active(&read("  \n")));
}

#[test]
fn selected_configuration_is_active() {
    assert!(is_active(&read("1\n")));
    assert!(is_active(&read("0")));
    assert!(is_active(&read(" 2 ")));
}

#[test]
fn description_is_the_trimmed_product_name() {
    assert_eq!(description(&read("USB Receiver\n"), "1-1.1"), "USB Receiver");
    assert_eq!(description(&read("\n"), "1-1.1"), "");
}

#[test]
fn description_of_a_nameless_device_is_a_marker() {
    assert_eq!(description(&None, "1-1.1"), "unknown device with id = 1-1.1");
}

#[test]
fn root_hub_is_not_listed() {
    let entries = vec![entry("usb1", Some("1d6b\n"), Some("0002\n"), Some("xHCI Host Controller\n"))];
    assert!(enumerate(&entries).is_empty());
}

#[test]
fn interfaces_are_not_listed() {
    let entries = vec![
        entry("1-1:1.0", None, None, None),
        entry("1-1:1.1", Some("046d\n"), Some("c52b\n"), Some("Receiver\n")),
    ];
    assert!(enumerate(&entries).is_empty());
}

#[test]
fn devices_are_listed_in_directory_order() {
    let entries = vec![
        entry("1-1", Some("05e3\n"), Some("0608\n"), Some("USB2.0 Hub\n")),
        entry("1-1:1.0", None, None, None),
        entry("1-1.2", Some("046d\n"), Some("c52b\n"), Some("USB Receiver\n")),
        entry("usb1", Some("1d6b\n"), Some("0002\n"), Some("xHCI Host Controller\n")),
        entry("2-3", Some("0781\n"), Some("5581\n"), None),
    ];
    let devices = enumerate(&entries);
    assert_eq!(devices.len(), 3);
    assert_eq!(devices[0].path(), "1-1");
    assert_eq!(devices[0].identifier(), "05e3:0608");
    assert_eq!(devices[0].description(), "USB2.0 Hub");
    assert_eq!(devices[1].path(), "1-1.2");
    assert_eq!(devices[1].identifier(), "046d:c52b");
    assert_eq!(devices[1].description(), "USB Receiver");
    assert_eq!(devices[2].path(), "2-3");
    assert_eq!(devices[2].identifier(), "0781:5581");
    assert_eq!(devices[2].description(), "unknown device with id = 2-3");
}

#[test]
fn unreadable_device_is_listed_with_placeholders() {
    let devices = enumerate(&[entry("3-2", None, None, None)]);
    assert_eq!(devices.len(), 1);
    assert_eq!(devices[0].vendor(), "unknown");
    assert_eq!(devices[0].product(), "unknown");
    assert_eq!(devices[0].identifier(), "unknown:unknown");
    assert_eq!(devices[0].path(), "3-2");
    assert_eq!(devices[0].description(), "unknown device with id = 3-2");
}

#[test]
fn root_hub_with_unreadable_vendor_is_listed() {
    let devices = enumerate(&[entry("usb2", None, Some("0003\n"), None)]);
    assert_eq!(devices.len(), 1);
    assert_eq!(devices[0].identifier(), "unknown:0003");
}

#[test]
fn vendor_filter_is_exact() {
    assert!(device_of(&entry("usb1", Some("1d6b"), None, None)).is_none());
    assert!(device_of(&entry("usb1", Some(" 1d6b \n"), None, None)).is_none());
    assert!(device_of(&entry("1-1", Some("1D6B\n"), None, None)).is_some());
    assert!(device_of(&entry("1-1", Some("1d6b0\n"), None, None)).is_some());
    assert!(device_of(&entry("1-1", Some("\n"), None, None)).is_some());
}

#[test]
fn nameless_entry_is_not_listed() {
    assert!(device_of(&entry("", Some("046d\n"), Some("c52b\n"), None)).is_none());
    assert!(enumerate(&[entry("", None, None, None)]).is_empty());
}

#[test]
fn empty_directory_lists_nothing() {
    assert!(enumerate(&[]).is_empty());
}
