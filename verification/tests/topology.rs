use usb_toggle::topology::topology_path;

#[test]
fn path_joins_bus_and_ports() {
    assert_eq!(topology_path(2, &[1, 3]), Some(String::from("2-1.3")));
}

#[test]
fn path_of_a_single_port_has_no_dot() {
    assert_eq!(topology_path(1, &[4]), Some(String::from("1-4")));
}

#[test]
fn path_keeps_chain_order() {
    assert_eq!(topology_path(3, &[2, 1, 4, 1]), Some(String::from("3-2.1.4.1")));
    assert_eq!(topology_path(3, &[1, 4, 1, 2]), Some(String::from("3-1.4.1.2")));
}

#[test]
fn path_writes_numbers_in_decimal() {
    assert_eq!(topology_path(255, &[255, 0, 10]), Some(String::from("255-255.0.10")));
    assert_eq!(topology_path(0, &[100]), Some(String::from("0-100")));
}

#[test]
fn empty_chain_has_no_path() {
    assert_eq!(topology_path(1, &[]), None);
    assert_eq!(topology_path(0, &[]), None);
}

#[test]
fn path_never_holds_a_colon() {
    let mut bus: u8 = 0;
    loop {
        let path = topology_path(bus, &[bus, 255 - bus]).unwrap();
        assert!(!path.contains(':'));
        assert_eq!(path, format!("{}-{}.{}", bus, bus, 255 - bus));
        if bus == 255 {
            break;
        }
        bus += 1;
    }
}

#[test]
fn another_place_has_another_path() {
    let places: [(u8, &[u8]); 8] = [
        (1, &[1]),
        (1, &[11]),
        (11, &[1]),
        (1, &[1, 1]),
        (1, &[1, 2]),
        (1, &[2, 1]),
        (1, &[12]),
        (2, &[1, 1]),
    ];
    for (i, (bus, ports)) in places.iter().enumerate() {
        for (j, (other_bus, other_ports)) in places.iter().enumerate() {
            let same = topology_path(*bus, ports) == topology_path(*other_bus, other_ports);
            assert_eq!(same, i == j);
        }
    }
}
