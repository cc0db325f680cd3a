use usb_toggle::command::{is_permitted, is_permitted_to, parse, Command};

#[test]
fn no_argument_lists() {
    assert!(matches!(parse(None), Command::List));
}

#[test]
fn help_flags_ask_for_help() {
    assert!(matches!(parse(Some("-h")), Command::Help));
    assert!(matches!(parse(Some("--help")), Command::Help));
}

#[test]
fn version_flags_ask_for_the_version() {
    assert!(matches!(parse(Some("-v")), Command::Version));
    assert!(matches!(parse(Some("--version")), Command::Version));
}

#[test]
fn anything_else_is_an_identifier() {
    match parse(Some("046d:c52b")) {
        Command::Toggle(id) => assert_eq!(id, "046d:c52b"),
        other => panic!("{:?}", other),
    }
    assert!(matches!(parse(Some("-H")), Command::Toggle(_)));
    assert!(matches!(parse(Some("--help ")), Command::Toggle(_)));
    assert!(matches!(parse(Some("")), Command::Toggle(_)));
}

#[test]
fn only_root_may_toggle() {
    let toggle = parse(Some("046d:c52b"));
    assert!(is_permitted_to(&toggle, 0));
    assert!(!is_permitted_to(&toggle, 1));
    assert!(!is_permitted_to(&toggle, 1000));
    assert!(!is_permitted_to(&toggle, u32::MAX));
}

#[test]
fn everyone_may_list_and_read_the_texts() {
    for uid in [0, 1, 1000, u32::MAX] {
        assert!(is_permitted_to(&Command::List, uid));
        assert!(is_permitted_to(&Command::Help, uid));
        assert!(is_permitted_to(&Command::Version, uid));
    }
}

#[test]
fn this_process_may_list() {
    assert!(is_permitted(&Command::List));
    assert!(is_permitted(&Command::Help));
    assert!(is_permitted(&Command::Version));
}

#[test]
fn this_process_may_toggle_only_as_root() {
    let toggle = parse(Some("046d:c52b"));
    let uid = nix::unistd::Uid::effective().as_raw();
    assert_eq!(is_permitted(&toggle), uid == 0);
    assert_eq!(is_permitted(&toggle), is_permitted_to(&toggle, uid));
}
