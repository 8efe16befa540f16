use fix_niri_altdrag::status::{
    determine_state, BatteryState, BatteryType, ClientState, SystrayMenu, SystrayMenuIcon,
};

#[test]
fn battery_state_numbers() {
    assert_eq!(BatteryState::from(0), BatteryState::Unknown);
    assert_eq!(BatteryState::from(1), BatteryState::Charging);
    assert_eq!(BatteryState::from(4), BatteryState::FullyCharged);
    assert_eq!(BatteryState::from(6), BatteryState::PendingDischarge);
    assert_eq!(BatteryState::from(7), BatteryState::Unknown);
}

#[test]
fn battery_type_numbers() {
    assert_eq!(BatteryType::from(2), BatteryType::Battery);
    assert_eq!(BatteryType::from(8), BatteryType::Phone);
    assert_eq!(BatteryType::from(9), BatteryType::Unknown);
}

#[test]
fn network_state() {
    assert_eq!(determine_state("/", "", true), ClientState::WifiDisconnected);
    assert_eq!(determine_state("/", "802-3-ethernet", false), ClientState::Offline);
    let path = "/org/freedesktop/NetworkManager/ActiveConnection/1";
    assert_eq!(determine_state(path, "802-3-ethernet", false), ClientState::WiredConnected);
    assert_eq!(determine_state(path, "pppoe", true), ClientState::WiredConnected);
    assert_eq!(determine_state(path, "802-11-wireless", true), ClientState::WifiConnected);
    assert_eq!(determine_state(path, "gsm", true), ClientState::CellularConnected);
    assert_eq!(determine_state(path, "wireguard", true), ClientState::VpnConnected);
    assert_eq!(determine_state(path, "bluetooth", true), ClientState::Unknown);
}

#[test]
fn partial_menu() {
    let m = SystrayMenu::partial("/MenuBar".to_string());
    assert_eq!(m.id, 0);
    assert_eq!(m.dbus_path, Some("/MenuBar".to_string()));
    assert!(m.items.is_empty());
}

#[test]
fn menu_icon_prefers_the_name() {
    match SystrayMenuIcon::from_data(Some("edit".to_string()), Some(vec![1, 2])) {
        Some(SystrayMenuIcon::FreedesktopIcon { name }) => assert_eq!(name, "edit"),
        other => panic!("unexpected {:?}", other),
    }
    match SystrayMenuIcon::from_data(None, Some(vec![1, 2])) {
        Some(SystrayMenuIcon::PNGData(d)) => assert_eq!(d, vec![1, 2]),
        other => panic!("unexpected {:?}", other),
    }
    assert!(SystrayMenuIcon::from_data(None, None).is_none());
}
