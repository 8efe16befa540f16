//! Values that the desktop's status bar shows: power, network and tray items.
use vstd::prelude::*;
use vstd::string::StringSliceAdditionalSpecFns;

use crate::bytes::bytes_equal;

verus! {

/// Charging state of a power source, as the power daemon numbers it.
#[derive(Clone, Copy, Debug, PartialEq, Eq, Structural)]
pub enum BatteryState {
    Unknown,
    Charging,
    Discharging,
    Empty,
    FullyCharged,
    PendingCharge,
    PendingDischarge,
}

pub open spec fn battery_state_of(v: u32) -> BatteryState {
    if v == 1 {
        BatteryState::Charging
    } else if v == 2 {
        BatteryState::Discharging
    } else if v == 3 {
        BatteryState::Empty
    } else if v == 4 {
        BatteryState::FullyCharged
    } else if v == 5 {
        BatteryState::PendingCharge
    } else if v == 6 {
        BatteryState::PendingDischarge
    } else {
        BatteryState::Unknown
    }
}

impl From<u32> for BatteryState {
    fn from(value: u32) -> (r: BatteryState) {
        match value {
            1 => BatteryState::Charging,
            2 => BatteryState::Discharging,
            3 => BatteryState::Empty,
            4 => BatteryState::FullyCharged,
            5 => BatteryState::PendingCharge,
            6 => BatteryState::PendingDischarge,
            _ => BatteryState::Unknown,
        }
    }
}

impl vstd::std_specs::convert::FromSpecImpl<u32> for BatteryState {
    open spec fn obeys_from_spec() -> bool {
        true
    }

    open spec fn from_spec(v: u32) -> BatteryState {
        battery_state_of(v)
    }
}

/// Kind of a power source, as the power daemon numbers it.
#[derive(Clone, Copy, Debug, PartialEq, Eq, Structural)]
pub enum BatteryType {
    Unknown,
    LinePower,
    Battery,
    Ups,
    Monitor,
    Mouse,
    Keyboard,
    Pda,
    Phone,
}

pub open spec fn battery_type_of(v: u32) -> BatteryType {
    if v == 1 {
        BatteryType::LinePower
    } else if v == 2 {
        BatteryType::Battery
    } else if v == 3 {
        BatteryType::Ups
    } else if v == 4 {
        BatteryType::Monitor
    } else if v == 5 {
        BatteryType::Mouse
    } else if v == 6 {
        BatteryType::Keyboard
    } else if v == 7 {
        BatteryType::Pda
    } else if v == 8 {
        BatteryType::Phone
    } else {
        BatteryType::Unknown
    }
}

impl From<u32> for BatteryType {
    fn from(value: u32) -> (r: BatteryType) {
        match value {
            1 => BatteryType::LinePower,
            2 => BatteryType::Battery,
            3 => BatteryType::Ups,
            4 => BatteryType::Monitor,
            5 => BatteryType::Mouse,
            6 => BatteryType::Keyboard,
            7 => BatteryType::Pda,
            8 => BatteryType::Phone,
            _ => BatteryType::Unknown,
        }
    }
}

impl vstd::std_specs::convert::FromSpecImpl<u32> for BatteryType {
    open spec fn obeys_from_spec() -> bool {
        true
    }

    open spec fn from_spec(v: u32) -> BatteryType {
        battery_type_of(v)
    }
}

/// Coarse charge level of a power source.
#[derive(Clone, Copy, Debug, PartialEq, Eq, Structural)]
pub enum BatteryLevel {
    Unknown,
    /// The device reports a percentage instead of a level.
    NoLevel,
    Low,
    Critical,
    Normal,
    High,
    Full,
}

/// How the machine is connected to the network.
#[derive(Clone, Copy, Debug, PartialEq, Eq, Structural)]
pub enum ClientState {
    WiredConnected,
    WifiConnected,
    CellularConnected,
    VpnConnected,
    WifiDisconnected,
    Offline,
    Unknown,
}

/// What the bar shows of the network.
#[derive(Clone, Copy, Debug, PartialEq, Eq, Structural)]
pub struct NetworkManagerState {
    pub state: ClientState,
}

/// The bytes of `name` are one of `names`' bytes.
pub open spec fn named_one_of(name: Seq<u8>, names: Seq<Seq<u8>>) -> bool {
    exists|i: int| 0 <= i < names.len() && names[i] == name
}

/// The network state for a primary connection path and type: with no primary connection
/// ("/"), Wi-Fi being enabled tells a dropped Wi-Fi link from being offline; otherwise the
/// connection's type says which link carries it.
pub open spec fn client_state_of(
    connection: Seq<u8>,
    connection_type: Seq<u8>,
    wireless_enabled: bool,
) -> ClientState {
    if connection == "/".spec_bytes() {
        if wireless_enabled {
            ClientState::WifiDisconnected
        } else {
            ClientState::Offline
        }
    } else if named_one_of(
        connection_type,
        seq!["802-3-ethernet".spec_bytes(), "adsl".spec_bytes(), "pppoe".spec_bytes()],
    ) {
        ClientState::WiredConnected
    } else if named_one_of(
        connection_type,
        seq![
            "802-11-olpc-mesh".spec_bytes(),
            "802-11-wireless".spec_bytes(),
            "wifi-p2p".spec_bytes(),
        ],
    ) {
        ClientState::WifiConnected
    } else if named_one_of(
        connection_type,
        seq!["cdma".spec_bytes(), "gsm".spec_bytes(), "wimax".spec_bytes()],
    ) {
        ClientState::CellularConnected
    } else if named_one_of(connection_type, seq!["vpn".spec_bytes(), "wireguard".spec_bytes()]) {
        ClientState::VpnConnected
    } else {
        ClientState::Unknown
    }
}

/// Whether the bytes of `name` are those of one of `names`.
fn is_one_of(name: &str, names: &[&str]) -> (r: bool)
    ensures
        r == named_one_of(name.spec_bytes(), names@.map_values(|n: &str| n.spec_bytes())),
{
    let bytes = name.as_bytes();
    let ghost all = names@.map_values(|n: &str| n.spec_bytes());
    let mut i: usize = 0;
    while i < names.len()
        invariant
            i <= names@.len(),
            bytes@ == name.spec_bytes(),
            all == names@.map_values(|n: &str| n.spec_bytes()),
            forall|j: int| 0 <= j < i ==> all[j] != bytes@,
        decreases names@.len() - i,
    {
        if bytes_equal(bytes, names[i].as_bytes()) {
            assert(all[i as int] == bytes@);
            return true;
        }
        i += 1;
    }
    false
}

/// The network state for a primary connection path and type.
pub fn determine_state(
    primary_connection: &str,
    primary_connection_type: &str,
    wireless_enabled: bool,
) -> (r: ClientState)
    ensures
        r == client_state_of(
            primary_connection.spec_bytes(),
            primary_connection_type.spec_bytes(),
            wireless_enabled,
        ),
{
    let wired: [&str; 3] = ["802-3-ethernet", "adsl", "pppoe"];
    let wifi: [&str; 3] = ["802-11-olpc-mesh", "802-11-wireless", "wifi-p2p"];
    let cellular: [&str; 3] = ["cdma", "gsm", "wimax"];
    let vpn: [&str; 2] = ["vpn", "wireguard"];
    assert(wired@.map_values(|n: &str| n.spec_bytes()) =~= seq![
        "802-3-ethernet".spec_bytes(),
        "adsl".spec_bytes(),
        "pppoe".spec_bytes(),
    ]);
    assert(wifi@.map_values(|n: &str| n.spec_bytes()) =~= seq![
        "802-11-olpc-mesh".spec_bytes(),
        "802-11-wireless".spec_bytes(),
        "wifi-p2p".spec_bytes(),
    ]);
    assert(cellular@.map_values(|n: &str| n.spec_bytes()) =~= seq![
        "cdma".spec_bytes(),
        "gsm".spec_bytes(),
        "wimax".spec_bytes(),
    ]);
    assert(vpn@.map_values(|n: &str| n.spec_bytes()) =~= seq![
        "vpn".spec_bytes(),
        "wireguard".spec_bytes(),
    ]);
    if bytes_equal(primary_connection.as_bytes(), "/".as_bytes()) {
        if wireless_enabled {
            ClientState::WifiDisconnected
        } else {
            ClientState::Offline
        }
    } else if is_one_of(primary_connection_type, wired.as_slice()) {
        ClientState::WiredConnected
    } else if is_one_of(primary_connection_type, wifi.as_slice()) {
        ClientState::WifiConnected
    } else if is_one_of(primary_connection_type, cellular.as_slice()) {
        ClientState::CellularConnected
    } else if is_one_of(primary_connection_type, vpn.as_slice()) {
        ClientState::VpnConnected
    } else {
        ClientState::Unknown
    }
}

/// Status of a tray item, as the item reports it.
#[derive(Clone, Copy, Debug, PartialEq, Eq, Structural)]
pub enum SystrayItemStatus {
    Unknown,
    Passive,
    Active,
    NeedsAttention,
}

/// One image of a tray icon, as raw pixels.
#[derive(Clone, Debug)]
pub struct SystrayPixmap {
    pub width: i32,
    pub height: i32,
    pub pixels: Vec<u8>,
}

/// A tray icon: a named icon of a theme, or images given by the item itself, which may be
/// several resolutions or the frames of an animation.
#[derive(Clone, Debug)]
pub enum SystrayIcon {
    FreedesktopIcon { theme: String, name: String },
    Pixmaps { icons: Vec<SystrayPixmap> },
}

/// The tooltip of a tray item.
#[derive(Clone, Debug)]
pub struct SystrayTooltip {
    pub icon: SystrayIcon,
    pub title: String,
    pub description: String,
}

/// The icon of a tray menu entry: a named icon, or PNG data.
#[derive(Clone, Debug)]
pub enum SystrayMenuIcon {
    FreedesktopIcon { name: String },
    PNGData(Vec<u8>),
}

impl SystrayMenuIcon {
    /// The icon of a menu entry: its name if it has one, else its PNG data, else none.
    pub fn from_data(icon_name: Option<String>, icon_data: Option<Vec<u8>>) -> (r: Option<
        SystrayMenuIcon,
    >)
        ensures
            icon_name matches Some(name) ==> (r matches Some(
                SystrayMenuIcon::FreedesktopIcon { name: n },
            ) && n@ == name@),
            icon_name is None && icon_data is Some ==> (r matches Some(
                SystrayMenuIcon::PNGData(d),
            ) && d@ == icon_data->Some_0@),
            icon_name is None && icon_data is None ==> r is None,
    {
        match (icon_name, icon_data) {
            (Some(name), _) => Some(SystrayMenuIcon::FreedesktopIcon { name }),
            (None, Some(data)) => Some(SystrayMenuIcon::PNGData(data)),
            (None, None) => None,
        }
    }
}

/// How a menu entry can be toggled, and whether it is on.
#[derive(Clone, Copy, Debug, PartialEq, Eq, Structural)]
pub enum SystrayToggleInfo {
    /// An entry toggled on its own.
    Checkmark(bool),
    /// An entry of a group of which one at a time is on.
    Radio(bool),
    CannotBeToggled,
}

/// The role of a menu entry.
#[derive(Clone, Copy, Debug, PartialEq, Eq, Structural)]
pub enum SystrayMenuItemDisposition {
    Normal,
    Informative,
    Warning,
    Alert,
}

/// One entry of a tray menu.
#[derive(Debug)]
pub enum SystrayMenuItem {
    Separator { id: i32, visible: bool },
    Item {
        id: i32,
        label: Option<String>,
        enabled: bool,
        visible: bool,
        icon: Option<SystrayMenuIcon>,
        /// Each key press of the shortcut: its modifiers, then its key.
        shortcut: Option<Vec<Vec<String>>>,
        toggle_info: SystrayToggleInfo,
        submenu: Option<Vec<SystrayMenuItem>>,
        disposition: SystrayMenuItemDisposition,
    },
}

/// The menu of a tray item.
#[derive(Debug)]
pub struct SystrayMenu {
    pub id: u32,
    pub dbus_path: Option<String>,
    pub items: Vec<SystrayMenuItem>,
}

impl SystrayMenu {
    /// A menu known only by its path, before its entries arrive.
    pub fn partial(dbus_path: String) -> (r: SystrayMenu)
        ensures
            r.id == 0,
            r.dbus_path matches Some(p) && p@ == dbus_path@,
            r.items@.len() == 0,
    {
        SystrayMenu { id: 0, dbus_path: Some(dbus_path), items: Vec::new() }
    }
}

/// An item of the system tray.
#[derive(Debug)]
pub struct SystemTrayItem {
    pub id: String,
    pub title: Option<String>,
    pub status: SystrayItemStatus,
    pub icon: SystrayIcon,
    pub overlay_icon: Option<SystrayIcon>,
    pub attention_icon: Option<SystrayIcon>,
    pub tooltip: Option<SystrayTooltip>,
    /// When present, the menu is shown instead of activating the item.
    pub menu: Option<SystrayMenu>,
}

/// A request to activate a tray item or one of its menu entries; coordinates are a hint of
/// where the item may open a window.
#[derive(Clone, Debug)]
pub enum SystrayActivateRequest {
    MenuItem { address: String, menu_path: String, submenu_id: i32 },
    Primary { address: String, x: i32, y: i32 },
    Secondary { address: String, x: i32, y: i32 },
}

} // verus!
