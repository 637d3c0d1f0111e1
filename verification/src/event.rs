//! Events pushed to the user interface, the application's menu, and the
//! address configuration it accepts.
use vstd::prelude::*;

verus! {

/// Name under which events are pushed to the user interface.
pub const NOTIFY_EVENT: &'static str = "notify";

/// What an event pushed to the user interface is about.
#[derive(Debug, Clone, Copy, PartialEq, Eq, Structural)]
pub enum RustEventType {
    /// The list of attached devices changed; the payload is the new list.
    DeviceChange,
    /// A download or transfer progressed; the payload is the percentage.
    Download,
}

/// An event pushed to the user interface.
pub struct RustEvent<T> {
    pub evt_type: RustEventType,
    pub evt_data: T,
}

impl<T> RustEvent<T> {
    /// An event of the given kind with the given payload.
    pub fn new(evt_type: RustEventType, evt_data: T) -> (r: Self)
        ensures
            r.evt_type == evt_type,
            r.evt_data == evt_data,
    {
        Self { evt_type, evt_data }
    }
}

/// Address the main machine and the secondary machine use.
pub struct IpConfig {
    main: String,
    sub: String,
}

/// The address an unconfigured machine uses.
pub const UNSET_IP: &'static str = "0.0.0.0";

impl IpConfig {
    pub closed spec fn spec_main(&self) -> Seq<char> {
        self.main@
    }

    pub closed spec fn spec_sub(&self) -> Seq<char> {
        self.sub@
    }

    /// A configuration with the given addresses.
    pub fn new(main: String, sub: String) -> (r: Self)
        ensures
            r.spec_main() == main@,
            r.spec_sub() == sub@,
    {
        IpConfig { main, sub }
    }

    /// The main machine's address.
    pub fn main(&self) -> (r: &String)
        ensures
            r@ == self.spec_main(),
    {
        &self.main
    }

    /// The secondary machine's address.
    pub fn sub(&self) -> (r: &String)
        ensures
            r@ == self.spec_sub(),
    {
        &self.sub
    }
}

impl Default for IpConfig {
    /// Both addresses unset.
    fn default() -> (r: Self)
        ensures
            r.spec_main() == UNSET_IP@,
            r.spec_sub() == UNSET_IP@,
    {
        IpConfig { main: UNSET_IP.to_owned(), sub: UNSET_IP.to_owned() }
    }
}

/// Id of the tray menu's only item.
pub const QUIT_MENU_ID: &'static str = "quit";

/// Label of the tray menu's only item.
pub const QUIT_MENU_LABEL: &'static str = "Quit";

/// What a tray-menu click does.
#[derive(Debug, Clone, Copy, PartialEq, Eq, Structural)]
pub enum MenuCommand {
    /// Leave the application (exit code 0).
    Quit,
    /// Nothing.
    Ignore,
}

/// The command for a click on the menu item with id `id`.
pub fn menu_command(id: &str) -> (r: MenuCommand)
    ensures
        r == (if id@ == QUIT_MENU_ID@ {
            MenuCommand::Quit
        } else {
            MenuCommand::Ignore
        }),
{
    let id_owned = id.to_owned();
    let quit = QUIT_MENU_ID.to_owned();
    if id_owned == quit {
        MenuCommand::Quit
    } else {
        MenuCommand::Ignore
    }
}

} // verus!
