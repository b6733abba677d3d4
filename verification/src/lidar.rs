//! Finding the sensor among the serial ports of the host.
//!
//! The sensor has no USB identity of its own: it shows up as a generic
//! CP210x UART bridge. Whoever lists the ports of the host hands the list
//! over as plain values, and this module picks the bridges out of it.
use vstd::prelude::*;

verus! {

/// The USB vendor id of a CP210x UART bridge.
pub const CP210X_VID: u16 = 4292;

/// The USB product id of a CP210x UART bridge.
pub const CP210X_PID: u16 = 60000;

/// The baud rate at which the sensor talks.
pub const LIDAR_BAUD_RATE: u32 = 230_400;

/// How long one read of the link may wait for a byte, in milliseconds.
pub const READ_TIMEOUT_MILLIS: u64 = 500;

/// What kind of device sits behind a serial port.
#[derive(Debug, PartialEq, Eq, Clone, Copy)]
pub enum PortKind {
    /// A USB device, with its vendor and product id.
    Usb { vid: u16, pid: u16 },
    /// Anything else.
    Other,
}

/// One serial port of the host.
#[derive(Debug, PartialEq, Eq, Clone)]
pub struct PortEntry {
    pub port_name: String,
    pub kind: PortKind,
}

/// The name of a serial port that a sensor sits behind.
#[derive(Debug, PartialEq, Eq, Clone)]
pub struct LidarName(String);

impl View for LidarName {
    type V = Seq<char>;

    closed spec fn view(&self) -> Seq<char> {
        self.0@
    }
}

impl LidarName {
    /// The name as text.
    pub fn as_str(&self) -> (name: &str)
        ensures
            name@ == self@,
    {
        self.0.as_str()
    }

    /// The name as text of its own, as `to_string` gives it for other types.
    pub fn to_string(&self) -> (name: String)
        ensures
            name@ == self@,
    {
        self.0.clone()
    }
}

impl From<LidarName> for String {
    /// The name as an owned string.
    fn from(name: LidarName) -> (text: String) {
        name.0
    }
}

impl vstd::std_specs::convert::FromSpecImpl<LidarName> for String {
    open spec fn obeys_from_spec() -> bool {
        true
    }

    closed spec fn from_spec(name: LidarName) -> String {
        name.0
    }
}

/// Turning a name into a string keeps its text.
pub proof fn lemma_name_into_string(name: LidarName)
    ensures
        <String as vstd::std_specs::convert::FromSpec<LidarName>>::from_spec(name)@ == name@,
{
}

impl PortKind {
    /// Whether this is the bridge that a sensor sits behind.
    pub open spec fn is_lidar(self) -> bool {
        self == (PortKind::Usb { vid: CP210X_VID, pid: CP210X_PID })
    }

    /// Whether this is the bridge that a sensor sits behind.
    pub fn is_lidar_bridge(&self) -> (yes: bool)
        ensures
            yes == self.is_lidar(),
    {
        match *self {
            PortKind::Usb { vid, pid } => vid == CP210X_VID && pid == CP210X_PID,
            PortKind::Other => false,
        }
    }
}

/// The ports among `ports` that a sensor sits behind, in their order.
pub open spec fn lidar_ports(ports: Seq<PortEntry>) -> Seq<PortEntry> {
    ports.filter(|port: PortEntry| port.kind.is_lidar())
}

/// The names of `ports`, in their order.
pub open spec fn port_names(ports: Seq<PortEntry>) -> Seq<Seq<char>> {
    ports.map_values(|port: PortEntry| port.port_name@)
}

/// The text of each of `names`, in their order.
pub open spec fn name_texts(names: Seq<LidarName>) -> Seq<Seq<char>> {
    names.map_values(|name: LidarName| name@)
}

/// Picks the sensors out of the serial ports of the host: the USB ports
/// with the vendor and product id of a CP210x bridge, by name, in the order
/// in which they were listed.
pub fn lidar_names(ports: &[PortEntry]) -> (names: Vec<LidarName>)
    ensures
        name_texts(names@) == port_names(lidar_ports(ports@)),
{
    let mut names: Vec<LidarName> = Vec::new();
    let mut i: usize = 0;
    proof {
        reveal(Seq::filter);
        assert(ports@.take(0) =~= Seq::<PortEntry>::empty());
        assert(name_texts(names@) =~= port_names(lidar_ports(ports@.take(0))));
    }
    while i < ports.len()
        invariant
            i <= ports.len(),
            name_texts(names@) == port_names(lidar_ports(ports@.take(i as int))),
        decreases ports.len() - i,
    {
        let ghost before = ports@.take(i as int);
        let ghost chosen = names@;
        proof {
            reveal(Seq::filter);
            assert(ports@.take(i + 1).drop_last() =~= before);
        }
        if ports[i].kind.is_lidar_bridge() {
            names.push(LidarName(ports[i].port_name.clone()));
            assert(lidar_ports(ports@.take(i + 1)) == lidar_ports(before).push(ports@[i as int]));
            assert(name_texts(names@) =~= name_texts(chosen).push(ports@[i as int].port_name@));
            assert(port_names(lidar_ports(before).push(ports@[i as int])) =~= port_names(
                lidar_ports(before),
            ).push(ports@[i as int].port_name@));
        } else {
            assert(lidar_ports(ports@.take(i + 1)) == lidar_ports(before));
        }
        i += 1;
    }
    assert(ports@.take(i as int) =~= ports@);
    names
}

} // verus!
