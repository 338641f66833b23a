//! The plain data model: an in-memory snapshot of the device and port
//! tables that the catalog and the resolver read.

use vstd::prelude::*;

verus! {

/// A network-addressable unit, typically a switch, owning multiple ports.
#[derive(Debug, Clone)]
pub struct Device {
    /// The device identifier, unique in a well-formed store.
    pub device_id: i32,
    /// The hostname label.
    pub label: String,
    /// The primary IP address, as the store records it.
    pub primary_ip: String,
}

/// One physical connector position on a device.
///
/// Two rows on the same device with port numbers that are numeric negations
/// of each other are the two logical sides of one internal jumper; the
/// connected side additionally references a different device's identifier
/// and port number, the remote plug.
#[derive(Debug, Clone)]
pub struct Port {
    /// The identifier of the owning device.
    pub device_id: i32,
    /// The port number on that device.
    pub port_number: i32,
    /// The free-text label of the port.
    pub notes: String,
    /// The identifier of the remote device, when this row is the connected
    /// side of a jumper.
    pub connected_device_id: Option<i32>,
    /// The port number on the remote device, when this row is the connected
    /// side of a jumper.
    pub connected_port: Option<i32>,
}

/// An in-memory snapshot of the two tables.  Row order matters: where
/// several rows could answer a query, the earliest row wins.
#[derive(Debug, Clone)]
pub struct Store {
    /// The device table.
    pub devices: Vec<Device>,
    /// The port table.
    pub ports: Vec<Port>,
}

} // verus!
