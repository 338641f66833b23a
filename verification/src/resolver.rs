//! The resolver: from one wall-socket label to the identity of the network
//! switch it is physically patched to.
//!
//! The traversal is a four-way join over the store: the near port whose
//! notes equal the trimmed label, the link port on the same device whose
//! port number is the arithmetic negation of the near port's, the remote
//! device that the link port references, and the remote port on that
//! device.  Where several rows could answer a step, the earliest row in the
//! store wins, and no error is raised for the extra rows.

use crate::errors::NotFoundError;
use crate::store::{Device, Port, Store};
use crate::text::{i32_to_string, int_str, trim_label, trimmed};
use vstd::prelude::*;

verus! {

/// The derived, read-only view a successful resolution produces, owned by
/// the caller.
#[derive(Debug, Clone, PartialEq, Eq)]
pub struct PortConnectionInfo {
    /// The remote switch's hostname.
    pub switch_hostname: String,
    /// The free-text description carried by the link port.
    pub port_description: String,
    /// The remote port's label.
    pub switch_port: String,
    /// The remote switch's primary IP address.
    pub switch_ip: String,
    /// The remote switch's device identifier, rendered in decimal for
    /// downstream URL construction.
    pub switch_device_id: String,
}

/// The mathematical content of a `PortConnectionInfo`.
pub struct InfoModel {
    /// The remote switch's hostname.
    pub switch_hostname: Seq<char>,
    /// The free-text description carried by the link port.
    pub port_description: Seq<char>,
    /// The remote port's label.
    pub switch_port: Seq<char>,
    /// The remote switch's primary IP address.
    pub switch_ip: Seq<char>,
    /// The remote switch's device identifier, in decimal.
    pub switch_device_id: Seq<char>,
}

impl View for PortConnectionInfo {
    type V = InfoModel;

    open spec fn view(&self) -> InfoModel {
        InfoModel {
            switch_hostname: self.switch_hostname@,
            port_description: self.port_description@,
            switch_port: self.switch_port@,
            switch_ip: self.switch_ip@,
            switch_device_id: self.switch_device_id@,
        }
    }
}

/// The index of the first element satisfying a predicate, if any.
pub open spec fn first_where<T>(s: Seq<T>, p: spec_fn(T) -> bool) -> Option<int>
    decreases s.len(),
{
    if s.len() == 0 {
        None
    } else if p(s[0]) {
        Some(0)
    } else {
        match first_where(s.drop_first(), p) {
            Some(i) => Some(i + 1),
            None => None,
        }
    }
}

/// What `first_where` returns: a hit is in range, satisfies the predicate,
/// and nothing before it does; a miss means nothing satisfies it.
pub proof fn lemma_first_where<T>(s: Seq<T>, p: spec_fn(T) -> bool)
    ensures
        match first_where(s, p) {
            Some(i) => 0 <= i < s.len() && p(s[i]) && forall|j: int| 0 <= j < i ==> !p(s[j]),
            None => forall|j: int| 0 <= j < s.len() ==> !p(s[j]),
        },
    decreases s.len(),
{
    if s.len() > 0 && !p(s[0]) {
        lemma_first_where(s.drop_first(), p);
        match first_where(s.drop_first(), p) {
            Some(i) => {
                assert(s.drop_first()[i] == s[i + 1]);
                assert forall|j: int| 0 <= j < i + 1 implies !p(s[j]) by {
                    if j > 0 {
                        assert(!p(s.drop_first()[j - 1]));
                        assert(s.drop_first()[j - 1] == s[j]);
                    }
                }
            },
            None => {
                assert forall|j: int| 0 <= j < s.len() implies !p(s[j]) by {
                    if j > 0 {
                        assert(!p(s.drop_first()[j - 1]));
                        assert(s.drop_first()[j - 1] == s[j]);
                    }
                }
            },
        }
    }
}

/// An element that satisfies the predicate, with nothing before it
/// satisfying it, is exactly what `first_where` returns.
pub proof fn lemma_first_where_unique<T>(s: Seq<T>, p: spec_fn(T) -> bool, i: int)
    requires
        0 <= i < s.len(),
        p(s[i]),
        forall|j: int| 0 <= j < i ==> !p(s[j]),
    ensures
        first_where(s, p) == Some(i),
    decreases s.len(),
{
    if !p(s[0]) {
        lemma_first_where_unique(s.drop_first(), p, i - 1);
    }
}

/// The near-port predicate: the row's notes equal the queried label.
pub open spec fn near_pred(label: Seq<char>) -> spec_fn(Port) -> bool {
    |p: Port| p.notes@ == label
}

/// The link-port predicate: a row on the given device whose port number is
/// the arithmetic negation of the given one.
pub open spec fn link_pred(device_id: i32, port_number: i32) -> spec_fn(Port) -> bool {
    |p: Port| p.device_id == device_id && p.port_number as int == -(port_number as int)
}

/// The remote-device predicate: the device row with the given identifier.
pub open spec fn device_pred(device_id: i32) -> spec_fn(Device) -> bool {
    |d: Device| d.device_id == device_id
}

/// The remote-port predicate: the port row with the given device identifier
/// and port number.
pub open spec fn remote_pred(device_id: i32, port_number: i32) -> spec_fn(Port) -> bool {
    |p: Port| p.device_id == device_id && p.port_number == port_number
}

/// What resolving a trimmed label against a store yields: the result of the
/// four-way join, or nothing when any step of the join has no row.
pub open spec fn resolve_model(devices: Seq<Device>, ports: Seq<Port>, label: Seq<char>) -> Option<
    InfoModel,
> {
    match first_where(ports, near_pred(label)) {
        None => None,
        Some(i) => {
            let near = ports[i];
            match first_where(ports, link_pred(near.device_id, near.port_number)) {
                None => None,
                Some(j) => {
                    let link = ports[j];
                    match (link.connected_device_id, link.connected_port) {
                        (Some(cd), Some(cp)) => match first_where(devices, device_pred(cd)) {
                            None => None,
                            Some(k) => match first_where(ports, remote_pred(cd, cp)) {
                                None => None,
                                Some(m) => Some(
                                    InfoModel {
                                        switch_hostname: devices[k].label@,
                                        port_description: link.notes@,
                                        switch_port: ports[m].notes@,
                                        switch_ip: devices[k].primary_ip@,
                                        switch_device_id: int_str(devices[k].device_id as int),
                                    },
                                ),
                            },
                        },
                        _ => None,
                    }
                },
            }
        },
    }
}

/// A label whose near port has no link sibling resolves to nothing: when no
/// port on the near port's device carries the negated port number, the join
/// yields no row.
pub proof fn lemma_no_link_no_result(
    devices: Seq<Device>,
    ports: Seq<Port>,
    label: Seq<char>,
    i: int,
)
    requires
        first_where(ports, near_pred(label)) == Some(i),
        forall|j: int|
            0 <= j < ports.len() ==> !link_pred(ports[i].device_id, ports[i].port_number)(
                (#[trigger] ports[j]),
            ),
    ensures
        resolve_model(devices, ports, label) is None,
{
    lemma_first_where(ports, near_pred(label));
    lemma_first_where(ports, link_pred(ports[i].device_id, ports[i].port_number));
}

/// A label whose link port references an existing remote device and port
/// resolves to exactly the five fields drawn from those rows: the remote
/// device's hostname and IP, the link port's notes, the remote port's
/// notes, and the remote device's identifier in decimal.
pub proof fn lemma_full_link_resolves(
    devices: Seq<Device>,
    ports: Seq<Port>,
    label: Seq<char>,
    i: int,
    j: int,
    k: int,
    m: int,
    cd: i32,
    cp: i32,
)
    requires
        first_where(ports, near_pred(label)) == Some(i),
        first_where(ports, link_pred(ports[i].device_id, ports[i].port_number)) == Some(j),
        ports[j].connected_device_id == Some(cd),
        ports[j].connected_port == Some(cp),
        first_where(devices, device_pred(cd)) == Some(k),
        first_where(ports, remote_pred(cd, cp)) == Some(m),
    ensures
        resolve_model(devices, ports, label) == Some(
            InfoModel {
                switch_hostname: devices[k].label@,
                port_description: ports[j].notes@,
                switch_port: ports[m].notes@,
                switch_ip: devices[k].primary_ip@,
                switch_device_id: int_str(devices[k].device_id as int),
            },
        ),
{
    lemma_first_where(ports, near_pred(label));
    lemma_first_where(ports, link_pred(ports[i].device_id, ports[i].port_number));
    lemma_first_where(devices, device_pred(cd));
    lemma_first_where(ports, remote_pred(cd, cp));
}

/// Resolution is repeatable: two results that each satisfy the resolver's
/// contract against the same unmodified store and the same label are
/// identical.
pub proof fn lemma_resolve_repeatable(
    devices: Seq<Device>,
    ports: Seq<Port>,
    label: Seq<char>,
    r1: Option<InfoModel>,
    r2: Option<InfoModel>,
)
    requires
        r1 == resolve_model(devices, ports, label),
        r2 == resolve_model(devices, ports, label),
    ensures
        r1 == r2,
{
}

/// Surrounding whitespace on the queried label never changes the result:
/// the resolver sees only the trimmed label.
pub proof fn lemma_resolve_ignores_padding(
    devices: Seq<Device>,
    ports: Seq<Port>,
    pre: Seq<char>,
    label: Seq<char>,
    suf: Seq<char>,
)
    requires
        forall|k: int| 0 <= k < pre.len() ==> crate::text::is_space_char(pre[k]),
        forall|k: int| 0 <= k < suf.len() ==> crate::text::is_space_char(suf[k]),
    ensures
        resolve_model(devices, ports, trimmed(pre + label + suf)) == resolve_model(
            devices,
            ports,
            trimmed(label),
        ),
{
    crate::text::lemma_trim_ignores_padding(pre, label, suf);
}

/// Finds the first port whose notes equal the label.
fn find_port_by_notes(ports: &Vec<Port>, label: &String) -> (r: Option<usize>)
    ensures
        match r {
            Some(i) => i < ports@.len() && first_where(ports@, near_pred(label@)) == Some(i as int),
            None => first_where(ports@, near_pred(label@)) is None,
        },
{
    let n = ports.len();
    let mut i: usize = 0;
    while i < n
        invariant
            i <= n,
            n == ports@.len(),
            forall|j: int| 0 <= j < i ==> !near_pred(label@)((#[trigger] ports@[j])),
        decreases n - i,
    {
        if ports[i].notes == *label {
            proof {
                lemma_first_where_unique(ports@, near_pred(label@), i as int);
            }
            return Some(i);
        }
        i = i + 1;
    }
    proof {
        lemma_first_where(ports@, near_pred(label@));
    }
    None
}

/// Finds the first port on the given device whose port number is the
/// arithmetic negation of the given one.
fn find_link_port(ports: &Vec<Port>, device_id: i32, port_number: i32) -> (r: Option<usize>)
    ensures
        match r {
            Some(i) => i < ports@.len() && first_where(ports@, link_pred(device_id, port_number))
                == Some(i as int),
            None => first_where(ports@, link_pred(device_id, port_number)) is None,
        },
{
    let n = ports.len();
    let mut i: usize = 0;
    while i < n
        invariant
            i <= n,
            n == ports@.len(),
            forall|j: int|
                0 <= j < i ==> !link_pred(device_id, port_number)((#[trigger] ports@[j])),
        decreases n - i,
    {
        let p = &ports[i];
        if p.device_id == device_id && (p.port_number as i64) == -(port_number as i64) {
            proof {
                lemma_first_where_unique(ports@, link_pred(device_id, port_number), i as int);
            }
            return Some(i);
        }
        i = i + 1;
    }
    proof {
        lemma_first_where(ports@, link_pred(device_id, port_number));
    }
    None
}

/// Finds the first device with the given identifier.
fn find_device(devices: &Vec<Device>, device_id: i32) -> (r: Option<usize>)
    ensures
        match r {
            Some(i) => i < devices@.len() && first_where(devices@, device_pred(device_id)) == Some(
                i as int,
            ),
            None => first_where(devices@, device_pred(device_id)) is None,
        },
{
    let n = devices.len();
    let mut i: usize = 0;
    while i < n
        invariant
            i <= n,
            n == devices@.len(),
            forall|j: int| 0 <= j < i ==> !device_pred(device_id)((#[trigger] devices@[j])),
        decreases n - i,
    {
        if devices[i].device_id == device_id {
            proof {
                lemma_first_where_unique(devices@, device_pred(device_id), i as int);
            }
            return Some(i);
        }
        i = i + 1;
    }
    proof {
        lemma_first_where(devices@, device_pred(device_id));
    }
    None
}

/// Finds the first port with the given device identifier and port number.
fn find_port_on_device(ports: &Vec<Port>, device_id: i32, port_number: i32) -> (r: Option<usize>)
    ensures
        match r {
            Some(i) => i < ports@.len() && first_where(ports@, remote_pred(device_id, port_number))
                == Some(i as int),
            None => first_where(ports@, remote_pred(device_id, port_number)) is None,
        },
{
    let n = ports.len();
    let mut i: usize = 0;
    while i < n
        invariant
            i <= n,
            n == ports@.len(),
            forall|j: int|
                0 <= j < i ==> !remote_pred(device_id, port_number)((#[trigger] ports@[j])),
        decreases n - i,
    {
        let p = &ports[i];
        if p.device_id == device_id && p.port_number == port_number {
            proof {
                lemma_first_where_unique(ports@, remote_pred(device_id, port_number), i as int);
            }
            return Some(i);
        }
        i = i + 1;
    }
    proof {
        lemma_first_where(ports@, remote_pred(device_id, port_number));
    }
    None
}

/// Resolves one wall-socket label, trimmed of surrounding whitespace, to
/// the identity of the switch it is patched to.  Yields `NotFoundError`
/// exactly when the four-way join has no row for the trimmed label.
pub fn myquery(store: &Store, notes: &str) -> (r: Result<PortConnectionInfo, NotFoundError>)
    ensures
        match r {
            Ok(info) => resolve_model(store.devices@, store.ports@, trimmed(notes@)) == Some(info@),
            Err(e) => resolve_model(store.devices@, store.ports@, trimmed(notes@)) is None,
        },
{
    let label = trim_label(notes);
    let near_i = match find_port_by_notes(&store.ports, &label) {
        Some(i) => i,
        None => {
            return Err(NotFoundError);
        },
    };
    let near_device = store.ports[near_i].device_id;
    let near_number = store.ports[near_i].port_number;
    let link_i = match find_link_port(&store.ports, near_device, near_number) {
        Some(j) => j,
        None => {
            return Err(NotFoundError);
        },
    };
    let link = &store.ports[link_i];
    let (remote_device_id, remote_port_number) = match (
        link.connected_device_id,
        link.connected_port,
    ) {
        (Some(cd), Some(cp)) => (cd, cp),
        _ => {
            return Err(NotFoundError);
        },
    };
    let device_i = match find_device(&store.devices, remote_device_id) {
        Some(k) => k,
        None => {
            return Err(NotFoundError);
        },
    };
    let remote_i = match find_port_on_device(&store.ports, remote_device_id, remote_port_number) {
        Some(m) => m,
        None => {
            return Err(NotFoundError);
        },
    };
    let device = &store.devices[device_i];
    Ok(
        PortConnectionInfo {
            switch_hostname: device.label.clone(),
            port_description: store.ports[link_i].notes.clone(),
            switch_port: store.ports[remote_i].notes.clone(),
            switch_ip: device.primary_ip.clone(),
            switch_device_id: i32_to_string(device.device_id),
        },
    )
}

} // verus!
