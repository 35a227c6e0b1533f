use vstd::prelude::*;

verus! {

/// A USB endpoint to read from: the configuration, interface and alternate
/// setting to select, and the endpoint address.
#[derive(Clone, Copy, Debug, PartialEq, Eq, Structural)]
pub struct Endpoint {
    pub config: u8,
    pub interface: u8,
    pub setting: u8,
    pub address: u8,
}

/// The direction of an endpoint.
#[derive(Clone, Copy, Debug, PartialEq, Eq, Structural)]
pub enum Direction {
    /// Device to host.
    In,
    /// Host to device.
    Out,
}

/// The transfer type of an endpoint.
#[derive(Clone, Copy, Debug, PartialEq, Eq, Structural)]
pub enum TransferType {
    Control,
    Isochronous,
    Bulk,
    Interrupt,
}

/// An endpoint as the device describes it, with the configuration,
/// interface and alternate setting it belongs to.
#[derive(Clone, Copy, Debug, PartialEq, Eq, Structural)]
pub struct EndpointDescriptor {
    pub config: u8,
    pub interface: u8,
    pub setting: u8,
    pub address: u8,
    pub direction: Direction,
    pub transfer_type: TransferType,
}

/// The result of one USB bulk read of a state report.
#[derive(Clone, Copy, Debug, PartialEq, Eq, Structural)]
pub enum UsbRead {
    /// The read returned this many bytes.
    Data(usize),
    /// The read failed.
    Failed(UsbError),
}

/// Why a USB transfer failed.
#[derive(Clone, Copy, Debug, PartialEq, Eq, Structural)]
pub enum UsbError {
    Io,
    InvalidParam,
    Access,
    NoDevice,
    NotFound,
    Busy,
    Timeout,
    Overflow,
    Pipe,
    Interrupted,
    NoMem,
    NotSupported,
    BadDescriptor,
    Other,
}

/// An endpoint the host can read with transfers of type `t`.
pub open spec fn readable(d: EndpointDescriptor, t: TransferType) -> bool {
    d.direction == Direction::In && d.transfer_type == t
}

/// The endpoint to open for a descriptor.
pub open spec fn endpoint_of(d: EndpointDescriptor) -> Endpoint {
    Endpoint { config: d.config, interface: d.interface, setting: d.setting, address: d.address }
}

/// Finds the first endpoint, in the order the device lists its
/// configurations, interfaces, alternate settings and endpoints, that the
/// host can read with transfers of type `transfer_type`.
pub fn find_readable_endpoint(endpoints: &Vec<EndpointDescriptor>, transfer_type: TransferType) -> (r: Option<
    Endpoint,
>)
    ensures
        match r {
            Some(e) => exists|i: int|
                0 <= i < endpoints@.len() && readable(#[trigger] endpoints@[i], transfer_type) && e
                    == endpoint_of(endpoints@[i]) && forall|j: int| 0 <= j < i ==> !readable(#[trigger] endpoints@[j], transfer_type),
            None => forall|i: int| 0 <= i < endpoints@.len() ==> !readable(#[trigger] endpoints@[i], transfer_type),
        },
        r matches Some(e) ==> exists|i: int|
            0 <= i < endpoints@.len() && #[trigger] endpoints@[i].direction == Direction::In
                && endpoints@[i].transfer_type == transfer_type && e.config == endpoints@[i].config
                && e.interface == endpoints@[i].interface && e.setting == endpoints@[i].setting
                && e.address == endpoints@[i].address,
        r is None ==> forall|i: int| 0 <= i < endpoints@.len() ==> !(#[trigger] endpoints@[i].direction == Direction::In
            && endpoints@[i].transfer_type == transfer_type),
{
    let mut i: usize = 0;
    while i < endpoints.len()
        invariant
            i <= endpoints.len(),
            forall|j: int| 0 <= j < i ==> !readable(#[trigger] endpoints@[j], transfer_type),
        decreases endpoints.len() - i,
    {
        let d = endpoints[i];
        if d.direction == Direction::In && d.transfer_type == transfer_type {
            return Some(
                Endpoint { config: d.config, interface: d.interface, setting: d.setting, address: d.address },
            );
        }
        i = i + 1;
    }
    None
}

} // verus!
