//! Addresses on the link between the host and the device.
use vstd::prelude::*;

verus! {

/// The node number of the ESP32 on its link.
pub const ESP32_NODE_ID: u8 = 2;

/// A socket on the link.
#[derive(Clone, Copy, Debug, PartialEq, Eq, Structural)]
pub struct Address {
    pub network_id: u16,
    pub node_id: u8,
    pub port_id: u8,
}

/// How far an interface has come up.
#[derive(Clone, Copy, Debug, PartialEq, Eq, Structural)]
pub enum InterfaceState {
    /// No sink and no network id.
    Down,
    /// A sink, but no network id.
    Inactive,
    /// A sink and a node id, but no network id.
    ActiveLocal { node_id: u8 },
    /// Fully up.
    Active { net_id: u16, node_id: u8 },
}

/// The interface is not known, or not fully up.
#[derive(Clone, Copy, Debug, PartialEq, Eq, Structural)]
pub struct NoActiveInterface;

/// Whether the link is fully up.
pub fn is_active(state: Option<InterfaceState>) -> (r: bool)
    ensures
        r == (state matches Some(s) && s is Active),
{
    match state {
        Some(InterfaceState::Active { .. }) => true,
        _ => false,
    }
}

/// The address of the ESP32 behind an interface in the given state: any port of
/// the device node on the interface's network. Only an active interface has one.
pub open spec fn peer_of(state: Option<InterfaceState>) -> Result<Address, NoActiveInterface> {
    match state {
        Some(InterfaceState::Active { net_id, node_id }) => Ok(
            Address { network_id: net_id, node_id: ESP32_NODE_ID, port_id: 0 },
        ),
        _ => Err(NoActiveInterface),
    }
}

/// Resolves the ESP32 peer address from the state of an interface.
pub fn peer_address(state: Option<InterfaceState>) -> (r: Result<Address, NoActiveInterface>)
    ensures
        r == peer_of(state),
{
    match state {
        Some(InterfaceState::Active { net_id, node_id: _ }) => Ok(
            Address { network_id: net_id, node_id: ESP32_NODE_ID, port_id: 0 },
        ),
        _ => Err(NoActiveInterface),
    }
}

/// Resolves the ESP32 peer address for a serial interface in the given state.
pub fn serial_peer_address(state: Option<InterfaceState>) -> (r: Result<Address, NoActiveInterface>)
    ensures
        r == peer_of(state),
{
    peer_address(state)
}

/// Resolves the ESP32 peer address for a USB interface in the given state.
pub fn nusb_peer_address(state: Option<InterfaceState>) -> (r: Result<Address, NoActiveInterface>)
    ensures
        r == peer_of(state),
{
    peer_address(state)
}

/// What a server reads of the header of a request.
#[derive(Clone, Copy, Debug, PartialEq, Eq, Structural)]
pub struct RequestHeader {
    pub src: Address,
    pub dst: Address,
    pub seq_no: u16,
}

/// What a server sets in the header of its response.
#[derive(Clone, Copy, Debug, PartialEq, Eq, Structural)]
pub struct ResponseHeader {
    pub src: Address,
    pub dst: Address,
    pub seq_no: Option<u16>,
}

/// Addresses a response: it goes back to the sender of the request, comes from
/// the server's own port, and carries the sequence number of the request.
pub fn response_header(request: &RequestHeader, port: u8) -> (r: ResponseHeader)
    ensures
        r.dst == request.src,
        r.src == (Address {
            network_id: request.dst.network_id,
            node_id: request.dst.node_id,
            port_id: port,
        }),
        r.seq_no == Some(request.seq_no),
{
    let mut src = request.dst;
    src.port_id = port;
    ResponseHeader { src, dst: request.src, seq_no: Some(request.seq_no) }
}

/// The device behind an interface has an address exactly when the interface is fully up:
/// node two on the network of that interface, with the port left open.
pub proof fn an_active_interface_leads_to_the_device(state: InterfaceState, net_id: u16, node_id: u8)
    ensures
        peer_of(None) is Err,
        peer_of(Some(state)) is Ok <==> state is Active,
        peer_of(Some(InterfaceState::Active { net_id, node_id })) matches Ok(peer)
            && peer.network_id == net_id && peer.node_id == 2 && peer.port_id == 0,
{
}

} // verus!
