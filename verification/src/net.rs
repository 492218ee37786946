//! The addressing fabric: packets, virtual links and network interfaces.
//!
//! A `VirtualLink` is a capability: the only way to address an entity is to
//! hold a link to its inbound queue, and a packet carries the sender's own
//! return link so a receiver can reply without any registry. The queue itself
//! is a `std::sync::mpsc` channel hidden behind a handful of trusted
//! wrappers; everything a contract says about addressing goes through the
//! two specification-level identities `link_target` and `iface_id`.

use std::sync::mpsc;
use vstd::prelude::*;

verus! {

/// The identity of the inbound queue a link delivers into. Two links with
/// the same target feed the same queue.
pub uninterp spec fn link_target(link: VirtualLink) -> nat;

/// The identity of an interface's own inbound queue.
pub uninterp spec fn iface_id(iface: NetworkInterface) -> nat;

/// A one-directional send handle bound to exactly one inbound queue.
#[verifier::external_body]
pub struct VirtualLink {
    s: mpsc::Sender<Packet>,
}

/// An endpoint's inbound queue together with the clone-source for links that
/// point back at it. Dropping the interface closes the queue.
#[verifier::external_body]
pub struct NetworkInterface {
    s: mpsc::Sender<Packet>,
    r: mpsc::Receiver<Packet>,
}

/// An immutable unit of transmission: a workload quantity, the sender's own
/// return link, and a sender identifier kept for diagnostics only.
pub struct Packet {
    pub from: VirtualLink,
    pub workload: u64,
    pub origin: u32,
}

impl Packet {
    /// A fresh packet whose return address is the given interface.
    pub fn from_iface(iface: &NetworkInterface, workload: u64, origin: u32) -> (packet: Packet)
        ensures
            link_target(packet.from) == iface_id(*iface),
            packet.workload == workload,
            packet.origin == origin,
    {
        Packet { from: iface.get_virtual_link(), workload, origin }
    }

    /// A fresh packet whose return address is wherever the given link points.
    pub fn answer_me_at(link: &VirtualLink, workload: u64, origin: u32) -> (packet: Packet)
        ensures
            link_target(packet.from) == link_target(*link),
            packet.workload == workload,
            packet.origin == origin,
    {
        Packet { from: VirtualLink::linked_to(link), workload, origin }
    }
}

impl VirtualLink {
    /// Relies on `std::sync::mpsc::Sender::clone`: a cloned sender delivers
    /// into the same queue as the interface's own send handle.
    #[verifier::external_body]
    pub fn to_iface(interface: &NetworkInterface) -> (link: VirtualLink)
        ensures
            link_target(link) == iface_id(*interface),
    {
        VirtualLink { s: interface.s.clone() }
    }

    /// Relies on `std::sync::mpsc::Sender::clone`: the clone delivers into
    /// the same queue as the original link.
    #[verifier::external_body]
    pub fn linked_to(link: &VirtualLink) -> (r: VirtualLink)
        ensures
            link_target(r) == link_target(*link),
    {
        VirtualLink { s: link.s.clone() }
    }

    /// Relies on `std::sync::mpsc::Sender::send`: the packet is enqueued,
    /// FIFO per sender, into the queue this link targets, unless the
    /// receiving interface has already been dropped; the result says whether
    /// the queue accepted it. Fire-and-forget: it never blocks.
    #[verifier::external_body]
    pub fn send_through(&self, packet: Packet) -> (delivered: bool) {
        self.s.send(packet).is_ok()
    }
}

impl NetworkInterface {
    /// Relies on `std::sync::mpsc::channel`: an unbounded queue whose sender
    /// half delivers into its receiver half.
    #[verifier::external_body]
    pub fn new() -> (iface: NetworkInterface) {
        let (tx, rx) = mpsc::channel();
        NetworkInterface { s: tx, r: rx }
    }

    /// Relies on `std::sync::mpsc::Receiver::recv`: blocks the calling
    /// thread until a packet is available, then dequeues exactly one, FIFO.
    /// `recv` fails only once every sender is gone, and this interface keeps
    /// its own sender half alive, so a packet is always returned.
    #[verifier::external_body]
    pub fn read(&self) -> (packet: Packet) {
        self.r.recv().unwrap()
    }

    /// Mint a link pointing back at this interface's queue.
    pub fn get_virtual_link(&self) -> (link: VirtualLink)
        ensures
            link_target(link) == iface_id(*self),
    {
        VirtualLink::to_iface(self)
    }
}

/// The attachment point for a server or client role: wraps exactly one
/// network interface.
pub struct Host {
    pub nic: NetworkInterface,
}

impl Host {
    pub fn new() -> (host: Host) {
        Host { nic: NetworkInterface::new() }
    }

    pub fn get_virtual_link(&self) -> (link: VirtualLink)
        ensures
            link_target(link) == iface_id(self.nic),
    {
        self.nic.get_virtual_link()
    }
}

/// Routing round-trip: a packet that embeds a return link to a client's own
/// interface, once answered through exactly that embedded link, is
/// acknowledged at that client's queue and nowhere else. Delivery itself is
/// the trusted queue contract of `send_through`; this states that the
/// addresses line up, however many clients share a server.
pub proof fn lemma_ack_reaches_sender(
    client_iface: NetworkInterface,
    request: Packet,
    ack_link: VirtualLink,
)
    requires
        link_target(request.from) == iface_id(client_iface),
        link_target(ack_link) == link_target(request.from),
    ensures
        link_target(ack_link) == iface_id(client_iface),
{
}

} // verus!
