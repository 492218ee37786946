//! A server consumes packets from its own queue, simulates processing for a
//! time proportional to the workload and inverse to its processing power,
//! and acknowledges through the packet's embedded return link.
//!
//! The loop that blocks, sleeps and repeats belongs to the embedding
//! program; everything it decides per packet is here, under contract.

use crate::config::ServerData;
use crate::net::{iface_id, link_target, Host, Packet, VirtualLink};
use crate::ratio::{sat64, Fraction};
use vstd::prelude::*;

verus! {

/// A server descriptor with processing power zero: division by zero at
/// runtime, so construction refuses it up front.
#[derive(Clone, Copy, PartialEq, Eq, Structural, Debug)]
pub struct ZeroCapacityError;

/// Simulated service time in milliseconds before speed scaling:
/// `floor(1000 * workload / power)`.
pub open spec fn service_time_millis(workload: u64, power: u64) -> int {
    1000 * workload / power as int
}

/// Service time after the global speed factor divides it:
/// `floor(floor(1000 * workload / power) / (speed.num / speed.den))`.
pub open spec fn scaled_service_millis(workload: u64, power: u64, speed: Fraction) -> int {
    service_time_millis(workload, power) * speed.den / speed.num as int
}

/// Service-time law: for every workload and positive power the computed
/// value is exactly `floor(1000 * workload / power)` milliseconds before
/// scaling and exactly `floor(that * den / num)` after, whenever each fits
/// in `u64` milliseconds; `sat64` clamps only past that machine bound.
pub proof fn lemma_service_time_exact(workload: u64, power: u64, speed: Fraction)
    requires
        power > 0,
        speed.is_positive(),
    ensures
        service_time_millis(workload, power) <= u64::MAX ==> sat64(
            service_time_millis(workload, power),
        ) == service_time_millis(workload, power),
        scaled_service_millis(workload, power, speed) <= u64::MAX ==> sat64(
            scaled_service_millis(workload, power, speed),
        ) == scaled_service_millis(workload, power, speed),
{
    vstd::arithmetic::div_mod::lemma_div_pos_is_pos(1000 * (workload as int), power as int);
    assert(service_time_millis(workload, power) * speed.den >= 0) by (nonlinear_arith)
        requires
            service_time_millis(workload, power) >= 0,
            speed.den >= 0,
    ;
    vstd::arithmetic::div_mod::lemma_div_pos_is_pos(
        service_time_millis(workload, power) * speed.den,
        speed.num as int,
    );
}

/// A workload consumer: one host (hence one inbound queue), a fixed
/// processing power in work units per simulated second, and the global
/// speed factor it was configured with.
pub struct Server {
    pub id: u32,
    pub host: Host,
    pub processing_power: u64,
    pub speed: Fraction,
}

impl Server {
    pub open spec fn wf(self) -> bool {
        self.processing_power > 0 && self.speed.is_positive()
    }

    /// Construction fails fast on a zero processing power, never surfacing
    /// it as a runtime division fault.
    pub fn new(id: u32, server_data: ServerData, speed: Fraction) -> (r: Result<
        Server,
        ZeroCapacityError,
    >)
        requires
            speed.is_positive(),
        ensures
            r is Ok <==> server_data.processing_power > 0,
            r matches Ok(s) ==> s.id == id && s.processing_power == server_data.processing_power
                && s.speed == speed && s.wf(),
    {
        let power = server_data.get_processing_power();
        if power == 0 {
            return Err(ZeroCapacityError);
        }
        Ok(Server { id, host: Host::new(), processing_power: power, speed })
    }

    pub fn get_virtual_link(&self) -> (link: VirtualLink)
        ensures
            link_target(link) == iface_id(self.host.nic),
    {
        self.host.get_virtual_link()
    }

    /// Block until the next request arrives in this server's own queue.
    pub fn read_packet(&self) -> (packet: Packet) {
        self.host.nic.read()
    }

    /// Unscaled service time, clamped into `u64` milliseconds. A zero
    /// workload costs no time.
    pub fn service_time_ms(&self, workload: u64) -> (r: u64)
        requires
            self.wf(),
        ensures
            r == sat64(service_time_millis(workload, self.processing_power)),
    {
        let t: u128 = (1000u128 * (workload as u128)) / (self.processing_power as u128);
        if t > u64::MAX as u128 {
            u64::MAX
        } else {
            t as u64
        }
    }

    /// Service time with the global speed factor applied.
    pub fn scaled_service_time_ms(&self, workload: u64) -> (r: u64)
        requires
            self.wf(),
        ensures
            r == sat64(scaled_service_millis(workload, self.processing_power, self.speed)),
    {
        let t: u128 = (1000u128 * (workload as u128)) / (self.processing_power as u128);
        self.speed.div_floor(t)
    }

    /// One protocol step for one request: how many milliseconds to simulate
    /// processing, where to send the acknowledgment (exactly the request's
    /// embedded return link), and the acknowledgment itself — content-free,
    /// addressed back at this server for any further exchange.
    pub fn respond(&self, message: Packet) -> (r: (u64, VirtualLink, Packet))
        requires
            self.wf(),
        ensures
            r.0 == sat64(
                scaled_service_millis(message.workload, self.processing_power, self.speed),
            ),
            link_target(r.1) == link_target(message.from),
            r.2.workload == 0,
            r.2.origin == self.id,
            link_target(r.2.from) == iface_id(self.host.nic),
    {
        let sleep_ms = self.scaled_service_time_ms(message.workload);
        let own = self.host.get_virtual_link();
        let ack = Packet::answer_me_at(&own, 0, self.id);
        (sleep_ms, message.from, ack)
    }
}

} // verus!
