//! A client "observatory" generates a fixed quantity of work each round,
//! fans it out across every server by its static weighted scheme, then
//! holds at a barrier until one acknowledgment per target has arrived.
//!
//! Acknowledgments are content-free and arrivals are only counted, never
//! correlated to requests: a deliberate limitation of the protocol kept
//! as-is. The loop that repeats rounds and sleeps between them belongs to
//! the embedding program.

use crate::config::ClientData;
use crate::net::{iface_id, link_target, Host, Packet, VirtualLink};
use crate::ratio::{sat64, Fraction};
use crate::server::Server;
use vstd::prelude::*;

verus! {

/// A client whose workshare list is not aligned one-to-one with the server
/// list; construction refuses it before any task could start.
#[derive(Clone, Copy, PartialEq, Eq, Structural, Debug)]
pub struct WorkshareMismatchError;

/// A send through a link whose receiving entity is gone. Fatal to the
/// sending task only.
#[derive(Clone, Copy, PartialEq, Eq, Structural, Debug)]
pub struct PeerGoneError;

/// One fan-out destination: a link to a server and the workshare fraction
/// routed to it.
pub struct Target {
    pub virtual_link: VirtualLink,
    pub weight: Fraction,
}

/// The weight sequence of a distribution scheme, in positional order.
pub open spec fn weights_of(targets: Seq<Target>) -> Seq<Fraction> {
    targets.map_values(|t: Target| t.weight)
}

/// What one round sends: `floor(x * weight_k)` work units to the k-th
/// target, clamped into `u64`.
pub open spec fn round_payloads(x: u64, weights: Seq<Fraction>) -> Seq<u64> {
    Seq::new(weights.len(), |k: int| sat64(x * weights[k].num / weights[k].den as int))
}

pub open spec fn seq_sum(s: Seq<u64>) -> int
    decreases s.len(),
{
    if s.len() == 0 {
        0
    } else {
        seq_sum(s.drop_last()) + s.last()
    }
}

/// A workload producer: one host, a static ordered list of weighted server
/// links built once at construction, and a fixed per-round generation rate.
pub struct Client {
    pub id: u32,
    pub host: Host,
    pub distribution_scheme: Vec<Target>,
    pub work_generation_rate: u64,
    pub speed: Fraction,
}

impl Client {
    pub open spec fn wf(self) -> bool {
        self.speed.is_positive() && forall|k: int|
            0 <= k < self.distribution_scheme@.len() ==> (
            #[trigger] self.distribution_scheme@[k]).weight.is_valid()
    }

    /// Capture one link per server, paired positionally with this client's
    /// workshare. Fails fast when the workshare length does not match the
    /// server count.
    pub fn new(id: u32, servers: &Vec<Server>, client_data: &ClientData, speed: Fraction) -> (r:
        Result<Client, WorkshareMismatchError>)
        requires
            speed.is_positive(),
            client_data.wf(),
        ensures
            r is Ok <==> client_data.workshare@.len() == servers@.len(),
            r matches Ok(c) ==> c.wf() && c.id == id && c.work_generation_rate
                == client_data.work_generation_rate && c.speed == speed
                && c.distribution_scheme@.len() == servers@.len() && (forall|k: int|
                0 <= k < servers@.len() ==> (#[trigger] c.distribution_scheme@[k]).weight
                    == client_data.workshare@[k] && link_target(
                    c.distribution_scheme@[k].virtual_link,
                ) == iface_id(servers@[k].host.nic)),
    {
        let workshare = client_data.get_workshare();
        let n = servers.len();
        if workshare.len() != n {
            return Err(WorkshareMismatchError);
        }
        let mut distribution: Vec<Target> = Vec::new();
        for i in 0..n
            invariant
                n == servers@.len(),
                n == workshare@.len(),
                workshare@ == client_data.workshare@,
                client_data.wf(),
                distribution@.len() == i,
                forall|k: int|
                    0 <= k < i ==> (#[trigger] distribution@[k]).weight
                        == client_data.workshare@[k] && link_target(
                        distribution@[k].virtual_link,
                    ) == iface_id(servers@[k].host.nic),
        {
            distribution.push(
                Target { virtual_link: servers[i].get_virtual_link(), weight: workshare[i] },
            );
        }
        Ok(
            Client {
                id,
                host: Host::new(),
                distribution_scheme: distribution,
                work_generation_rate: client_data.get_work_generation_rate(),
                speed,
            },
        )
    }

    /// Fan-out: one packet per target, in configuration order, each carrying
    /// `floor(x * weight_k)` work units and this client's own return link.
    /// The workloads actually sent are returned; a refused send is fatal to
    /// this client's round. Only a gone peer can fail a round, so with no
    /// targets at all success is owed.
    pub fn fan_out(&self) -> (r: Result<Vec<u64>, PeerGoneError>)
        requires
            self.wf(),
        ensures
            r matches Ok(sent) ==> sent@ == round_payloads(
                self.work_generation_rate,
                weights_of(self.distribution_scheme@),
            ),
            self.distribution_scheme@.len() == 0 ==> r is Ok,
    {
        let x = self.work_generation_rate;
        let n = self.distribution_scheme.len();
        let mut sent: Vec<u64> = Vec::new();
        for k in 0..n
            invariant
                n == self.distribution_scheme@.len(),
                x == self.work_generation_rate,
                self.wf(),
                sent@.len() == k,
                forall|j: int|
                    0 <= j < k ==> sent@[j] == round_payloads(
                        x,
                        weights_of(self.distribution_scheme@),
                    )[j],
        {
            let target = &self.distribution_scheme[k];
            let workload = target.weight.mul_floor(x);
            let packet = Packet::from_iface(&self.host.nic, workload, self.id);
            if !target.virtual_link.send_through(packet) {
                return Err(PeerGoneError);
            }
            sent.push(workload);
        }
        proof {
            assert(sent@ =~= round_payloads(x, weights_of(self.distribution_scheme@)));
        }
        Ok(sent)
    }

    /// Fan-in barrier: block until exactly as many acknowledgments as there
    /// are configured targets have been read from this client's own queue —
    /// no more, no fewer — whatever server each one came from.
    pub fn collect_acks(&self) -> (acks: Vec<Packet>)
        ensures
            acks@.len() == self.distribution_scheme@.len(),
    {
        let n = self.distribution_scheme.len();
        let mut acks: Vec<Packet> = Vec::new();
        for k in 0..n
            invariant
                n == self.distribution_scheme@.len(),
                acks@.len() == k,
        {
            acks.push(self.host.nic.read());
        }
        acks
    }

    /// One full round: fan out, then hold at the barrier until every target
    /// has acknowledged. Returns the workloads sent and the acknowledgments
    /// read. As with `fan_out`, only a gone peer can fail it, so with no
    /// targets at all success is owed.
    pub fn run_round(&self) -> (r: Result<(Vec<u64>, Vec<Packet>), PeerGoneError>)
        requires
            self.wf(),
        ensures
            r matches Ok(round) ==> round.0@ == round_payloads(
                self.work_generation_rate,
                weights_of(self.distribution_scheme@),
            ) && round.1@.len() == self.distribution_scheme@.len(),
            self.distribution_scheme@.len() == 0 ==> r is Ok,
    {
        let sent = match self.fan_out() {
            Ok(sent) => sent,
            Err(e) => {
                return Err(e);
            },
        };
        let acks = self.collect_acks();
        Ok((sent, acks))
    }

    /// The fixed inter-round pause: 3000 ms divided by the speed factor.
    pub fn round_interval_ms(&self) -> (r: u64)
        requires
            self.wf(),
        ensures
            r == sat64(3000 * self.speed.den / self.speed.num as int),
    {
        self.speed.div_floor(3000)
    }
}

/// One round's fan-out is deterministic: the per-target payloads, and their
/// total `sum over k of floor(x * weight_k)`, are a function of the
/// generation rate and the weight sequence alone, so the same configuration
/// sends the same batch every round.
pub proof fn lemma_round_payload_deterministic(
    x1: u64,
    ws1: Seq<Fraction>,
    x2: u64,
    ws2: Seq<Fraction>,
)
    requires
        x1 == x2,
        ws1 == ws2,
    ensures
        round_payloads(x1, ws1) == round_payloads(x2, ws2),
        seq_sum(round_payloads(x1, ws1)) == seq_sum(round_payloads(x2, ws2)),
{
}

} // verus!
