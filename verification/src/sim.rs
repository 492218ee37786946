//! The simulation driver: build every server and client from the two
//! configured datasets, all or nothing.
//!
//! Servers are constructed first so their links can be captured; clients
//! second, each pairing one link per server with its own workshare.
//! Validation fails fast — a zero processing power or a misaligned
//! workshare refuses the whole simulation before any task could start.
//! Spawning one task per entity and waiting on them is the embedding
//! program's job.

use crate::client::Client;
use crate::config::{ClientData, ServerData};
use crate::net::{iface_id, link_target};
use crate::ratio::Fraction;
use crate::server::Server;
use vstd::prelude::*;

verus! {

/// Why a whole simulation refused to build.
#[derive(Clone, Copy, PartialEq, Eq, Structural, Debug)]
pub enum BuildError {
    /// The server at `server_index` has processing power zero.
    ZeroCapacity { server_index: usize },
    /// The client at `client_index` has a workshare whose length is not the
    /// server count.
    WorkshareMismatch { client_index: usize },
}

/// Every configured processing power is non-zero.
pub open spec fn all_powers_positive(server_data: Seq<ServerData>) -> bool {
    forall|k: int|
        0 <= k < server_data.len() ==> (#[trigger] server_data[k]).processing_power > 0
}

/// Every client's workshare is aligned one-to-one with the server list.
pub open spec fn all_workshares_aligned(client_data: Seq<ClientData>, n_servers: int) -> bool {
    forall|j: int|
        0 <= j < client_data.len() ==> (#[trigger] client_data[j]).workshare@.len() == n_servers
}

/// A fully built simulation, ready to be handed one concurrent task per
/// entity. Entities are fixed for the lifetime of one run.
pub struct Simulation {
    pub servers: Vec<Server>,
    pub clients: Vec<Client>,
}

/// Build all servers, then all clients, from the two datasets. Succeeds if
/// and only if every processing power is positive and every workshare is
/// aligned with the server list; otherwise nothing launches and the error
/// names the first offending entry.
pub fn build_simulation(
    server_data: &Vec<ServerData>,
    client_data: &Vec<ClientData>,
    speed: Fraction,
) -> (r: Result<Simulation, BuildError>)
    requires
        speed.is_positive(),
        forall|j: int| 0 <= j < client_data@.len() ==> (#[trigger] client_data@[j]).wf(),
        server_data@.len() <= u32::MAX,
        client_data@.len() <= u32::MAX,
    ensures
        r is Ok <==> (all_powers_positive(server_data@) && all_workshares_aligned(
            client_data@,
            server_data@.len() as int,
        )),
        r matches Ok(sim) ==> {
            &&& sim.servers@.len() == server_data@.len()
            &&& sim.clients@.len() == client_data@.len()
            &&& forall|k: int|
                0 <= k < server_data@.len() ==> {
                    &&& (#[trigger] sim.servers@[k]).wf()
                    &&& sim.servers@[k].id == k + 1
                    &&& sim.servers@[k].processing_power == server_data@[k].processing_power
                    &&& sim.servers@[k].speed == speed
                }
            &&& forall|j: int|
                0 <= j < client_data@.len() ==> {
                    &&& (#[trigger] sim.clients@[j]).wf()
                    &&& sim.clients@[j].id == j + 1
                    &&& sim.clients@[j].work_generation_rate
                        == client_data@[j].work_generation_rate
                    &&& sim.clients@[j].speed == speed
                    &&& sim.clients@[j].distribution_scheme@.len() == server_data@.len()
                }
            &&& forall|j: int, k: int|
                0 <= j < client_data@.len() && 0 <= k < server_data@.len() ==> {
                    &&& (#[trigger] sim.clients@[j].distribution_scheme@[k]).weight
                        == client_data@[j].workshare@[k]
                    &&& link_target(sim.clients@[j].distribution_scheme@[k].virtual_link)
                        == iface_id(sim.servers@[k].host.nic)
                }
        },
        r matches Err(BuildError::ZeroCapacity { server_index }) ==> server_index
            < server_data@.len() && server_data@[server_index as int].processing_power == 0 && (
        forall|i: int|
            0 <= i < server_index ==> (#[trigger] server_data@[i]).processing_power > 0),
        r matches Err(BuildError::WorkshareMismatch { client_index }) ==> all_powers_positive(
            server_data@,
        ) && client_index < client_data@.len() && client_data@[client_index as int].workshare@.len()
            != server_data@.len() && (forall|i: int|
            0 <= i < client_index ==> (#[trigger] client_data@[i]).workshare@.len()
                == server_data@.len()),
{
    let n_servers = server_data.len();
    let n_clients = client_data.len();
    let mut servers: Vec<Server> = Vec::new();
    for k in 0..n_servers
        invariant
            n_servers == server_data@.len(),
            n_servers <= u32::MAX,
            speed.is_positive(),
            servers@.len() == k,
            forall|i: int| 0 <= i < k ==> (#[trigger] server_data@[i]).processing_power > 0,
            forall|i: int|
                0 <= i < k ==> {
                    &&& (#[trigger] servers@[i]).wf()
                    &&& servers@[i].id == i + 1
                    &&& servers@[i].processing_power == server_data@[i].processing_power
                    &&& servers@[i].speed == speed
                },
    {
        match Server::new((k as u32) + 1, server_data[k], speed) {
            Ok(s) => servers.push(s),
            Err(_) => {
                return Err(BuildError::ZeroCapacity { server_index: k });
            },
        }
    }
    let mut clients: Vec<Client> = Vec::new();
    for j in 0..n_clients
        invariant
            n_servers == server_data@.len(),
            n_clients == client_data@.len(),
            n_clients <= u32::MAX,
            speed.is_positive(),
            all_powers_positive(server_data@),
            forall|i: int| 0 <= i < n_clients ==> (#[trigger] client_data@[i]).wf(),
            forall|i: int|
                0 <= i < j ==> (#[trigger] client_data@[i]).workshare@.len() == n_servers,
            servers@.len() == n_servers,
            forall|i: int|
                0 <= i < n_servers ==> {
                    &&& (#[trigger] servers@[i]).wf()
                    &&& servers@[i].id == i + 1
                    &&& servers@[i].processing_power == server_data@[i].processing_power
                    &&& servers@[i].speed == speed
                },
            clients@.len() == j,
            forall|i: int|
                0 <= i < j ==> {
                    &&& (#[trigger] clients@[i]).wf()
                    &&& clients@[i].id == i + 1
                    &&& clients@[i].work_generation_rate == client_data@[i].work_generation_rate
                    &&& clients@[i].speed == speed
                    &&& clients@[i].distribution_scheme@.len() == n_servers
                },
            forall|i: int, k: int|
                0 <= i < j && 0 <= k < n_servers ==> {
                    &&& (#[trigger] clients@[i].distribution_scheme@[k]).weight
                        == client_data@[i].workshare@[k]
                    &&& link_target(clients@[i].distribution_scheme@[k].virtual_link) == iface_id(
                        servers@[k].host.nic,
                    )
                },
    {
        match Client::new((j as u32) + 1, &servers, &client_data[j], speed) {
            Ok(c) => clients.push(c),
            Err(_) => {
                return Err(BuildError::WorkshareMismatch { client_index: j });
            },
        }
    }
    Ok(Simulation { servers, clients })
}

} // verus!
