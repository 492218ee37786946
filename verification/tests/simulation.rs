use simnet::config::{ClientData, Configuration, ServerData};
use simnet::ratio::Fraction;
use simnet::sim::{build_simulation, BuildError};

fn unit_speed() -> Fraction {
    Fraction::new(1, 1)
}

#[test]
fn build_wires_every_entity() {
    let servers = vec![ServerData { processing_power: 2 }, ServerData { processing_power: 4 }];
    let clients = vec![
        ClientData {
            work_generation_rate: 10,
            workshare: vec![Fraction::new(5, 10), Fraction::new(5, 10)],
        },
        ClientData {
            work_generation_rate: 20,
            workshare: vec![Fraction::new(1, 1), Fraction::new(0, 1)],
        },
    ];
    let sim = build_simulation(&servers, &clients, unit_speed()).unwrap();
    assert_eq!(sim.servers.len(), 2);
    assert_eq!(sim.clients.len(), 2);
    assert_eq!(sim.servers[0].id, 1);
    assert_eq!(sim.servers[1].id, 2);
    assert_eq!(sim.servers[1].processing_power, 4);
    assert_eq!(sim.clients[0].id, 1);
    assert_eq!(sim.clients[1].id, 2);
    assert_eq!(sim.clients[1].work_generation_rate, 20);
    assert_eq!(sim.clients[0].distribution_scheme.len(), 2);
    let weight = sim.clients[1].distribution_scheme[0].weight;
    assert_eq!((weight.num, weight.den), (1, 1));
}

#[test]
fn zero_capacity_refuses_the_whole_simulation() {
    let servers = vec![ServerData { processing_power: 2 }, ServerData { processing_power: 0 }];
    let clients = vec![
        ClientData {
            work_generation_rate: 10,
            workshare: vec![Fraction::new(5, 10), Fraction::new(5, 10)],
        },
    ];
    let r = build_simulation(&servers, &clients, unit_speed());
    assert_eq!(r.err(), Some(BuildError::ZeroCapacity { server_index: 1 }));
}

#[test]
fn misaligned_workshare_refuses_the_whole_simulation() {
    let servers = vec![ServerData { processing_power: 2 }, ServerData { processing_power: 4 }];
    let clients = vec![
        ClientData {
            work_generation_rate: 10,
            workshare: vec![Fraction::new(5, 10), Fraction::new(5, 10)],
        },
        ClientData { work_generation_rate: 20, workshare: vec![Fraction::new(1, 1)] },
    ];
    let r = build_simulation(&servers, &clients, unit_speed());
    assert_eq!(r.err(), Some(BuildError::WorkshareMismatch { client_index: 1 }));
}

#[test]
fn servers_are_validated_before_clients() {
    let servers = vec![ServerData { processing_power: 0 }];
    let clients = vec![ClientData { work_generation_rate: 10, workshare: vec![] }];
    let r = build_simulation(&servers, &clients, unit_speed());
    assert_eq!(r.err(), Some(BuildError::ZeroCapacity { server_index: 0 }));
}

#[test]
fn empty_datasets_build_an_empty_simulation() {
    let servers: Vec<ServerData> = vec![];
    let clients: Vec<ClientData> = vec![];
    let sim = build_simulation(&servers, &clients, unit_speed()).unwrap();
    assert_eq!(sim.servers.len(), 0);
    assert_eq!(sim.clients.len(), 0);
}

#[test]
fn configuration_text_to_running_round() {
    let mut configuration = Configuration::new();
    configuration.load_line("S=2;4").unwrap();
    configuration.load_line("C=10,0.5,0.5").unwrap();
    let server_data = configuration.get_server_dataset().unwrap();
    let client_data = configuration.get_client_dataset().unwrap();
    let sim = build_simulation(&server_data, &client_data, unit_speed()).unwrap();

    let sent = sim.clients[0].fan_out().unwrap();
    assert_eq!(sent, vec![5, 5]);
    for server in &sim.servers {
        let request = server.read_packet();
        let (_sleep_ms, reply_link, ack) = server.respond(request);
        assert!(reply_link.send_through(ack));
    }
    assert_eq!(sim.clients[0].collect_acks().len(), 2);
}
