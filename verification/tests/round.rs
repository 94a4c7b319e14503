use grants_indexer::event_handling::{Event, EventPayload};
use grants_indexer::round::{
    index_round, index_round_factory, instances, log_query, next_batch, round_created_event,
    Address, ChainConfig, Discovery, FetchFailure, IndexingError, Instance, MalformedLog, Phase,
    RawLog, Reply, Request, Round, RoundIndexer, INSTANCE_TOPIC, ROUND_CREATED_SIGNATURE,
};

fn address(last: u8) -> Address {
    let mut bytes = [0u8; 20];
    bytes[0] = 0x04;
    bytes[1] = 0xe7;
    bytes[19] = last;
    Address { bytes }
}

fn topic_of(address: &Address) -> [u8; 32] {
    let mut topic = [0u8; 32];
    topic[12..].copy_from_slice(&address.bytes);
    topic
}

fn announcement(last: u8, block_number: i32) -> RawLog {
    RawLog {
        topics: vec![[0xaa; 32], topic_of(&address(last))],
        block_number,
    }
}

fn round_at(last: u8) -> Round {
    index_round(&address(last), address(0xf3), address(0xf1), address(0xf2))
}

fn config(max_in_flight: usize) -> ChainConfig {
    ChainConfig {
        chain_id: 10,
        rpc_endpoint: "http://localhost:8545".to_string(),
        factory_address: address(0xfa),
        start_block: None,
        max_in_flight,
    }
}

fn expected_event(last: u8, block_number: i32) -> Event {
    Event {
        chain_id: 10,
        address: "0x04e70000000000000000000000000000000000fa".to_string(),
        block_number,
        payload: EventPayload::RoundCreated {
            round_address: format!("0x04e7000000000000000000000000000000000{last:03x}"),
        },
    }
}

#[test]
fn the_instance_address_is_looked_for_in_the_second_topic() {
    assert_eq!(INSTANCE_TOPIC, 1);
    assert_eq!(ROUND_CREATED_SIGNATURE, "RoundCreated(address,address,address)");
}

#[test]
fn an_address_is_the_last_twenty_bytes_of_a_topic() {
    let mut topic = [0u8; 32];
    for (i, byte) in topic.iter_mut().enumerate() {
        *byte = i as u8;
    }
    let address = Address::from_topic(&topic);
    let expected: Vec<u8> = (12u8..32).collect();
    assert_eq!(address.bytes.to_vec(), expected);
}

#[test]
fn an_address_is_written_as_forty_hexadecimal_digits() {
    let mut bytes = [0u8; 20];
    for (i, byte) in bytes.iter_mut().enumerate() {
        *byte = (i as u8) * 13 + 1;
    }
    let address = Address { bytes };
    assert_eq!(
        address.to_hex(),
        "0x010e1b2835424f5c697683909daab7c4d1deebf8"
    );
    assert_eq!(
        Address { bytes: [0xff; 20] }.to_hex(),
        "0xffffffffffffffffffffffffffffffffffffffff"
    );
    assert_eq!(
        Address { bytes: [0; 20] }.to_hex(),
        "0x0000000000000000000000000000000000000000"
    );
}

#[test]
fn a_round_is_made_of_the_addresses_read_from_it() {
    let round = index_round(&address(9), address(0xf3), address(0xf1), address(0xf2));
    assert_eq!(
        round,
        Round {
            id: address(9),
            payout_strategy: address(0xf1),
            voting_strategy: address(0xf2),
            token: address(0xf3),
        }
    );
}

#[test]
fn addresses_compare_byte_for_byte() {
    assert!(address(1).same_as(&address(1)));
    assert!(!address(1).same_as(&address(2)));
    let mut other = address(1);
    other.bytes[0] = 0;
    assert!(!address(1).same_as(&other));
}

#[test]
fn the_query_starts_at_the_first_block_unless_told_otherwise() {
    let query = log_query(address(0xfa), None);
    assert_eq!(query.address, address(0xfa));
    assert_eq!(query.signature, "RoundCreated(address,address,address)");
    assert_eq!(query.from_block, 0);

    assert_eq!(log_query(address(0xfa), Some(17)).from_block, 17);
}

#[test]
fn instances_are_distinct_and_in_the_order_of_first_announcement() {
    let logs = vec![
        announcement(1, 100),
        announcement(2, 101),
        announcement(1, 102),
        announcement(3, 103),
        announcement(2, 104),
    ];

    assert_eq!(
        instances(&logs),
        Ok(vec![
            Instance {
                address: address(1),
                block_number: 100
            },
            Instance {
                address: address(2),
                block_number: 101
            },
            Instance {
                address: address(3),
                block_number: 103
            },
        ])
    );
    assert_eq!(instances(&Vec::new()), Ok(Vec::new()));
}

#[test]
fn a_log_without_the_instance_topic_is_reported_by_position() {
    let logs = vec![
        announcement(1, 100),
        RawLog {
            topics: vec![[0xaa; 32]],
            block_number: 101,
        },
        RawLog {
            topics: Vec::new(),
            block_number: 102,
        },
    ];
    assert_eq!(instances(&logs), Err(MalformedLog { position: 1 }));
}

#[test]
fn batches_hold_at_most_what_may_be_in_flight() {
    let all: Vec<Instance> = (0..5)
        .map(|number| Instance {
            address: address(number),
            block_number: number as i32,
        })
        .collect();

    let (batch, cursor) = next_batch(&all, 0, 2);
    assert_eq!(batch, &all[0..2]);
    assert_eq!(cursor, 2);
    let (batch, cursor) = next_batch(&all, cursor, 2);
    assert_eq!(batch, &all[2..4]);
    assert_eq!(cursor, 4);
    let (batch, cursor) = next_batch(&all, cursor, 2);
    assert_eq!(batch, &all[4..5]);
    assert_eq!(cursor, 5);
    let (batch, cursor) = next_batch(&all, cursor, 2);
    assert!(batch.is_empty());
    assert_eq!(cursor, 5);
}

#[test]
fn a_round_created_event_names_chain_factory_block_and_round() {
    let instance = Instance {
        address: address(7),
        block_number: 555,
    };
    assert_eq!(
        round_created_event(10, &address(0xfa), &instance),
        expected_event(7, 555)
    );
}

#[test]
fn a_failed_reading_costs_that_round_only() {
    let mut found: Discovery<String> = Discovery::new();
    assert!(found.is_complete());

    found.record_batch(
        10,
        &address(0xfa),
        vec![
            (
                Instance {
                    address: address(1),
                    block_number: 100,
                },
                Ok(round_at(1)),
            ),
            (
                Instance {
                    address: address(2),
                    block_number: 101,
                },
                Err("timeout".to_string()),
            ),
            (
                Instance {
                    address: address(3),
                    block_number: 102,
                },
                Ok(round_at(3)),
            ),
        ],
    );

    assert_eq!(found.rounds, vec![round_at(1), round_at(3)]);
    assert_eq!(
        found.events,
        vec![expected_event(1, 100), expected_event(3, 102)]
    );
    assert_eq!(
        found.failures,
        vec![FetchFailure {
            address: address(2),
            cause: "timeout".to_string()
        }]
    );
    assert!(!found.is_complete());
}

#[test]
fn the_indexer_asks_for_logs_then_for_rounds_in_batches() {
    let mut indexer: RoundIndexer<String> = RoundIndexer::new(&config(2));
    assert_eq!(indexer.phase, Phase::Idle);

    assert_eq!(
        index_round_factory(&mut indexer, Reply::Start),
        Ok(Request::Logs(log_query(address(0xfa), None)))
    );
    assert_eq!(indexer.phase, Phase::AwaitingLogs);

    let logs = vec![
        announcement(1, 100),
        announcement(2, 101),
        announcement(1, 102),
        announcement(3, 103),
    ];
    assert_eq!(
        index_round_factory(&mut indexer, Reply::Logs(logs)),
        Ok(Request::Rounds(vec![
            Instance {
                address: address(1),
                block_number: 100
            },
            Instance {
                address: address(2),
                block_number: 101
            },
        ]))
    );
    assert_eq!(indexer.phase, Phase::AwaitingRounds);

    assert_eq!(
        index_round_factory(
            &mut indexer,
            Reply::Rounds(vec![Ok(round_at(1)), Err("timeout".to_string())])
        ),
        Ok(Request::Rounds(vec![Instance {
            address: address(3),
            block_number: 103
        }]))
    );

    assert_eq!(
        index_round_factory(&mut indexer, Reply::Rounds(vec![Ok(round_at(3))])),
        Ok(Request::Done)
    );
    assert_eq!(indexer.phase, Phase::Finished);

    let found = indexer.finish();
    assert_eq!(found.rounds, vec![round_at(1), round_at(3)]);
    assert_eq!(
        found.events,
        vec![expected_event(1, 100), expected_event(3, 103)]
    );
    assert_eq!(
        found.failures,
        vec![FetchFailure {
            address: address(2),
            cause: "timeout".to_string()
        }]
    );
}

#[test]
fn the_indexer_passes_the_start_block_on() {
    let mut settings = config(4);
    settings.start_block = Some(1_000_000);
    let mut indexer: RoundIndexer<String> = RoundIndexer::new(&settings);
    assert_eq!(
        index_round_factory(&mut indexer, Reply::Start),
        Ok(Request::Logs(log_query(address(0xfa), Some(1_000_000))))
    );
}

#[test]
fn no_logs_means_nothing_to_read() {
    let mut indexer: RoundIndexer<String> = RoundIndexer::new(&config(2));
    index_round_factory(&mut indexer, Reply::Start).unwrap();
    assert_eq!(
        index_round_factory(&mut indexer, Reply::Logs(Vec::new())),
        Ok(Request::Done)
    );
    let found = indexer.finish();
    assert!(found.rounds.is_empty());
    assert!(found.events.is_empty());
    assert!(found.is_complete());
}

#[test]
fn the_indexer_refuses_to_run_without_capacity() {
    let mut indexer: RoundIndexer<String> = RoundIndexer::new(&config(0));
    assert_eq!(
        index_round_factory(&mut indexer, Reply::Start),
        Err(IndexingError::NoCapacity)
    );
    assert_eq!(indexer.phase, Phase::Finished);
}

#[test]
fn the_indexer_reports_a_malformed_log() {
    let mut indexer: RoundIndexer<String> = RoundIndexer::new(&config(2));
    index_round_factory(&mut indexer, Reply::Start).unwrap();
    let logs = vec![
        announcement(1, 100),
        RawLog {
            topics: vec![[0xaa; 32]],
            block_number: 101,
        },
    ];
    assert_eq!(
        index_round_factory(&mut indexer, Reply::Logs(logs)),
        Err(IndexingError::MalformedLog { position: 1 })
    );
    assert_eq!(indexer.phase, Phase::Finished);
}

#[test]
fn the_indexer_refuses_a_reply_that_does_not_fit() {
    let mut indexer: RoundIndexer<String> = RoundIndexer::new(&config(2));
    assert_eq!(
        index_round_factory(&mut indexer, Reply::Logs(Vec::new())),
        Err(IndexingError::Unexpected)
    );
    assert_eq!(indexer.phase, Phase::Finished);

    let mut indexer: RoundIndexer<String> = RoundIndexer::new(&config(2));
    index_round_factory(&mut indexer, Reply::Start).unwrap();
    index_round_factory(
        &mut indexer,
        Reply::Logs(vec![announcement(1, 100), announcement(2, 101)]),
    )
    .unwrap();
    assert_eq!(
        index_round_factory(&mut indexer, Reply::Rounds(vec![Ok(round_at(1))])),
        Err(IndexingError::Unexpected)
    );
    assert_eq!(indexer.phase, Phase::Finished);
    assert!(indexer.finish().rounds.is_empty());
}
