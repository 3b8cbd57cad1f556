use monitor_rust::{
    encode_request, parse, parse_rate, parse_u64, poll_step, process_cycle, Attribute, Block,
    Data, Event, FeedError, Log, PollAction, PollEvent, PollerState, Rate, Request, Supply, Tx,
};

fn vote_block(attr_value: &str) -> Block {
    Block {
        chain_id: "columbus-4".to_string(),
        chain_type: String::new(),
        data: Some(Data {
            txs: vec![Tx {
                height: "7".to_string(),
                logs: vec![Log {
                    events: vec![Event {
                        event_type: "aggregate_vote".to_string(),
                        attributes: vec![Attribute {
                            key: "exchange_rates".to_string(),
                            value: attr_value.to_string(),
                        }],
                    }],
                }],
            }],
            supply: vec![],
        }),
    }
}

#[test]
fn test_parse() {
    let bb = b"
        {
            \"chain_id\": \"1\",
            \"type\": \"2\"
        }";
    let ret = parse(bb);
    assert!(ret.is_ok());
    let t = ret.unwrap();
    assert_eq!(t.chain_id, "1");
    assert_eq!(t.chain_type, "2");
}

#[test]
fn parse_rejects_invalid_json() {
    let ret = parse(b"this is not json");
    assert!(matches!(ret, Err(FeedError::MalformedPayload)));
}

#[test]
fn parse_rejects_wrong_shape() {
    // valid JSON, but no chain_id member
    let ret = parse(b"{\"type\":\"2\"}");
    assert!(matches!(ret, Err(FeedError::MalformedPayload)));
    // chain_id must be a string
    let ret = parse(b"{\"chain_id\":5}");
    assert!(matches!(ret, Err(FeedError::MalformedPayload)));
}

#[test]
fn parse_data_null_means_no_data() {
    let b = parse(b"{\"chain_id\":\"1\",\"data\":null}").unwrap();
    assert!(b.data.is_none());
    let b = parse(b"{\"chain_id\":\"1\",\"unknown\":[1,2]}").unwrap();
    assert!(b.data.is_none());
}

#[test]
fn parse_full_message() {
    let raw = br#"{
        "chain_id": "columbus-4",
        "type": "new_block",
        "data": {
            "txs": [
                {
                    "height": "42",
                    "logs": [
                        {
                            "events": [
                                {
                                    "type": "aggregate_vote",
                                    "attributes": [
                                        {"key": "exchange_rates", "value": "1.23uusd"}
                                    ]
                                }
                            ]
                        }
                    ]
                }
            ],
            "supply": [
                {"denom": "uusd", "amount": "1000"}
            ]
        }
    }"#;
    let b = parse(raw).unwrap();
    assert_eq!(b.chain_id, "columbus-4");
    assert_eq!(b.chain_type, "new_block");
    let data = b.data.as_ref().unwrap();
    assert_eq!(data.txs.len(), 1);
    assert_eq!(data.txs[0].height, "42");
    assert_eq!(data.supply.len(), 1);
    let rates = b.get_exchange_rates().unwrap();
    assert_eq!(rates.get("uusd"), Some(Rate { mantissa: 123, scale: 2 }));
    let supply = b.get_supply().unwrap();
    assert_eq!(supply.get("uusd"), Some(1000));
}

#[test]
fn missing_data_fails_both() {
    let b = parse(b"{\"chain_id\":\"1\",\"type\":\"2\"}").unwrap();
    assert!(matches!(b.get_exchange_rates(), Err(FeedError::MissingData)));
    assert!(matches!(b.get_supply(), Err(FeedError::MissingData)));
}

#[test]
fn aggregate_vote_rates() {
    let b = vote_block("1.23uusd,4.56ukrw");
    let rates = b.get_exchange_rates().unwrap();
    assert_eq!(rates.len(), 3);
    assert_eq!(rates.get("uusd"), Some(Rate { mantissa: 123, scale: 2 }));
    assert_eq!(rates.get("ukrw"), Some(Rate { mantissa: 456, scale: 2 }));
    assert_eq!(rates.get("uluna"), Some(Rate { mantissa: 1, scale: 0 }));
}

#[test]
fn numeraire_always_present() {
    // uluna absent from the attribute: injected at rate one
    let b = vote_block("2.5ukrw");
    let rates = b.get_exchange_rates().unwrap();
    assert_eq!(rates.get("uluna"), Some(Rate { mantissa: 1, scale: 0 }));
    // uluna present with another rate: overwritten to exactly one
    let b = vote_block("3.0uluna");
    let rates = b.get_exchange_rates().unwrap();
    assert_eq!(rates.len(), 1);
    assert_eq!(rates.get("uluna"), Some(Rate { mantissa: 1, scale: 0 }));
}

#[test]
fn no_vote_event_yields_empty_set() {
    let b = Block {
        chain_id: "1".to_string(),
        chain_type: String::new(),
        data: Some(Data {
            txs: vec![Tx {
                height: "7".to_string(),
                logs: vec![Log {
                    events: vec![Event {
                        event_type: "transfer".to_string(),
                        attributes: vec![Attribute {
                            key: "exchange_rates".to_string(),
                            value: "1.0uusd".to_string(),
                        }],
                    }],
                }],
            }],
            supply: vec![],
        }),
    };
    let rates = b.get_exchange_rates().unwrap();
    assert_eq!(rates.len(), 0);
}

#[test]
fn first_matching_attribute_wins() {
    let b = Block {
        chain_id: "1".to_string(),
        chain_type: String::new(),
        data: Some(Data {
            txs: vec![Tx {
                height: "7".to_string(),
                logs: vec![Log {
                    events: vec![
                        // a vote event without the rate attribute does not
                        // settle the scan
                        Event {
                            event_type: "aggregate_vote".to_string(),
                            attributes: vec![],
                        },
                        Event {
                            event_type: "aggregate_vote".to_string(),
                            attributes: vec![Attribute {
                                key: "exchange_rates".to_string(),
                                value: "1.5uusd".to_string(),
                            }],
                        },
                        Event {
                            event_type: "aggregate_vote".to_string(),
                            attributes: vec![Attribute {
                                key: "exchange_rates".to_string(),
                                value: "9.9uusd".to_string(),
                            }],
                        },
                    ],
                }],
            }],
            supply: vec![],
        }),
    };
    let rates = b.get_exchange_rates().unwrap();
    assert_eq!(rates.get("uusd"), Some(Rate { mantissa: 15, scale: 1 }));
}

#[test]
fn malformed_rate_tokens_fail() {
    // a token without the separator
    assert!(matches!(
        vote_block("abc").get_exchange_rates(),
        Err(FeedError::MalformedPayload)
    ));
    // a token whose numeric prefix is not a decimal number
    assert!(matches!(
        vote_block("xuusd").get_exchange_rates(),
        Err(FeedError::MalformedPayload)
    ));
    // one bad token spoils the whole attribute
    assert!(matches!(
        vote_block("1.2uusd,,3.4ukrw").get_exchange_rates(),
        Err(FeedError::MalformedPayload)
    ));
}

#[test]
fn supply_extraction() {
    let b = Block {
        chain_id: "1".to_string(),
        chain_type: String::new(),
        data: Some(Data {
            txs: vec![],
            supply: vec![
                Supply { denom: "uusd".to_string(), amount: "1000".to_string() },
                Supply { denom: "uluna".to_string(), amount: "500".to_string() },
                // a later entry overwrites an earlier one
                Supply { denom: "uusd".to_string(), amount: "1500".to_string() },
            ],
        }),
    };
    let supply = b.get_supply().unwrap();
    assert_eq!(supply.len(), 2);
    assert_eq!(supply.get("uusd"), Some(1500));
    assert_eq!(supply.get("uluna"), Some(500));
}

#[test]
fn supply_malformed_amount_fails() {
    let mk = |amount: &str| Block {
        chain_id: "1".to_string(),
        chain_type: String::new(),
        data: Some(Data {
            txs: vec![],
            supply: vec![Supply { denom: "uusd".to_string(), amount: amount.to_string() }],
        }),
    };
    assert!(matches!(mk("12x").get_supply(), Err(FeedError::MalformedPayload)));
    assert!(matches!(mk("").get_supply(), Err(FeedError::MalformedPayload)));
    // one past u64::MAX
    assert!(matches!(
        mk("18446744073709551616").get_supply(),
        Err(FeedError::MalformedPayload)
    ));
    // u64::MAX itself is fine
    assert_eq!(
        mk("18446744073709551615").get_supply().unwrap().get("uusd"),
        Some(u64::MAX)
    );
}

#[test]
fn encode_request_exact() {
    let req = Request::new("new_block", "columbus-4");
    let txt = encode_request(req).unwrap();
    assert_eq!(txt, "{\"subscribe\":\"new_block\",\"chain_id\":\"columbus-4\"}");
}

#[test]
fn encode_request_escapes() {
    let req = Request::new("a\"b\\c", "x\ny");
    let txt = encode_request(req).unwrap();
    assert_eq!(txt, "{\"subscribe\":\"a\\\"b\\\\c\",\"chain_id\":\"x\\u000ay\"}");
}

#[test]
fn poll_step_stop_always_wins() {
    for state in [PollerState::Polling, PollerState::RetryingRead, PollerState::Stopped] {
        let (next, action) = poll_step(state, PollEvent::StopReceived);
        assert_eq!(next, PollerState::Stopped);
        assert_eq!(action, PollAction::CloseConnection);
    }
}

#[test]
fn poll_step_transitions() {
    assert_eq!(
        poll_step(PollerState::Polling, PollEvent::TimerElapsed),
        (PollerState::Polling, PollAction::SendRequestAndRead)
    );
    assert_eq!(
        poll_step(PollerState::Polling, PollEvent::ReadFailed),
        (PollerState::RetryingRead, PollAction::ReadAgain)
    );
    assert_eq!(
        poll_step(PollerState::RetryingRead, PollEvent::TimerElapsed),
        (PollerState::RetryingRead, PollAction::ReadAgain)
    );
    assert_eq!(
        poll_step(PollerState::RetryingRead, PollEvent::ReadFailed),
        (PollerState::RetryingRead, PollAction::ReadAgain)
    );
    assert_eq!(
        poll_step(PollerState::RetryingRead, PollEvent::MessageReceived),
        (PollerState::Polling, PollAction::ProcessMessage)
    );
    // once stopped, the loop stays stopped
    assert_eq!(
        poll_step(PollerState::Stopped, PollEvent::MessageReceived),
        (PollerState::Stopped, PollAction::CloseConnection)
    );
}

#[test]
fn process_cycle_tolerates_bad_blocks() {
    let (rates, supply) = process_cycle(parse(b"not json"));
    assert_eq!(rates.len(), 0);
    assert_eq!(supply.len(), 0);
    let (rates, supply) = process_cycle(parse(b"{\"chain_id\":\"1\"}"));
    assert_eq!(rates.len(), 0);
    assert_eq!(supply.len(), 0);
}

#[test]
fn process_cycle_extracts_both_maps() {
    let raw = br#"{
        "chain_id": "columbus-4",
        "data": {
            "txs": [
                {"height": "1", "logs": [{"events": [{
                    "type": "aggregate_vote",
                    "attributes": [{"key": "exchange_rates", "value": "1.23uusd"}]
                }]}]}
            ],
            "supply": [{"denom": "uusd", "amount": "1000"}]
        }
    }"#;
    let (rates, supply) = process_cycle(parse(raw));
    assert_eq!(rates.get("uusd"), Some(Rate { mantissa: 123, scale: 2 }));
    assert_eq!(rates.get("uluna"), Some(Rate { mantissa: 1, scale: 0 }));
    assert_eq!(supply.get("uusd"), Some(1000));
    assert_eq!(supply.len(), 1);
}

#[test]
fn decimal_parsers() {
    assert_eq!(parse_u64("0"), Some(0));
    assert_eq!(parse_u64("1000"), Some(1000));
    assert_eq!(parse_u64(""), None);
    assert_eq!(parse_u64("+5"), None);
    assert_eq!(parse_u64("18446744073709551615"), Some(u64::MAX));
    assert_eq!(parse_u64("18446744073709551616"), None);
    assert_eq!(parse_rate("1.23"), Some(Rate { mantissa: 123, scale: 2 }));
    assert_eq!(parse_rate("4"), Some(Rate { mantissa: 4, scale: 0 }));
    assert_eq!(parse_rate("1."), None);
    assert_eq!(parse_rate(".5"), None);
    assert_eq!(parse_rate("1.2.3"), None);
    assert_eq!(parse_rate("1e5"), None);
    assert_eq!(parse_rate("-1"), None);
}
