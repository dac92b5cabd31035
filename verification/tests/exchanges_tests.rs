use arbitrage_detector::decimal::Decimal;
use arbitrage_detector::exchanges::{
    backoff_delay, book_channel, endpoint, parse_deribit_levels, parse_okex_levels, Connector, ConnectorAction,
    ConnectorEvent, ConnectorPhase, HEARTBEAT_INTERVAL_SECS,
};
use arbitrage_detector::orderbook::{Exchange, OrderBookUpdate, OrderLevel};

fn number(mantissa: i128, scale: u32) -> Decimal {
    Decimal::new(mantissa, scale).unwrap()
}

fn one_level() -> Vec<OrderLevel> {
    vec![OrderLevel { price: number(15, 2), quantity: number(100, 0) }]
}

fn streaming(exchange: Exchange) -> Connector {
    let mut connector = Connector::new(exchange, "SYM".to_string());
    connector.step(ConnectorEvent::Connected, 0);
    connector.step(ConnectorEvent::SubscribeSent, 0);
    connector
}

#[test]
fn backoff_grows_by_five_seconds_up_to_twenty_five() {
    assert_eq!(backoff_delay(0, 0), 0);
    assert_eq!(backoff_delay(1, 0), 5);
    assert_eq!(backoff_delay(2, 0), 10);
    assert_eq!(backoff_delay(3, 0), 15);
    assert_eq!(backoff_delay(4, 0), 20);
    assert_eq!(backoff_delay(5, 0), 25);
    assert_eq!(backoff_delay(6, 0), 25);
    assert_eq!(backoff_delay(u32::MAX, 0), 25);
}

#[test]
fn jitter_is_the_random_number_modulo_five() {
    assert_eq!(backoff_delay(1, 4), 9);
    assert_eq!(backoff_delay(1, 5), 5);
    assert_eq!(backoff_delay(3, 7), 17);
    assert_eq!(backoff_delay(9, u64::MAX), 25 + (u64::MAX % 5));
}

#[test]
fn heartbeat_every_fifteen_seconds() {
    assert_eq!(HEARTBEAT_INTERVAL_SECS, 15);
}

#[test]
fn a_new_connector_connects() {
    let connector = Connector::new(Exchange::Okex, "BTC-USD-240427-56000-C".to_string());
    assert_eq!(connector.phase, ConnectorPhase::Connecting);
    assert_eq!(connector.attempt, 0);
    assert_eq!(connector.pending(), ConnectorAction::Connect);
    assert_eq!(connector.symbol, "BTC-USD-240427-56000-C");
    assert_eq!(connector.exchange, Exchange::Okex);
}

#[test]
fn connect_then_subscribe_then_stream() {
    let mut connector = Connector::new(Exchange::Deribit, "SYM".to_string());
    let step = connector.step(ConnectorEvent::Connected, 3);
    assert_eq!(step.next, ConnectorAction::Subscribe);
    assert!(step.emit.is_empty());
    assert_eq!(connector.phase, ConnectorPhase::Subscribing);
    let step = connector.step(ConnectorEvent::SubscribeSent, 3);
    assert_eq!(step.next, ConnectorAction::Stream);
    assert_eq!(connector.phase, ConnectorPhase::Streaming);
    let step = connector.step(ConnectorEvent::HeartbeatDue, 3);
    assert_eq!(step.next, ConnectorAction::Heartbeat);
    assert_eq!(connector.phase, ConnectorPhase::Streaming);
    let step = connector.step(ConnectorEvent::Unreadable, 3);
    assert_eq!(step.next, ConnectorAction::Stream);
    assert!(step.emit.is_empty());
}

#[test]
fn a_failed_connect_is_reported_and_waited_out() {
    let mut connector = Connector::new(Exchange::Okex, "SYM".to_string());
    let step = connector.step(ConnectorEvent::ConnectFailed { detail: "refused".to_string() }, 7);
    assert_eq!(step.next, ConnectorAction::Wait { seconds: 7 });
    assert_eq!(connector.attempt, 1);
    assert_eq!(connector.phase, ConnectorPhase::Waiting { seconds: 7 });
    assert_eq!(step.emit.len(), 1);
    match &step.emit[0] {
        OrderBookUpdate::ConnectionError { exchange, error } => {
            assert_eq!(*exchange, Exchange::Okex);
            assert_eq!(error, "Failed to connect: refused");
        }
        other => panic!("unexpected: {:?}", other),
    }
    let step = connector.step(ConnectorEvent::WaitOver, 0);
    assert_eq!(step.next, ConnectorAction::Connect);
    assert_eq!(connector.phase, ConnectorPhase::Connecting);
    assert_eq!(connector.attempt, 1);
}

#[test]
fn failures_in_a_row_wait_longer_until_the_cap() {
    let mut connector = Connector::new(Exchange::Okex, "SYM".to_string());
    let mut waits = Vec::new();
    for _ in 0..7 {
        let step =
            connector.step(ConnectorEvent::ConnectFailed { detail: "down".to_string() }, 0);
        match step.next {
            ConnectorAction::Wait { seconds } => waits.push(seconds),
            other => panic!("unexpected: {:?}", other),
        }
        connector.step(ConnectorEvent::WaitOver, 0);
    }
    assert_eq!(waits, vec![5, 10, 15, 20, 25, 25, 25]);
    assert_eq!(connector.attempt, 7);
}

#[test]
fn a_successful_connect_resets_the_count() {
    let mut connector = Connector::new(Exchange::Deribit, "SYM".to_string());
    for _ in 0..4 {
        connector.step(ConnectorEvent::ConnectFailed { detail: "down".to_string() }, 0);
        connector.step(ConnectorEvent::WaitOver, 0);
    }
    assert_eq!(connector.attempt, 4);
    connector.step(ConnectorEvent::Connected, 0);
    assert_eq!(connector.attempt, 0);
    connector.step(ConnectorEvent::SubscribeSent, 0);
    connector.step(
        ConnectorEvent::Frame { bids: one_level(), asks: Vec::new(), wire_entries: 1 },
        0,
    );
    assert_eq!(connector.attempt, 0);
    let step = connector.step(ConnectorEvent::StreamEnded, 2);
    assert_eq!(step.next, ConnectorAction::Wait { seconds: 7 });
    assert!(step.emit.is_empty());
    assert_eq!(connector.attempt, 1);
}

#[test]
fn a_failed_subscribe_reconnects_at_once() {
    let mut connector = Connector::new(Exchange::Okex, "SYM".to_string());
    connector.step(ConnectorEvent::Connected, 0);
    let step = connector.step(ConnectorEvent::SubscribeFailed, 0);
    assert_eq!(step.next, ConnectorAction::Connect);
    assert!(step.emit.is_empty());
    assert_eq!(connector.attempt, 0);
    assert_eq!(connector.phase, ConnectorPhase::Connecting);
}

#[test]
fn a_frame_gives_bids_then_asks() {
    let mut connector = streaming(Exchange::Deribit);
    let step = connector.step(
        ConnectorEvent::Frame { bids: one_level(), asks: Vec::new(), wire_entries: 1 },
        0,
    );
    assert_eq!(step.next, ConnectorAction::Stream);
    assert_eq!(step.emit.len(), 2);
    match &step.emit[0] {
        OrderBookUpdate::Bids { exchange, symbol, levels } => {
            assert_eq!(*exchange, Exchange::Deribit);
            assert_eq!(symbol, "SYM");
            assert_eq!(levels.len(), 1);
            assert_eq!(levels[0].price.mantissa(), 15);
        }
        other => panic!("unexpected: {:?}", other),
    }
    match &step.emit[1] {
        OrderBookUpdate::Asks { exchange, symbol, levels } => {
            assert_eq!(*exchange, Exchange::Deribit);
            assert_eq!(symbol, "SYM");
            assert!(levels.is_empty());
        }
        other => panic!("unexpected: {:?}", other),
    }
}

#[test]
fn only_the_first_venue_skips_empty_frames() {
    let mut okex = streaming(Exchange::Okex);
    let step =
        okex.step(ConnectorEvent::Frame { bids: Vec::new(), asks: Vec::new(), wire_entries: 0 }, 0);
    assert!(step.emit.is_empty());
    assert_eq!(step.next, ConnectorAction::Stream);
    let step =
        okex.step(ConnectorEvent::Frame { bids: Vec::new(), asks: Vec::new(), wire_entries: 2 }, 0);
    assert_eq!(step.emit.len(), 2);

    let mut deribit = streaming(Exchange::Deribit);
    let step = deribit
        .step(ConnectorEvent::Frame { bids: Vec::new(), asks: Vec::new(), wire_entries: 0 }, 0);
    assert_eq!(step.emit.len(), 2);
}

#[test]
fn a_close_is_reported_with_its_reason_or_a_default() {
    let mut connector = streaming(Exchange::Okex);
    let step = connector.step(ConnectorEvent::Closed { reason: Some("maintenance".to_string()) }, 1);
    assert_eq!(step.next, ConnectorAction::Wait { seconds: 6 });
    match &step.emit[0] {
        OrderBookUpdate::ConnectionError { exchange, error } => {
            assert_eq!(*exchange, Exchange::Okex);
            assert_eq!(error, "maintenance");
        }
        other => panic!("unexpected: {:?}", other),
    }

    let mut connector = streaming(Exchange::Deribit);
    let step = connector.step(ConnectorEvent::Closed { reason: None }, 0);
    match &step.emit[0] {
        OrderBookUpdate::ConnectionError { exchange, error } => {
            assert_eq!(*exchange, Exchange::Deribit);
            assert_eq!(error, "Connection closed by server");
        }
        other => panic!("unexpected: {:?}", other),
    }
}

#[test]
fn a_read_error_is_reported() {
    let mut connector = streaming(Exchange::Deribit);
    let step = connector.step(ConnectorEvent::ReadFailed { detail: "reset".to_string() }, 0);
    assert_eq!(step.next, ConnectorAction::Wait { seconds: 5 });
    match &step.emit[0] {
        OrderBookUpdate::ConnectionError { error, .. } => {
            assert_eq!(error, "Websocket error: reset")
        }
        other => panic!("unexpected: {:?}", other),
    }
}

#[test]
fn events_out_of_turn_change_nothing() {
    let mut connector = Connector::new(Exchange::Okex, "SYM".to_string());
    let step = connector.step(ConnectorEvent::HeartbeatDue, 0);
    assert_eq!(step.next, ConnectorAction::Connect);
    assert_eq!(connector.phase, ConnectorPhase::Connecting);
    let step = connector.step(ConnectorEvent::StreamEnded, 0);
    assert_eq!(step.next, ConnectorAction::Connect);
    assert_eq!(connector.attempt, 0);

    let mut connector = streaming(Exchange::Okex);
    let step = connector.step(ConnectorEvent::Connected, 0);
    assert_eq!(step.next, ConnectorAction::Stream);
    connector.step(ConnectorEvent::StreamEnded, 0);
    let step = connector.step(ConnectorEvent::HeartbeatDue, 0);
    assert_eq!(step.next, ConnectorAction::Wait { seconds: 5 });
}

#[test]
fn drawn_jitter_stays_below_five_seconds() {
    for _ in 0..50 {
        let mut connector = streaming(Exchange::Okex);
        let step = connector.on_event(ConnectorEvent::StreamEnded);
        match step.next {
            ConnectorAction::Wait { seconds } => assert!((5..10).contains(&seconds)),
            other => panic!("unexpected: {:?}", other),
        }
        assert_eq!(connector.attempt, 1);
    }
}

#[test]
fn entries_with_two_readable_fields_become_levels() {
    let levels = parse_okex_levels(vec![
        vec![Some(number(15, 2)), Some(number(100, 0)), None, Some(number(1, 0))],
        vec![Some(number(16, 2))],
        vec![None, Some(number(3, 0))],
        vec![Some(number(17, 2)), None],
        vec![],
        vec![Some(number(18, 2)), Some(number(0, 0))],
    ]);
    assert_eq!(levels.len(), 2);
    assert_eq!(levels[0].price.mantissa(), 15);
    assert_eq!(levels[0].quantity.mantissa(), 100);
    assert_eq!(levels[1].price.mantissa(), 18);
    assert!(levels[1].quantity.is_zero());
    assert!(parse_okex_levels(Vec::new()).is_empty());
}

#[test]
fn pairs_become_levels_in_order() {
    let levels = parse_deribit_levels(vec![
        (Some(number(2, 0)), Some(number(5, 0))),
        (None, Some(number(5, 0))),
        (Some(number(1, 0)), Some(number(6, 0))),
        (Some(number(1, 0)), None),
    ]);
    assert_eq!(levels.len(), 2);
    assert_eq!(levels[0].price.mantissa(), 2);
    assert_eq!(levels[1].price.mantissa(), 1);
    assert_eq!(levels[1].quantity.mantissa(), 6);
}

#[test]
fn endpoints_and_channel() {
    assert_eq!(endpoint(Exchange::Okex), "wss://ws.okx.com:8443/ws/v5/public");
    assert_eq!(endpoint(Exchange::Deribit), "wss://www.deribit.com/ws/api/v2");
    assert_eq!(book_channel("BTC-27APR24-56000-C"), "book.BTC-27APR24-56000-C.none.20.100ms");
}
