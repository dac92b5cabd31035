use arbitrage_detector::coordinator::Coordinator;
use arbitrage_detector::decimal::Decimal;
use arbitrage_detector::orderbook::{Exchange, OrderBookUpdate, OrderLevel};

fn level(price: i128, quantity: i128) -> OrderLevel {
    OrderLevel {
        price: Decimal::new(price, 3).unwrap(),
        quantity: Decimal::new(quantity, 0).unwrap(),
    }
}

fn bids(exchange: Exchange, symbol: &str, levels: Vec<OrderLevel>) -> OrderBookUpdate {
    OrderBookUpdate::Bids { exchange, symbol: symbol.to_string(), levels }
}

fn asks(exchange: Exchange, symbol: &str, levels: Vec<OrderLevel>) -> OrderBookUpdate {
    OrderBookUpdate::Asks { exchange, symbol: symbol.to_string(), levels }
}

#[test]
fn books_are_made_on_the_first_update_of_a_venue() {
    let mut coordinator = Coordinator::new();
    assert!(coordinator.book_of(Exchange::Okex).is_none());
    assert!(coordinator.book_of(Exchange::Deribit).is_none());

    let outcome = coordinator.handle(bids(Exchange::Okex, "FIRST", vec![level(150, 100)]));
    assert!(outcome.report.is_none());
    assert!(outcome.connection_error.is_none());
    assert!(coordinator.book_of(Exchange::Deribit).is_none());
    let book = coordinator.book_of(Exchange::Okex).unwrap();
    assert_eq!(book.symbol(), "FIRST");
    assert_eq!(book.exchange(), Exchange::Okex);
    assert_eq!(book.bids().len(), 1);

    coordinator.handle(asks(Exchange::Okex, "SECOND", vec![level(160, 1)]));
    let book = coordinator.book_of(Exchange::Okex).unwrap();
    assert_eq!(book.symbol(), "FIRST");
    assert_eq!(book.bids().len(), 1);
    assert_eq!(book.asks().len(), 1);
}

#[test]
fn an_opportunity_is_reported_once() {
    let mut coordinator = Coordinator::new();
    assert!(coordinator
        .handle(bids(Exchange::Okex, "OK", vec![level(150, 100)]))
        .report
        .is_none());
    let outcome = coordinator.handle(asks(Exchange::Deribit, "DE", vec![level(140, 100)]));
    let report = outcome.report.unwrap();
    assert_eq!(report.symbol, "OK");
    assert_eq!(report.sell_exchange, Exchange::Okex);
    assert_eq!(report.buy_exchange, Exchange::Deribit);
    assert_eq!(report.trades.len(), 1);
    assert!(report.total_profit.same_value(&Decimal::new(1, 0).unwrap()));

    let again = coordinator.handle(asks(Exchange::Deribit, "DE", vec![level(140, 100)]));
    assert!(again.report.is_none());

    let changed = coordinator.handle(asks(Exchange::Deribit, "DE", vec![level(140, 50)]));
    let report = changed.report.unwrap();
    assert!(report.total_profit.same_value(&Decimal::new(5, 1).unwrap()));
}

#[test]
fn equal_total_profit_is_no_news_whatever_the_legs() {
    let mut coordinator = Coordinator::new();
    coordinator.handle(bids(Exchange::Okex, "OK", vec![level(150, 100)]));
    assert!(coordinator
        .handle(asks(Exchange::Deribit, "DE", vec![level(140, 100)]))
        .report
        .is_some());
    let outcome = coordinator.handle(asks(
        Exchange::Deribit,
        "DE",
        vec![level(140, 0), level(130, 50)],
    ));
    assert!(outcome.report.is_none());
}

#[test]
fn a_connection_error_is_passed_on_and_changes_no_book() {
    let mut coordinator = Coordinator::new();
    coordinator.handle(bids(Exchange::Deribit, "DE", vec![level(150, 100)]));
    let outcome = coordinator.handle(OrderBookUpdate::ConnectionError {
        exchange: Exchange::Okex,
        error: "Failed to connect: refused".to_string(),
    });
    assert_eq!(
        outcome.connection_error,
        Some((Exchange::Okex, "Failed to connect: refused".to_string()))
    );
    assert!(outcome.report.is_none());
    assert!(coordinator.book_of(Exchange::Okex).is_none());
    assert_eq!(coordinator.book_of(Exchange::Deribit).unwrap().bids().len(), 1);
}

#[test]
fn detection_runs_after_every_update() {
    let mut coordinator = Coordinator::new();
    coordinator.handle(bids(Exchange::Deribit, "DE", vec![level(150, 10)]));
    let outcome = coordinator.handle(asks(Exchange::Okex, "OK", vec![level(100, 10)]));
    let report = outcome.report.unwrap();
    assert_eq!(report.symbol, "DE");
    assert_eq!(report.sell_exchange, Exchange::Deribit);
    assert_eq!(report.buy_exchange, Exchange::Okex);

    let outcome = coordinator.handle(bids(Exchange::Deribit, "DE", vec![level(150, 0)]));
    assert!(outcome.report.is_none());
    let outcome = coordinator.handle(bids(Exchange::Deribit, "DE", vec![level(150, 10)]));
    assert!(outcome.report.is_none());
    let outcome = coordinator.handle(bids(Exchange::Deribit, "DE", vec![level(150, 20)]));
    assert!(outcome.report.is_none());
    let outcome = coordinator.handle(asks(Exchange::Okex, "OK", vec![level(100, 20)]));
    let report = outcome.report.unwrap();
    assert!(report.total_profit.same_value(&Decimal::new(1, 0).unwrap()));
}
