//! The coordinator: the one consumer of the connectors' updates. It keeps one
//! book for each venue, applies each update, looks for an opportunity after
//! each, and passes on the ones that were not reported just before.

use crate::decimal::Decimal;
use crate::orderbook::{
    apply_levels, detection, lemma_empty_side, ArbitrageDetector, ArbitrageOpportunity, Detection, Exchange,
    OrderBook, OrderBookUpdate, OrderBookUpdateView, OrderLevel,
};
use vstd::prelude::*;

verus! {

/// The books and the mark of the last report.
#[derive(Debug)]
pub struct Coordinator {
    okex: Option<OrderBook>,
    deribit: Option<OrderBook>,
    last_reported: Option<(String, Decimal)>,
}

/// What one update leads to.
#[derive(Debug)]
pub struct Outcome {
    /// A connection error to show to the operator.
    pub connection_error: Option<(Exchange, String)>,
    /// An opportunity to report.
    pub report: Option<ArbitrageOpportunity>,
}

/// The other venue.
pub open spec fn other_exchange(exchange: Exchange) -> Exchange {
    match exchange {
        Exchange::Okex => Exchange::Deribit,
        Exchange::Deribit => Exchange::Okex,
    }
}

/// `after` is the venue's book with the levels applied to its bids. Where the
/// venue had no book yet, it starts empty, under the update's symbol.
pub open spec fn bids_applied(
    before: Option<OrderBook>,
    after: OrderBook,
    exchange: Exchange,
    symbol: Seq<char>,
    levels: Seq<OrderLevel>,
) -> bool {
    match before {
        Some(book) => {
            &&& after.bid_map() == apply_levels(book.bid_map(), levels)
            &&& after.ask_levels() == book.ask_levels()
            &&& after.symbol() == book.symbol()
            &&& after.exchange() == book.exchange()
        },
        None => {
            &&& after.bid_map() == apply_levels(Map::empty(), levels)
            &&& after.ask_levels() == Seq::<OrderLevel>::empty()
            &&& after.symbol()@ == symbol
            &&& after.exchange() == exchange
        },
    }
}

/// `after` is the venue's book with the levels applied to its asks.
pub open spec fn asks_applied(
    before: Option<OrderBook>,
    after: OrderBook,
    exchange: Exchange,
    symbol: Seq<char>,
    levels: Seq<OrderLevel>,
) -> bool {
    match before {
        Some(book) => {
            &&& after.ask_map() == apply_levels(book.ask_map(), levels)
            &&& after.bid_levels() == book.bid_levels()
            &&& after.symbol() == book.symbol()
            &&& after.exchange() == book.exchange()
        },
        None => {
            &&& after.ask_map() == apply_levels(Map::empty(), levels)
            &&& after.bid_levels() == Seq::<OrderLevel>::empty()
            &&& after.symbol()@ == symbol
            &&& after.exchange() == exchange
        },
    }
}

/// What is found between the two books once both exist: the first venue's
/// book is the one tried first as the book to sell on.
pub open spec fn found_between(okex: Option<OrderBook>, deribit: Option<OrderBook>) -> Option<
    Detection,
> {
    match (okex, deribit) {
        (Some(a), Some(b)) => detection(a, b),
        _ => None,
    }
}

/// The symbol or the total profit differs from the last report, or nothing
/// was reported yet. Legs and direction are not looked at.
pub open spec fn is_news(found: Detection, last: Option<(Seq<char>, Decimal)>) -> bool {
    match last {
        Some((symbol, profit)) => symbol != found.symbol || profit.value()
            != found.matched.total_profit.value(),
        None => true,
    }
}

impl Coordinator {
    /// The book of a venue, once an update for it has come.
    pub closed spec fn book(&self, exchange: Exchange) -> Option<OrderBook> {
        match exchange {
            Exchange::Okex => self.okex,
            Exchange::Deribit => self.deribit,
        }
    }

    /// Symbol and total profit of the last opportunity that was reported.
    pub closed spec fn last_reported(&self) -> Option<(Seq<char>, Decimal)> {
        match self.last_reported {
            Some((symbol, profit)) => Some((symbol@, profit)),
            None => None,
        }
    }

    /// The books are as the update leaves them.
    pub open spec fn books_follow(&self, before: Coordinator, update: OrderBookUpdateView) -> bool {
        match update {
            OrderBookUpdateView::Bids { exchange, symbol, levels } => {
                &&& self.book(exchange) matches Some(after) && bids_applied(
                    before.book(exchange),
                    after,
                    exchange,
                    symbol,
                    levels,
                )
                &&& self.book(other_exchange(exchange)) == before.book(other_exchange(exchange))
            },
            OrderBookUpdateView::Asks { exchange, symbol, levels } => {
                &&& self.book(exchange) matches Some(after) && asks_applied(
                    before.book(exchange),
                    after,
                    exchange,
                    symbol,
                    levels,
                )
                &&& self.book(other_exchange(exchange)) == before.book(other_exchange(exchange))
            },
            OrderBookUpdateView::ConnectionError { exchange, error } => {
                &&& self.book(Exchange::Okex) == before.book(Exchange::Okex)
                &&& self.book(Exchange::Deribit) == before.book(Exchange::Deribit)
            },
        }
    }

    /// The report is what was found between the books, if it is news; the mark
    /// of the last report follows it.
    pub open spec fn report_follows(
        &self,
        before: Coordinator,
        report: Option<ArbitrageOpportunity>,
    ) -> bool {
        match found_between(self.book(Exchange::Okex), self.book(Exchange::Deribit)) {
            Some(found) => if is_news(found, before.last_reported()) {
                &&& report matches Some(o) && o.describes(
                    found.matched,
                    found.symbol,
                    found.buy_exchange,
                    found.sell_exchange,
                ) && o.valid()
                &&& self.last_reported() == Some((found.symbol, found.matched.total_profit))
            } else {
                &&& report is None
                &&& self.last_reported() == before.last_reported()
            },
            None => {
                &&& report is None
                &&& self.last_reported() == before.last_reported()
            },
        }
    }

    /// A coordinator with no book and no report yet.
    pub fn new() -> (coordinator: Coordinator)
        ensures
            coordinator.book(Exchange::Okex) is None,
            coordinator.book(Exchange::Deribit) is None,
            coordinator.last_reported() is None,
    {
        Coordinator { okex: None, deribit: None, last_reported: None }
    }

    /// The book of a venue, once an update for it has come.
    pub fn book_of(&self, exchange: Exchange) -> (r: Option<&OrderBook>)
        ensures
            match r {
                Some(book) => self.book(exchange) == Some(*book),
                None => self.book(exchange) is None,
            },
    {
        match exchange {
            Exchange::Okex => self.okex.as_ref(),
            Exchange::Deribit => self.deribit.as_ref(),
        }
    }

    /// Takes one update: applies levels to the venue's book, which is made if
    /// this is the venue's first update; passes a connection error on; then
    /// looks for an opportunity, whatever the update was.
    pub fn handle(&mut self, update: OrderBookUpdate) -> (outcome: Outcome)
        ensures
            final(self).books_follow(*old(self), update@),
            final(self).report_follows(*old(self), outcome.report),
            match update@ {
                OrderBookUpdateView::ConnectionError { exchange, error } => outcome.connection_error
                    matches Some((e, text)) && e == exchange && text@ == error,
                _ => outcome.connection_error is None,
            },
    {
        let mut connection_error: Option<(Exchange, String)> = None;
        proof {
            lemma_empty_side();
        }
        match update {
            OrderBookUpdate::Bids { exchange, symbol, levels } => {
                let mut book = self.take_book(exchange, symbol);
                book.update_bids(levels);
                self.put_book(exchange, book);
            },
            OrderBookUpdate::Asks { exchange, symbol, levels } => {
                let mut book = self.take_book(exchange, symbol);
                book.update_asks(levels);
                self.put_book(exchange, book);
            },
            OrderBookUpdate::ConnectionError { exchange, error } => {
                connection_error = Some((exchange, error));
            },
        }
        let report = self.detect_news();
        Outcome { connection_error, report }
    }

    /// Takes the venue's book out, or makes an empty one under `symbol`.
    fn take_book(&mut self, exchange: Exchange, symbol: String) -> (book: OrderBook)
        ensures
            match old(self).book(exchange) {
                Some(before) => book == before,
                None => {
                    &&& book.bid_levels() == Seq::<OrderLevel>::empty()
                    &&& book.ask_levels() == Seq::<OrderLevel>::empty()
                    &&& book.symbol()@ == symbol@
                    &&& book.exchange() == exchange
                },
            },
            final(self).book(other_exchange(exchange)) == old(self).book(other_exchange(exchange)),
            final(self).last_reported() == old(self).last_reported(),
    {
        let taken = match exchange {
            Exchange::Okex => self.okex.take(),
            Exchange::Deribit => self.deribit.take(),
        };
        match taken {
            Some(book) => book,
            None => OrderBook::new(symbol, exchange),
        }
    }

    fn put_book(&mut self, exchange: Exchange, book: OrderBook)
        ensures
            final(self).book(exchange) == Some(book),
            final(self).book(other_exchange(exchange)) == old(self).book(other_exchange(exchange)),
            final(self).last_reported() == old(self).last_reported(),
    {
        match exchange {
            Exchange::Okex => {
                self.okex = Some(book);
            },
            Exchange::Deribit => {
                self.deribit = Some(book);
            },
        }
    }

    /// Looks for an opportunity between the two books and keeps it if it is
    /// news.
    fn detect_news(&mut self) -> (report: Option<ArbitrageOpportunity>)
        ensures
            final(self).book(Exchange::Okex) == old(self).book(Exchange::Okex),
            final(self).book(Exchange::Deribit) == old(self).book(Exchange::Deribit),
            final(self).report_follows(*old(self), report),
    {
        let found = match (&self.okex, &self.deribit) {
            (Some(okex), Some(deribit)) => ArbitrageDetector::detect_arbitrage(okex, deribit),
            _ => None,
        };
        match found {
            Some(opportunity) => {
                let news = match &self.last_reported {
                    Some((symbol, profit)) => !(*symbol == opportunity.symbol)
                        || !profit.same_value(&opportunity.total_profit),
                    None => true,
                };
                if news {
                    self.last_reported = Some(
                        (opportunity.symbol.clone(), opportunity.total_profit),
                    );
                    Some(opportunity)
                } else {
                    None
                }
            },
            None => None,
        }
    }
}

} // verus!
