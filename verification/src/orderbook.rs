//! The order book of one venue: two sides of price levels, each kept in rising
//! order of price, and the updates that change them.

use crate::decimal::Decimal;
use crate::text::{number_string, number_text};
use vstd::prelude::*;
use vstd::string::*;

verus! {

/// A venue that publishes an order book.
#[derive(Debug, Clone, Copy, PartialEq, Eq, Hash, Structural)]
pub enum Exchange {
    Okex,
    Deribit,
}

impl Exchange {
    /// The venue's name as it is shown to an operator.
    pub open spec fn name_text(self) -> Seq<char> {
        match self {
            Exchange::Okex => "Okex"@,
            Exchange::Deribit => "Deribit"@,
        }
    }

    /// The venue's name as it is shown to an operator.
    pub fn name(&self) -> (r: &'static str)
        ensures
            r@ == self.name_text(),
    {
        match self {
            Exchange::Okex => "Okex",
            Exchange::Deribit => "Deribit",
        }
    }
}

/// Resting size at one price. A quantity of zero asks for the price to be
/// removed; it never rests in a book.
#[derive(Debug, Clone, Copy)]
pub struct OrderLevel {
    pub price: Decimal,
    pub quantity: Decimal,
}

/// What a venue's connector hands to the coordinator.
#[derive(Debug, Clone)]
pub enum OrderBookUpdate {
    Bids { exchange: Exchange, symbol: String, levels: Vec<OrderLevel> },
    Asks { exchange: Exchange, symbol: String, levels: Vec<OrderLevel> },
    ConnectionError { exchange: Exchange, error: String },
}

/// An [`OrderBookUpdate`] with its text and levels as sequences.
pub enum OrderBookUpdateView {
    Bids { exchange: Exchange, symbol: Seq<char>, levels: Seq<OrderLevel> },
    Asks { exchange: Exchange, symbol: Seq<char>, levels: Seq<OrderLevel> },
    ConnectionError { exchange: Exchange, error: Seq<char> },
}

impl View for OrderBookUpdate {
    type V = OrderBookUpdateView;

    open spec fn view(&self) -> OrderBookUpdateView {
        match self {
            OrderBookUpdate::Bids { exchange, symbol, levels } => OrderBookUpdateView::Bids {
                exchange: *exchange,
                symbol: symbol@,
                levels: levels@,
            },
            OrderBookUpdate::Asks { exchange, symbol, levels } => OrderBookUpdateView::Asks {
                exchange: *exchange,
                symbol: symbol@,
                levels: levels@,
            },
            OrderBookUpdate::ConnectionError { exchange, error } => OrderBookUpdateView::ConnectionError {
                exchange: *exchange,
                error: error@,
            },
        }
    }
}

/// The price of the level at index `i`, as an exact value.
pub open spec fn price_at(levels: Seq<OrderLevel>, i: int) -> int {
    levels[i].price.value()
}

/// Prices rise strictly along the sequence, so no price occurs twice.
pub open spec fn rising(levels: Seq<OrderLevel>) -> bool {
    forall|i: int, j: int|
        0 <= i < j < levels.len() ==> #[trigger] price_at(levels, i) < #[trigger] price_at(
            levels,
            j,
        )
}

/// No level has quantity zero.
pub open spec fn resting(levels: Seq<OrderLevel>) -> bool {
    forall|i: int| 0 <= i < levels.len() ==> !(#[trigger] levels[i]).quantity.is_zero()
}

/// One side of a book as a map from price to level.
pub open spec fn level_map(levels: Seq<OrderLevel>) -> Map<int, OrderLevel> {
    Map::new(
        |k: int| exists|i: int| 0 <= i < levels.len() && #[trigger] price_at(levels, i) == k,
        |k: int|
            levels[choose|i: int| 0 <= i < levels.len() && #[trigger] price_at(levels, i) == k],
    )
}

/// One level applied to a side: quantity zero removes the price, any other
/// quantity replaces what rested there.
pub open spec fn apply_level(side: Map<int, OrderLevel>, level: OrderLevel) -> Map<
    int,
    OrderLevel,
> {
    if level.quantity.is_zero() {
        side.remove(level.price.value())
    } else {
        side.insert(level.price.value(), level)
    }
}

/// The levels applied in order, first to last.
pub open spec fn apply_levels(side: Map<int, OrderLevel>, levels: Seq<OrderLevel>) -> Map<
    int,
    OrderLevel,
>
    decreases levels.len(),
{
    if levels.len() == 0 {
        side
    } else {
        apply_level(apply_levels(side, levels.drop_last()), levels.last())
    }
}

/// The last of the levels that names the price `k`, if any does.
pub open spec fn last_update(levels: Seq<OrderLevel>, k: int) -> Option<OrderLevel>
    decreases levels.len(),
{
    if levels.len() == 0 {
        None
    } else if levels.last().price.value() == k {
        Some(levels.last())
    } else {
        last_update(levels.drop_last(), k)
    }
}

/// After any run of updates, what rests at a price is decided by the last
/// update that named it: the price is present exactly when that update's
/// quantity was not zero, and then holds that level. A price that no update
/// named is as it was before.
pub proof fn lemma_last_update_decides(
    side: Map<int, OrderLevel>,
    levels: Seq<OrderLevel>,
    k: int,
)
    ensures
        match last_update(levels, k) {
            Some(level) => {
                &&& apply_levels(side, levels).contains_key(k) <==> !level.quantity.is_zero()
                &&& apply_levels(side, levels).contains_key(k) ==> apply_levels(side, levels)[k]
                    == level
            },
            None => {
                &&& apply_levels(side, levels).contains_key(k) <==> side.contains_key(k)
                &&& side.contains_key(k) ==> apply_levels(side, levels)[k] == side[k]
            },
        },
    decreases levels.len(),
{
    if levels.len() > 0 {
        lemma_last_update_decides(side, levels.drop_last(), k);
    }
}

/// Where no update carries a quantity below zero, a price is present after a
/// run of updates exactly when the last update that named it carried a
/// quantity above zero.
pub proof fn lemma_present_iff_last_positive(
    side: Map<int, OrderLevel>,
    levels: Seq<OrderLevel>,
    k: int,
)
    requires
        forall|i: int| 0 <= i < levels.len() ==> (#[trigger] levels[i]).quantity.value() >= 0,
        last_update(levels, k) is Some,
    ensures
        apply_levels(side, levels).contains_key(k) <==> last_update(
            levels,
            k,
        )->0.quantity.is_positive(),
{
    lemma_last_update_decides(side, levels, k);
    lemma_last_update_is_one_of(levels, k);
    crate::decimal::lemma_value_sign(last_update(levels, k)->0.quantity);
}

/// The last update for a price is one of the updates.
pub proof fn lemma_last_update_is_one_of(levels: Seq<OrderLevel>, k: int)
    ensures
        last_update(levels, k) matches Some(level) ==> exists|i: int|
            0 <= i < levels.len() && #[trigger] levels[i] == level,
    decreases levels.len(),
{
    if levels.len() > 0 {
        if levels.last().price.value() == k {
            assert(levels[levels.len() - 1] == levels.last());
        } else {
            lemma_last_update_is_one_of(levels.drop_last(), k);
            if last_update(levels, k) is Some {
                let level = last_update(levels, k)->0;
                let i = choose|i: int|
                    0 <= i < levels.drop_last().len() && #[trigger] levels.drop_last()[i] == level;
                assert(levels[i] == level);
            }
        }
    }
}

/// An update with quantity zero leaves its price absent, whatever was there.
pub proof fn lemma_zero_removes(side: Map<int, OrderLevel>, level: OrderLevel)
    requires
        level.quantity.is_zero(),
    ensures
        !apply_level(side, level).contains_key(level.price.value()),
{
}

/// A side without levels is the empty map.
pub proof fn lemma_empty_side()
    ensures
        level_map(Seq::<OrderLevel>::empty()) == Map::<int, OrderLevel>::empty(),
{
    assert(level_map(Seq::<OrderLevel>::empty()) =~= Map::<int, OrderLevel>::empty());
}

/// In a rising sequence each level is what the map holds at its price.
pub proof fn lemma_level_map_of_rising(levels: Seq<OrderLevel>)
    requires
        rising(levels),
    ensures
        forall|i: int|
            0 <= i < levels.len() ==> level_map(levels).contains_key(
                #[trigger] price_at(levels, i),
            ) && level_map(levels)[price_at(levels, i)] == levels[i],
        forall|k: int| #[trigger]
            level_map(levels).contains_key(k) ==> exists|i: int|
                0 <= i < levels.len() && #[trigger] price_at(levels, i) == k,
{
    assert forall|i: int| 0 <= i < levels.len() implies level_map(levels).contains_key(
        #[trigger] price_at(levels, i),
    ) && level_map(levels)[price_at(levels, i)] == levels[i] by {
        let k = price_at(levels, i);
        let c = choose|c: int| 0 <= c < levels.len() && #[trigger] price_at(levels, c) == k;
        if c < i {
            assert(price_at(levels, c) < price_at(levels, i));
        } else if i < c {
            assert(price_at(levels, i) < price_at(levels, c));
        }
    }
}

/// Puts one level into a rising side.
fn upsert(levels: &mut Vec<OrderLevel>, level: OrderLevel)
    requires
        rising(old(levels)@),
        resting(old(levels)@),
    ensures
        rising(final(levels)@),
        resting(final(levels)@),
        level_map(final(levels)@) == apply_level(level_map(old(levels)@), level),
{
    let ghost before = levels@;
    let ghost p = level.price.value();
    let mut i: usize = 0;
    while i < levels.len() && levels[i].price.lt(&level.price)
        invariant
            i <= levels.len(),
            levels@ == before,
            p == level.price.value(),
            forall|j: int| 0 <= j < i ==> #[trigger] price_at(before, j) < p,
        decreases levels.len() - i,
    {
        i += 1;
    }
    let found = i < levels.len() && !level.price.lt(&levels[i].price);
    proof {
        lemma_level_map_of_rising(before);
        if i < before.len() {
            assert(price_at(before, i as int) >= p);
            assert forall|j: int| i < j < before.len() implies #[trigger] price_at(before, j)
                > p by {
                assert(price_at(before, i as int) < price_at(before, j));
            }
        }
    }
    if level.quantity.is_zero() {
        if found {
            levels.remove(i);
            proof {
                let after = levels@;
                assert forall|a: int, b: int| 0 <= a < b < after.len() implies #[trigger] price_at(
                    after,
                    a,
                ) < #[trigger] price_at(after, b) by {
                    let a0 = if a < i { a } else { a + 1 };
                    let b0 = if b < i { b } else { b + 1 };
                    assert(price_at(after, a) == price_at(before, a0));
                    assert(price_at(after, b) == price_at(before, b0));
                }
                assert forall|a: int| 0 <= a < after.len() implies !(#[trigger] after[a]).quantity.is_zero() by {
                    let a0 = if a < i { a } else { a + 1 };
                    assert(after[a] == before[a0]);
                }
                lemma_level_map_of_rising(after);
                let want = level_map(before).remove(p);
                assert forall|k: int| #[trigger] level_map(after).contains_key(k) implies want.contains_key(
                    k,
                ) && want[k] == level_map(after)[k] by {
                    let a = choose|a: int| 0 <= a < after.len() && #[trigger] price_at(after, a) == k;
                    let a0 = if a < i { a } else { a + 1 };
                    assert(price_at(after, a) == price_at(before, a0));
                    assert(after[a] == before[a0]);
                    if a0 < i {
                        assert(price_at(before, a0) < p);
                    } else {
                        assert(price_at(before, a0) > p);
                    }
                }
                assert forall|k: int| #[trigger] want.contains_key(k) implies level_map(after).contains_key(
                    k,
                ) by {
                    let a0 = choose|a0: int|
                        0 <= a0 < before.len() && #[trigger] price_at(before, a0) == k;
                    let a = if a0 < i { a0 } else { a0 - 1 };
                    assert(a0 != i);
                    assert(price_at(after, a) == price_at(before, a0));
                }
                assert(level_map(after) =~= want);
            }
        } else {
            proof {
                assert(!level_map(before).contains_key(p)) by {
                    if level_map(before).contains_key(p) {
                        let a = choose|a: int|
                            0 <= a < before.len() && #[trigger] price_at(before, a) == p;
                        if a < i {
                            assert(price_at(before, a) < p);
                        } else if a > i {
                            assert(price_at(before, a) > p);
                        }
                    }
                }
                assert(level_map(before) =~= level_map(before).remove(p));
            }
        }
    } else if found {
        levels.set(i, level);
        proof {
            let after = levels@;
            assert forall|a: int, b: int| 0 <= a < b < after.len() implies #[trigger] price_at(
                after,
                a,
            ) < #[trigger] price_at(after, b) by {
                assert(price_at(after, a) == price_at(before, a));
                assert(price_at(after, b) == price_at(before, b));
            }
            assert forall|a: int| 0 <= a < after.len() implies !(#[trigger] after[a]).quantity.is_zero() by {
                if a != i {
                    assert(after[a] == before[a]);
                }
            }
            lemma_level_map_of_rising(after);
            let want = level_map(before).insert(p, level);
            assert forall|k: int| #[trigger] level_map(after).contains_key(k) implies want.contains_key(k)
                && want[k] == level_map(after)[k] by {
                let a = choose|a: int| 0 <= a < after.len() && #[trigger] price_at(after, a) == k;
                assert(price_at(after, a) == price_at(before, a));
                if a != i {
                    assert(after[a] == before[a]);
                    assert(k != p) by {
                        if a < i {
                            assert(price_at(before, a) < p);
                        } else {
                            assert(price_at(before, a) > p);
                        }
                    }
                }
            }
            assert forall|k: int| #[trigger] want.contains_key(k) implies level_map(after).contains_key(
                k,
            ) by {
                if k == p {
                    assert(price_at(after, i as int) == p);
                } else {
                    let a = choose|a: int|
                        0 <= a < before.len() && #[trigger] price_at(before, a) == k;
                    assert(price_at(after, a) == price_at(before, a));
                }
            }
            assert(level_map(after) =~= want);
        }
    } else {
        levels.insert(i, level);
        proof {
            let after = levels@;
            assert forall|a: int| 0 <= a < after.len() implies #[trigger] price_at(after, a) == (
            if a < i {
                price_at(before, a)
            } else if a == i {
                p
            } else {
                price_at(before, a - 1)
            }) && after[a] == (if a < i {
                before[a]
            } else if a == i {
                level
            } else {
                before[a - 1]
            }) by {}
            assert forall|a: int, b: int| 0 <= a < b < after.len() implies #[trigger] price_at(
                after,
                a,
            ) < #[trigger] price_at(after, b) by {
                let a0 = if a < i { a } else { a - 1 };
                let b0 = if b < i { b } else { b - 1 };
                if a != i && b != i {
                    assert(price_at(before, a0) < price_at(before, b0));
                } else if a == i {
                    assert(price_at(before, b0) > p);
                } else {
                    assert(price_at(before, a0) < p);
                }
            }
            assert forall|a: int| 0 <= a < after.len() implies !(#[trigger] after[a]).quantity.is_zero() by {
                let a0 = if a < i { a } else { a - 1 };
                if a != i {
                    assert(after[a] == before[a0]);
                }
            }
            lemma_level_map_of_rising(after);
            let want = level_map(before).insert(p, level);
            assert forall|k: int| #[trigger] level_map(after).contains_key(k) implies want.contains_key(k)
                && want[k] == level_map(after)[k] by {
                let a = choose|a: int| 0 <= a < after.len() && #[trigger] price_at(after, a) == k;
                let a0 = if a < i { a } else { a - 1 };
                if a != i {
                    assert(price_at(after, a) == price_at(before, a0));
                    assert(after[a] == before[a0]);
                    if a0 < i {
                        assert(price_at(before, a0) < p);
                    } else {
                        assert(price_at(before, a0) > p);
                    }
                }
            }
            assert forall|k: int| #[trigger] want.contains_key(k) implies level_map(after).contains_key(
                k,
            ) by {
                if k == p {
                    assert(price_at(after, i as int) == p);
                } else {
                    let a0 = choose|a0: int|
                        0 <= a0 < before.len() && #[trigger] price_at(before, a0) == k;
                    let a = if a0 < i { a0 } else { a0 + 1 };
                    assert(price_at(after, a) == price_at(before, a0));
                }
            }
            assert(level_map(after) =~= want);
        }
    }
}

/// The book of one instrument on one venue.
#[derive(Debug)]
pub struct OrderBook {
    bids: Vec<OrderLevel>,
    asks: Vec<OrderLevel>,
    symbol: String,
    exchange: Exchange,
}

impl OrderBook {
    /// Both sides rise strictly in price and hold no quantity of zero.
    #[verifier::type_invariant]
    pub open spec fn well_formed(&self) -> bool {
        &&& rising(self.bid_levels())
        &&& resting(self.bid_levels())
        &&& rising(self.ask_levels())
        &&& resting(self.ask_levels())
    }

    /// The bids, lowest price first: the best bid is the last.
    pub closed spec fn bid_levels(&self) -> Seq<OrderLevel> {
        self.bids@
    }

    /// The asks, lowest price first: the best ask is the first.
    pub closed spec fn ask_levels(&self) -> Seq<OrderLevel> {
        self.asks@
    }

    /// The bids by price.
    pub open spec fn bid_map(&self) -> Map<int, OrderLevel> {
        level_map(self.bid_levels())
    }

    /// The asks by price.
    pub open spec fn ask_map(&self) -> Map<int, OrderLevel> {
        level_map(self.ask_levels())
    }

    pub closed spec fn spec_symbol(&self) -> &String {
        &self.symbol
    }

    pub closed spec fn spec_exchange(&self) -> Exchange {
        self.exchange
    }

    /// An empty book. The symbol is taken as given: nothing holds it against
    /// what the venue later sends.
    pub fn new(symbol: String, exchange: Exchange) -> (book: OrderBook)
        ensures
            book.bid_levels() == Seq::<OrderLevel>::empty(),
            book.ask_levels() == Seq::<OrderLevel>::empty(),
            book.bid_map() == Map::<int, OrderLevel>::empty(),
            book.ask_map() == Map::<int, OrderLevel>::empty(),
            book.symbol()@ == symbol@,
            book.exchange() == exchange,
    {
        proof {
            lemma_empty_side();
        }
        OrderBook { bids: Vec::new(), asks: Vec::new(), symbol, exchange }
    }

    #[verifier::when_used_as_spec(spec_symbol)]
    pub fn symbol(&self) -> (r: &String)
        ensures
            r == self.symbol(),
    {
        &self.symbol
    }

    #[verifier::when_used_as_spec(spec_exchange)]
    pub fn exchange(&self) -> (r: Exchange)
        ensures
            r == self.exchange(),
    {
        self.exchange
    }

    /// The bids, lowest price first.
    pub fn bids(&self) -> (r: &Vec<OrderLevel>)
        ensures
            r@ == self.bid_levels(),
            rising(r@),
            resting(r@),
    {
        proof {
            use_type_invariant(self);
        }
        &self.bids
    }

    /// The asks, lowest price first.
    pub fn asks(&self) -> (r: &Vec<OrderLevel>)
        ensures
            r@ == self.ask_levels(),
            rising(r@),
            resting(r@),
    {
        proof {
            use_type_invariant(self);
        }
        &self.asks
    }

    /// Applies the levels to the bids, in order.
    pub fn update_bids(&mut self, levels: Vec<OrderLevel>)
        ensures
            final(self).bid_map() == apply_levels(old(self).bid_map(), levels@),
            final(self).ask_levels() == old(self).ask_levels(),
            final(self).symbol() == old(self).symbol(),
            final(self).exchange() == old(self).exchange(),
            final(self).well_formed(),
    {
        proof {
            use_type_invariant(&*self);
        }
        let mut side: Vec<OrderLevel> = Vec::new();
        core::mem::swap(&mut self.bids, &mut side);
        let ghost before = side@;
        let mut k: usize = 0;
        while k < levels.len()
            invariant
                k <= levels.len(),
                rising(side@),
                resting(side@),
                level_map(side@) == apply_levels(level_map(before), levels@.take(k as int)),
            decreases levels.len() - k,
        {
            proof {
                assert(levels@.take(k + 1).drop_last() =~= levels@.take(k as int));
            }
            upsert(&mut side, levels[k]);
            k += 1;
        }
        proof {
            assert(levels@.take(levels.len() as int) =~= levels@);
        }
        self.bids = side;
    }

    /// Applies the levels to the asks, in order.
    pub fn update_asks(&mut self, levels: Vec<OrderLevel>)
        ensures
            final(self).ask_map() == apply_levels(old(self).ask_map(), levels@),
            final(self).bid_levels() == old(self).bid_levels(),
            final(self).symbol() == old(self).symbol(),
            final(self).exchange() == old(self).exchange(),
            final(self).well_formed(),
    {
        proof {
            use_type_invariant(&*self);
        }
        let mut side: Vec<OrderLevel> = Vec::new();
        core::mem::swap(&mut self.asks, &mut side);
        let ghost before = side@;
        let mut k: usize = 0;
        while k < levels.len()
            invariant
                k <= levels.len(),
                rising(side@),
                resting(side@),
                level_map(side@) == apply_levels(level_map(before), levels@.take(k as int)),
            decreases levels.len() - k,
        {
            proof {
                assert(levels@.take(k + 1).drop_last() =~= levels@.take(k as int));
            }
            upsert(&mut side, levels[k]);
            k += 1;
        }
        proof {
            assert(levels@.take(levels.len() as int) =~= levels@);
        }
        self.asks = side;
    }

    /// The bid with the highest price, if there is any bid.
    pub fn best_bid(&self) -> (r: Option<OrderLevel>)
        ensures
            r is None <==> self.bid_levels().len() == 0,
            r is None <==> (forall|k: int| !(#[trigger] self.bid_map().contains_key(k))),
            r matches Some(best) ==> {
                &&& best == self.bid_levels().last()
                &&& self.bid_map().contains_key(best.price.value())
                &&& self.bid_map()[best.price.value()] == best
                &&& forall|k: int| #[trigger]
                    self.bid_map().contains_key(k) ==> k <= best.price.value()
            },
    {
        proof {
            use_type_invariant(self);
            lemma_level_map_of_rising(self.bids@);
        }
        let n = self.bids.len();
        if n == 0 {
            proof {
                lemma_empty_side();
                assert(self.bids@ =~= Seq::<OrderLevel>::empty());
                assert(forall|k: int| !(#[trigger] self.bid_map().contains_key(k)));
            }
            None
        } else {
            let best = self.bids[n - 1];
            proof {
                let levels = self.bids@;
                assert(price_at(levels, n - 1) == best.price.value());
                assert(self.bid_map().contains_key(best.price.value()));
                assert(!(forall|k: int| !(#[trigger] self.bid_map().contains_key(k))));
                assert forall|k: int| #[trigger] self.bid_map().contains_key(k) implies k
                    <= best.price.value() by {
                    let i = choose|i: int| 0 <= i < levels.len() && #[trigger] price_at(levels, i) == k;
                    if i < n - 1 {
                        assert(price_at(levels, i) < price_at(levels, n - 1));
                    }
                }
            }
            Some(best)
        }
    }

    /// The ask with the lowest price, if there is any ask.
    pub fn best_ask(&self) -> (r: Option<OrderLevel>)
        ensures
            r is None <==> self.ask_levels().len() == 0,
            r is None <==> (forall|k: int| !(#[trigger] self.ask_map().contains_key(k))),
            r matches Some(best) ==> {
                &&& best == self.ask_levels().first()
                &&& self.ask_map().contains_key(best.price.value())
                &&& self.ask_map()[best.price.value()] == best
                &&& forall|k: int| #[trigger]
                    self.ask_map().contains_key(k) ==> best.price.value() <= k
            },
    {
        proof {
            use_type_invariant(self);
            lemma_level_map_of_rising(self.asks@);
        }
        if self.asks.len() == 0 {
            proof {
                lemma_empty_side();
                assert(self.asks@ =~= Seq::<OrderLevel>::empty());
                assert(forall|k: int| !(#[trigger] self.ask_map().contains_key(k)));
            }
            None
        } else {
            let best = self.asks[0];
            proof {
                let levels = self.asks@;
                assert(price_at(levels, 0) == best.price.value());
                assert(self.ask_map().contains_key(best.price.value()));
                assert(!(forall|k: int| !(#[trigger] self.ask_map().contains_key(k))));
                assert forall|k: int| #[trigger] self.ask_map().contains_key(k) implies best.price.value()
                    <= k by {
                    let i = choose|i: int| 0 <= i < levels.len() && #[trigger] price_at(levels, i) == k;
                    if 0 < i {
                        assert(price_at(levels, 0) < price_at(levels, i));
                    }
                }
            }
            Some(best)
        }
    }
}

/// One matched slice: bought at `buy_price` on one venue, sold at `sell_price`
/// on the other.
#[derive(Debug, Clone, Copy)]
pub struct TradeLevel {
    pub buy_price: Decimal,
    pub sell_price: Decimal,
    pub quantity: Decimal,
    pub profit: Decimal,
}

/// A crossed spread between two venues and the legs that take it.
#[derive(Debug, Clone)]
pub struct ArbitrageOpportunity {
    pub buy_exchange: Exchange,
    pub sell_exchange: Exchange,
    pub symbol: String,
    pub trades: Vec<TradeLevel>,
    pub total_profit: Decimal,
    pub total_volume: Decimal,
}

/// The legs matched so far, with their running totals.
pub struct Matched {
    pub legs: Seq<TradeLevel>,
    pub total_profit: Decimal,
    pub total_volume: Decimal,
}

/// No leg, and both totals zero.
pub open spec fn nothing_matched() -> Matched {
    Matched {
        legs: Seq::empty(),
        total_profit: Decimal::from_parts(0, 0),
        total_volume: Decimal::from_parts(0, 0),
    }
}

/// What a side still offers at its current level: the remainder carried over
/// from the last leg if there is one, else the level's whole quantity.
pub open spec fn available(carried: Decimal, resting: Decimal) -> Decimal {
    if carried.is_positive() {
        carried
    } else {
        resting
    }
}

/// The smaller of the two; `a` where they are equal.
pub open spec fn smaller(a: Decimal, b: Decimal) -> Decimal {
    if b.value() < a.value() {
        b
    } else {
        a
    }
}

/// The leg that trades `quantity` between the two prices, with profit
/// `quantity * (sell_price - buy_price)`; `None` where the arithmetic fails.
pub open spec fn leg(sell_price: Decimal, buy_price: Decimal, quantity: Decimal) -> Option<
    TradeLevel,
> {
    match sell_price.sub_spec(buy_price) {
        Some(margin) => match quantity.mul_spec(margin) {
            Some(profit) => Some(TradeLevel { buy_price, sell_price, quantity, profit }),
            None => None,
        },
        None => None,
    }
}

/// Where a walk stands: how many levels of each side are used up, bids counted
/// from the highest and asks from the lowest, and what each side carries over
/// from the last leg.
#[derive(Debug, Clone, Copy)]
pub struct Position {
    pub bids_used: usize,
    pub asks_used: usize,
    pub carry_sell: Decimal,
    pub carry_buy: Decimal,
}

/// The position after a leg between `offered` and `wanted`, `rest` being the
/// difference of the two.
pub open spec fn advanced(at: Position, offered: Decimal, wanted: Decimal, rest: Decimal) -> Position {
    let zero = Decimal::from_parts(0, 0);
    if offered.value() < wanted.value() {
        Position {
            bids_used: (at.bids_used + 1) as usize,
            asks_used: at.asks_used,
            carry_sell: zero,
            carry_buy: rest,
        }
    } else if wanted.value() < offered.value() {
        Position {
            bids_used: at.bids_used,
            asks_used: (at.asks_used + 1) as usize,
            carry_sell: rest,
            carry_buy: zero,
        }
    } else {
        Position {
            bids_used: (at.bids_used + 1) as usize,
            asks_used: (at.asks_used + 1) as usize,
            carry_sell: zero,
            carry_buy: zero,
        }
    }
}

/// The greedy walk. `i` bids have been used up, counted from the highest, and
/// `j` asks, counted from the lowest. While the current bid is above the current
/// ask, the smaller of the two available quantities is traded; the side that
/// was used up moves on and the other carries its remainder. `None` where any
/// step of the arithmetic fails.
pub open spec fn walk(
    bids: Seq<OrderLevel>,
    asks: Seq<OrderLevel>,
    i: nat,
    j: nat,
    carry_sell: Decimal,
    carry_buy: Decimal,
    so_far: Matched,
) -> Option<Matched>
    decreases bids.len() - i + asks.len() - j,
{
    if i >= bids.len() || j >= asks.len() {
        Some(so_far)
    } else {
        let sell = bids[bids.len() - 1 - i];
        let buy = asks[j as int];
        if sell.price.value() <= buy.price.value() {
            Some(so_far)
        } else {
            let offered = available(carry_sell, sell.quantity);
            let wanted = available(carry_buy, buy.quantity);
            let quantity = smaller(offered, wanted);
            match leg(sell.price, buy.price, quantity) {
                Some(traded) => match (
                    so_far.total_profit.add_spec(traded.profit),
                    so_far.total_volume.add_spec(quantity),
                ) {
                    (Some(total_profit), Some(total_volume)) => {
                        let next = Matched {
                            legs: so_far.legs.push(traded),
                            total_profit,
                            total_volume,
                        };
                        let zero = Decimal::from_parts(0, 0);
                        if offered.value() < wanted.value() {
                            match wanted.sub_spec(offered) {
                                Some(rest) => walk(bids, asks, i + 1, j, zero, rest, next),
                                None => None,
                            }
                        } else if wanted.value() < offered.value() {
                            match offered.sub_spec(wanted) {
                                Some(rest) => walk(bids, asks, i, j + 1, rest, zero, next),
                                None => None,
                            }
                        } else {
                            walk(bids, asks, i + 1, j + 1, zero, zero, next)
                        }
                    },
                    _ => None,
                },
                None => None,
            }
        }
    }
}

/// The best bid is above the best ask.
pub open spec fn crossing(bids: Seq<OrderLevel>, asks: Seq<OrderLevel>) -> bool {
    bids.len() > 0 && asks.len() > 0 && bids.last().price.value() > asks.first().price.value()
}

/// What selling into `bids` and buying from `asks` yields: the whole walk, if
/// the books cross, the arithmetic holds and the total profit is above zero.
pub open spec fn direction_match(bids: Seq<OrderLevel>, asks: Seq<OrderLevel>) -> Option<Matched> {
    if !crossing(bids, asks) {
        None
    } else {
        let zero = Decimal::from_parts(0, 0);
        match walk(bids, asks, 0, 0, zero, zero, nothing_matched()) {
            Some(m) => if m.total_profit.is_positive() {
                Some(m)
            } else {
                None
            },
            None => None,
        }
    }
}

/// The amounts added up from zero, first to last, as `rust_decimal` adds them.
pub open spec fn sum_all(amounts: Seq<Decimal>) -> Option<Decimal>
    decreases amounts.len(),
{
    if amounts.len() == 0 {
        Some(Decimal::from_parts(0, 0))
    } else {
        match sum_all(amounts.drop_last()) {
            Some(s) => s.add_spec(amounts.last()),
            None => None,
        }
    }
}

pub open spec fn profits(legs: Seq<TradeLevel>) -> Seq<Decimal> {
    legs.map_values(|t: TradeLevel| t.profit)
}

pub open spec fn quantities(legs: Seq<TradeLevel>) -> Seq<Decimal> {
    legs.map_values(|t: TradeLevel| t.quantity)
}

/// The leg sells above what it buys at, and its profit is its quantity times
/// that margin.
pub open spec fn leg_sound(t: TradeLevel) -> bool {
    &&& t.sell_price.value() > t.buy_price.value()
    &&& leg(t.sell_price, t.buy_price, t.quantity) == Some(t)
}

/// The leg sells at the price of one of the bids and buys at the price of one
/// of the asks.
pub open spec fn leg_between(t: TradeLevel, bids: Seq<OrderLevel>, asks: Seq<OrderLevel>) -> bool {
    &&& exists|b: int| 0 <= b < bids.len() && (#[trigger] bids[b]).price == t.sell_price
    &&& exists|a: int| 0 <= a < asks.len() && (#[trigger] asks[a]).price == t.buy_price
}

/// The totals are the sums of the legs, and every leg is sound.
pub open spec fn totals_exact(
    legs: Seq<TradeLevel>,
    total_profit: Decimal,
    total_volume: Decimal,
) -> bool {
    &&& sum_all(profits(legs)) == Some(total_profit)
    &&& sum_all(quantities(legs)) == Some(total_volume)
    &&& forall|k: int| 0 <= k < legs.len() ==> leg_sound(#[trigger] legs[k])
}

impl ArbitrageOpportunity {
    /// The opportunity reports exactly what was matched, between these venues.
    pub open spec fn describes(
        &self,
        m: Matched,
        symbol: Seq<char>,
        buy_exchange: Exchange,
        sell_exchange: Exchange,
    ) -> bool {
        &&& self.trades@ == m.legs
        &&& self.total_profit == m.total_profit
        &&& self.total_volume == m.total_volume
        &&& self.symbol@ == symbol
        &&& self.buy_exchange == buy_exchange
        &&& self.sell_exchange == sell_exchange
    }

    /// The totals are the sums of the legs, every leg is sound, and the total
    /// profit is above zero.
    pub open spec fn valid(&self) -> bool {
        &&& totals_exact(self.trades@, self.total_profit, self.total_volume)
        &&& self.total_profit.is_positive()
    }
}

/// The three lines of a report that tell how to take one leg, the leg being
/// the `number`th: what to buy, what to sell, and what it yields. `None` where
/// the margin between the leg's two prices does not fit.
pub open spec fn leg_lines(t: TradeLevel, number: nat, buy: Exchange, sell: Exchange) -> Option<
    Seq<Seq<char>>,
> {
    match t.sell_price.sub_spec(t.buy_price) {
        Some(margin) => Some(
            seq![
                number_text(number) + ". Place BUY order: "@ + t.quantity.text()
                    + " contracts at "@ + t.buy_price.text() + " on "@ + buy.name_text(),
                "Place SELL order: "@ + t.quantity.text() + " contracts at "@
                    + t.sell_price.text() + " on "@ + sell.name_text(),
                "-> Level Profit: "@ + t.profit.text() + " (Margin: "@ + margin.text() + ")"@,
            ],
        ),
        None => None,
    }
}

/// The lines for all the legs, in order, numbered from one.
pub open spec fn legs_lines(legs: Seq<TradeLevel>, buy: Exchange, sell: Exchange) -> Option<
    Seq<Seq<char>>,
>
    decreases legs.len(),
{
    if legs.len() == 0 {
        Some(Seq::empty())
    } else {
        match (
            legs_lines(legs.drop_last(), buy, sell),
            leg_lines(legs.last(), legs.len(), buy, sell),
        ) {
            (Some(before), Some(last)) => Some(before + last),
            _ => None,
        }
    }
}

/// The three lines that open a report, the first of them empty.
pub open spec fn report_head(symbol: Seq<char>, buy: Exchange, sell: Exchange) -> Seq<
    Seq<char>,
> {
    seq![
        Seq::<char>::empty(),
        "ARBITRAGE OPPORTUNITY DETECTED for instrument: "@ + symbol,
        "Strategy: Buy on "@ + buy.name_text() + " -> Sell on "@ + sell.name_text(),
        "EXECUTION SEQUENCE:"@,
    ]
}

/// The four lines that close a report.
pub open spec fn report_tail(total_volume: Decimal, total_profit: Decimal) -> Seq<Seq<char>> {
    seq![
        "SUMMARY:"@,
        "Total Volume: "@ + total_volume.text() + " contracts"@,
        "Total Profit: "@ + total_profit.text(),
        "============================================================"@,
    ]
}

/// The texts of the lines.
pub open spec fn line_texts(lines: Seq<String>) -> Seq<Seq<char>> {
    lines.map_values(|line: String| line@)
}

impl ArbitrageOpportunity {
    /// The whole report: head, the lines of each leg, tail.
    pub open spec fn report_text(&self) -> Option<Seq<Seq<char>>> {
        match legs_lines(self.trades@, self.buy_exchange, self.sell_exchange) {
            Some(body) => Some(
                report_head(self.symbol@, self.buy_exchange, self.sell_exchange) + body
                    + report_tail(self.total_volume, self.total_profit),
            ),
            None => None,
        }
    }

    /// The report for an operator, line by line: the direction, how to take
    /// each leg, and the totals. `None` where the margin of a leg does not fit,
    /// which is no leg that detection has made.
    pub fn report_lines(&self) -> (r: Option<Vec<String>>)
        ensures
            match self.report_text() {
                Some(text) => r matches Some(lines) && line_texts(lines@) == text,
                None => r is None,
            },
    {
        let buy = self.buy_exchange.name();
        let sell = self.sell_exchange.name();
        let mut lines: Vec<String> = Vec::new();
        lines.push(String::new());
        let mut line = String::from_str("ARBITRAGE OPPORTUNITY DETECTED for instrument: ");
        line.append(self.symbol.as_str());
        lines.push(line);
        let mut line = String::from_str("Strategy: Buy on ");
        line.append(buy);
        line.append(" -> Sell on ");
        line.append(sell);
        lines.push(line);
        lines.push(String::from_str("EXECUTION SEQUENCE:"));
        let ghost head = report_head(self.symbol@, self.buy_exchange, self.sell_exchange);
        proof {
            assert(line_texts(lines@) =~= head);
        }
        let mut k: usize = 0;
        while k < self.trades.len()
            invariant
                k <= self.trades.len(),
                buy@ == self.buy_exchange.name_text(),
                sell@ == self.sell_exchange.name_text(),
                head == report_head(self.symbol@, self.buy_exchange, self.sell_exchange),
                legs_lines(self.trades@.take(k as int), self.buy_exchange, self.sell_exchange)
                    matches Some(body) && line_texts(lines@) == head + body,
            decreases self.trades.len() - k,
        {
            let ghost body = legs_lines(
                self.trades@.take(k as int),
                self.buy_exchange,
                self.sell_exchange,
            )->0;
            proof {
                assert(self.trades@.take(k + 1).drop_last() =~= self.trades@.take(k as int));
                assert(self.trades@.take(k + 1).last() == self.trades@[k as int]);
                assert(self.trades@.take(self.trades.len() as int) =~= self.trades@);
            }
            let trade = self.trades[k];
            let margin = match trade.sell_price.checked_sub(&trade.buy_price) {
                Some(margin) => margin,
                None => {
                    proof {
                        lemma_legs_lines_fail(
                            self.trades@,
                            k as int,
                            self.buy_exchange,
                            self.sell_exchange,
                        );
                    }
                    return None;
                },
            };
            let quantity = trade.quantity.to_text();
            let mut first = number_string(k + 1);
            first.append(". Place BUY order: ");
            first.append(quantity.as_str());
            first.append(" contracts at ");
            first.append(trade.buy_price.to_text().as_str());
            first.append(" on ");
            first.append(buy);
            let mut second = String::from_str("Place SELL order: ");
            second.append(quantity.as_str());
            second.append(" contracts at ");
            second.append(trade.sell_price.to_text().as_str());
            second.append(" on ");
            second.append(sell);
            let mut third = String::from_str("-> Level Profit: ");
            third.append(trade.profit.to_text().as_str());
            third.append(" (Margin: ");
            third.append(margin.to_text().as_str());
            third.append(")");
            let ghost added = seq![first@, second@, third@];
            let ghost start = lines@;
            lines.push(first);
            lines.push(second);
            lines.push(third);
            proof {
                assert(leg_lines(
                    self.trades@[k as int],
                    (k + 1) as nat,
                    self.buy_exchange,
                    self.sell_exchange,
                ) == Some(added));
                assert(line_texts(lines@) =~= line_texts(start) + added);
                assert(line_texts(lines@) =~= head + (body + added));
            }
            k += 1;
        }
        let ghost body = legs_lines(self.trades@, self.buy_exchange, self.sell_exchange)->0;
        proof {
            assert(self.trades@.take(self.trades.len() as int) =~= self.trades@);
        }
        let ghost so_far = lines@;
        lines.push(String::from_str("SUMMARY:"));
        let mut line = String::from_str("Total Volume: ");
        line.append(self.total_volume.to_text().as_str());
        line.append(" contracts");
        lines.push(line);
        let mut line = String::from_str("Total Profit: ");
        line.append(self.total_profit.to_text().as_str());
        lines.push(line);
        lines.push(String::from_str("============================================================"));
        proof {
            assert(line_texts(lines@) =~= line_texts(so_far) + report_tail(
                self.total_volume,
                self.total_profit,
            ));
        }
        Some(lines)
    }
}

/// Where the lines of one leg cannot be written, those of all cannot.
pub proof fn lemma_legs_lines_fail(legs: Seq<TradeLevel>, k: int, buy: Exchange, sell: Exchange)
    requires
        0 <= k < legs.len(),
        leg_lines(legs[k], (k + 1) as nat, buy, sell) is None,
    ensures
        legs_lines(legs, buy, sell) is None,
    decreases legs.len(),
{
    if k < legs.len() - 1 {
        assert(legs.drop_last()[k] == legs[k]);
        lemma_legs_lines_fail(legs.drop_last(), k, buy, sell);
    }
}

/// A walk keeps the totals equal to the sums of the legs: if they are so for
/// what was matched before, they are so for what the walk returns.
pub proof fn lemma_walk_totals(
    bids: Seq<OrderLevel>,
    asks: Seq<OrderLevel>,
    i: nat,
    j: nat,
    carry_sell: Decimal,
    carry_buy: Decimal,
    so_far: Matched,
)
    requires
        totals_exact(so_far.legs, so_far.total_profit, so_far.total_volume),
    ensures
        walk(bids, asks, i, j, carry_sell, carry_buy, so_far) matches Some(m) ==> totals_exact(
            m.legs,
            m.total_profit,
            m.total_volume,
        ),
    decreases bids.len() - i + asks.len() - j,
{
    if i >= bids.len() || j >= asks.len() {
    } else {
        let sell = bids[bids.len() - 1 - i];
        let buy = asks[j as int];
        if sell.price.value() <= buy.price.value() {
        } else {
            let offered = available(carry_sell, sell.quantity);
            let wanted = available(carry_buy, buy.quantity);
            let quantity = smaller(offered, wanted);
            let zero = Decimal::from_parts(0, 0);
            match leg(sell.price, buy.price, quantity) {
                Some(traded) => match (
                    so_far.total_profit.add_spec(traded.profit),
                    so_far.total_volume.add_spec(quantity),
                ) {
                    (Some(total_profit), Some(total_volume)) => {
                        let next = Matched {
                            legs: so_far.legs.push(traded),
                            total_profit,
                            total_volume,
                        };
                        assert(profits(next.legs).drop_last() =~= profits(so_far.legs));
                        assert(quantities(next.legs).drop_last() =~= quantities(so_far.legs));
                        assert(profits(next.legs).last() == traded.profit);
                        assert(quantities(next.legs).last() == quantity);
                        assert(leg_sound(traded));
                        assert forall|k: int| 0 <= k < next.legs.len() implies leg_sound(
                            #[trigger] next.legs[k],
                        ) by {
                            if k < so_far.legs.len() {
                                assert(next.legs[k] == so_far.legs[k]);
                            }
                        }
                        assert(totals_exact(next.legs, next.total_profit, next.total_volume));
                        if offered.value() < wanted.value() {
                            match wanted.sub_spec(offered) {
                                Some(rest) => lemma_walk_totals(
                                    bids,
                                    asks,
                                    i + 1,
                                    j,
                                    zero,
                                    rest,
                                    next,
                                ),
                                None => {},
                            }
                        } else if wanted.value() < offered.value() {
                            match offered.sub_spec(wanted) {
                                Some(rest) => lemma_walk_totals(
                                    bids,
                                    asks,
                                    i,
                                    j + 1,
                                    rest,
                                    zero,
                                    next,
                                ),
                                None => {},
                            }
                        } else {
                            lemma_walk_totals(bids, asks, i + 1, j + 1, zero, zero, next);
                        }
                    },
                    _ => {},
                },
                None => {},
            }
        }
    }
}

/// Every leg of a walk trades between a bid and an ask of the two sides, and a
/// walk has at most one leg for each level it can still use up.
pub proof fn lemma_walk_legs_from_sides(
    bids: Seq<OrderLevel>,
    asks: Seq<OrderLevel>,
    i: nat,
    j: nat,
    carry_sell: Decimal,
    carry_buy: Decimal,
    so_far: Matched,
)
    requires
        i <= bids.len(),
        j <= asks.len(),
    ensures
        walk(bids, asks, i, j, carry_sell, carry_buy, so_far) matches Some(m) ==> {
            &&& so_far.legs.len() <= m.legs.len() <= so_far.legs.len() + (bids.len() - i) + (
            asks.len() - j)
            &&& forall|k: int|
                so_far.legs.len() <= k < m.legs.len() ==> leg_between(
                    #[trigger] m.legs[k],
                    bids,
                    asks,
                )
            &&& forall|k: int| 0 <= k < so_far.legs.len() ==> m.legs[k] == so_far.legs[k]
        },
    decreases bids.len() - i + asks.len() - j,
{
    if i >= bids.len() || j >= asks.len() {
    } else {
        let sell = bids[bids.len() - 1 - i];
        let buy = asks[j as int];
        if sell.price.value() <= buy.price.value() {
        } else {
            let offered = available(carry_sell, sell.quantity);
            let wanted = available(carry_buy, buy.quantity);
            let quantity = smaller(offered, wanted);
            let zero = Decimal::from_parts(0, 0);
            match leg(sell.price, buy.price, quantity) {
                Some(traded) => match (
                    so_far.total_profit.add_spec(traded.profit),
                    so_far.total_volume.add_spec(quantity),
                ) {
                    (Some(total_profit), Some(total_volume)) => {
                        let next = Matched {
                            legs: so_far.legs.push(traded),
                            total_profit,
                            total_volume,
                        };
                        assert(leg_between(traded, bids, asks)) by {
                            assert(bids[bids.len() - 1 - i].price == traded.sell_price);
                            assert(asks[j as int].price == traded.buy_price);
                        }
                        if offered.value() < wanted.value() {
                            match wanted.sub_spec(offered) {
                                Some(rest) => lemma_walk_legs_from_sides(
                                    bids,
                                    asks,
                                    i + 1,
                                    j,
                                    zero,
                                    rest,
                                    next,
                                ),
                                None => {},
                            }
                        } else if wanted.value() < offered.value() {
                            match offered.sub_spec(wanted) {
                                Some(rest) => lemma_walk_legs_from_sides(
                                    bids,
                                    asks,
                                    i,
                                    j + 1,
                                    rest,
                                    zero,
                                    next,
                                ),
                                None => {},
                            }
                        } else {
                            lemma_walk_legs_from_sides(bids, asks, i + 1, j + 1, zero, zero, next);
                        }
                        let out = walk(bids, asks, i, j, carry_sell, carry_buy, so_far);
                        if out is Some {
                            let m = out->0;
                            assert(next.legs[so_far.legs.len() as int] == traded);
                            assert forall|k: int|
                                so_far.legs.len() <= k < m.legs.len() implies leg_between(
                                #[trigger] m.legs[k],
                                bids,
                                asks,
                            ) by {
                                if k == so_far.legs.len() {
                                    assert(m.legs[k] == next.legs[k]);
                                }
                            }
                            assert forall|k: int| 0 <= k < so_far.legs.len() implies m.legs[k]
                                == so_far.legs[k] by {
                                assert(m.legs[k] == next.legs[k]);
                            }
                        }
                    },
                    _ => {},
                },
                None => {},
            }
        }
    }
}

/// Whatever a direction yields has totals equal to the sums of its legs, to
/// the last digit, and a total profit above zero.
pub proof fn lemma_match_totals(bids: Seq<OrderLevel>, asks: Seq<OrderLevel>)
    ensures
        direction_match(bids, asks) matches Some(m) ==> totals_exact(
            m.legs,
            m.total_profit,
            m.total_volume,
        ) && m.total_profit.is_positive(),
{
    let zero = Decimal::from_parts(0, 0);
    assert(profits(Seq::<TradeLevel>::empty()) =~= Seq::<Decimal>::empty());
    assert(quantities(Seq::<TradeLevel>::empty()) =~= Seq::<Decimal>::empty());
    lemma_walk_totals(bids, asks, 0, 0, zero, zero, nothing_matched());
}

/// Where neither book's best bid is above the other book's best ask, neither
/// direction yields anything.
pub proof fn lemma_no_crossing_no_match(
    bids_a: Seq<OrderLevel>,
    asks_a: Seq<OrderLevel>,
    bids_b: Seq<OrderLevel>,
    asks_b: Seq<OrderLevel>,
)
    requires
        !crossing(bids_a, asks_b),
        !crossing(bids_b, asks_a),
    ensures
        direction_match(bids_a, asks_b) is None,
        direction_match(bids_b, asks_a) is None,
{
}

/// What was matched between two books, and in which direction.
pub struct Detection {
    pub matched: Matched,
    pub symbol: Seq<char>,
    pub buy_exchange: Exchange,
    pub sell_exchange: Exchange,
}

/// What detection finds between two books: selling on `book_a` and buying on
/// `book_b` if that direction yields anything, else the reverse, if that does.
/// The symbol is that of the book sold on.
pub open spec fn detection(book_a: OrderBook, book_b: OrderBook) -> Option<Detection> {
    match direction_match(book_a.bid_levels(), book_b.ask_levels()) {
        Some(matched) => Some(
            Detection {
                matched,
                symbol: book_a.symbol()@,
                buy_exchange: book_b.exchange(),
                sell_exchange: book_a.exchange(),
            },
        ),
        None => match direction_match(book_b.bid_levels(), book_a.ask_levels()) {
            Some(matched) => Some(
                Detection {
                    matched,
                    symbol: book_b.symbol()@,
                    buy_exchange: book_a.exchange(),
                    sell_exchange: book_b.exchange(),
                },
            ),
            None => None,
        },
    }
}

/// Finds crossed spreads between two books of one instrument.
pub struct ArbitrageDetector;

impl ArbitrageDetector {
    /// Looks for an opportunity between the two books: first buying on `book_b`
    /// and selling on `book_a`, then the reverse. The first direction that
    /// yields one is returned, and the other is then not looked at.
    pub fn detect_arbitrage(book_a: &OrderBook, book_b: &OrderBook) -> (r: Option<
        ArbitrageOpportunity,
    >)
        ensures
            match detection(*book_a, *book_b) {
                Some(found) => r matches Some(o) && o.describes(
                    found.matched,
                    found.symbol,
                    found.buy_exchange,
                    found.sell_exchange,
                ),
                None => r is None,
            },
            r matches Some(o) ==> o.valid(),
            !crossing(book_a.bid_levels(), book_b.ask_levels()) && !crossing(
                book_b.bid_levels(),
                book_a.ask_levels(),
            ) ==> r is None,
    {
        let exchange_a = book_a.exchange();
        let exchange_b = book_b.exchange();
        match Self::check_direction(book_a, book_b, &exchange_b, &exchange_a) {
            Some(opportunity) => Some(opportunity),
            None => Self::check_direction(book_b, book_a, &exchange_a, &exchange_b),
        }
    }

    /// Moves a walk on after a leg between `offered` and `wanted`: the side with
    /// the smaller quantity is used up and goes to its next level, and the other
    /// side carries `rest`, the difference of the two. Where the two are equal
    /// both sides go on, nothing is carried and `rest` is not looked at.
    pub fn advance(at: Position, offered: &Decimal, wanted: &Decimal, rest: Decimal) -> (next:
        Position)
        requires
            at.bids_used < usize::MAX,
            at.asks_used < usize::MAX,
        ensures
            next == advanced(at, *offered, *wanted, rest),
    {
        let zero = Decimal::zero();
        if offered.lt(wanted) {
            Position {
                bids_used: at.bids_used + 1,
                asks_used: at.asks_used,
                carry_sell: zero,
                carry_buy: rest,
            }
        } else if wanted.lt(offered) {
            Position {
                bids_used: at.bids_used,
                asks_used: at.asks_used + 1,
                carry_sell: rest,
                carry_buy: zero,
            }
        } else {
            Position {
                bids_used: at.bids_used + 1,
                asks_used: at.asks_used + 1,
                carry_sell: zero,
                carry_buy: zero,
            }
        }
    }

    /// Looks for an opportunity in one direction: selling into the bids of
    /// `sell_book` and buying from the asks of `buy_book`.
    pub fn check_direction(
        sell_book: &OrderBook,
        buy_book: &OrderBook,
        buy_exchange: &Exchange,
        sell_exchange: &Exchange,
    ) -> (r: Option<ArbitrageOpportunity>)
        ensures
            match direction_match(sell_book.bid_levels(), buy_book.ask_levels()) {
                Some(m) => r matches Some(o) && o.describes(
                    m,
                    sell_book.symbol()@,
                    *buy_exchange,
                    *sell_exchange,
                ),
                None => r is None,
            },
            r matches Some(o) ==> o.valid(),
    {
        let best_bid = match sell_book.best_bid() {
            Some(level) => level,
            None => {
                return None;
            },
        };
        let best_ask = match buy_book.best_ask() {
            Some(level) => level,
            None => {
                return None;
            },
        };
        if best_bid.price.le(&best_ask.price) {
            return None;
        }
        let ghost bids = sell_book.bids@;
        let ghost asks = buy_book.asks@;
        let zero = Decimal::zero();
        let sells: usize = sell_book.bids.len();
        let buys: usize = buy_book.asks.len();
        let mut trades: Vec<TradeLevel> = Vec::new();
        let mut total_profit = zero;
        let mut total_volume = zero;
        let mut at = Position { bids_used: 0, asks_used: 0, carry_sell: zero, carry_buy: zero };
        let ghost target = walk(bids, asks, 0, 0, zero, zero, nothing_matched());
        proof {
            lemma_match_totals(bids, asks);
        }
        while at.bids_used < sells && at.asks_used < buys
            invariant
                bids == sell_book.bids@,
                asks == buy_book.asks@,
                sells == bids.len(),
                buys == asks.len(),
                at.bids_used <= sells,
                at.asks_used <= buys,
                zero == Decimal::from_parts(0, 0),
                crossing(bids, asks),
                target == walk(bids, asks, 0, 0, zero, zero, nothing_matched()),
                walk(
                    bids,
                    asks,
                    at.bids_used as nat,
                    at.asks_used as nat,
                    at.carry_sell,
                    at.carry_buy,
                    (Matched { legs: trades@, total_profit, total_volume }),
                ) == target,
            ensures
                target == Some(Matched { legs: trades@, total_profit, total_volume }),
            decreases sells - at.bids_used + buys - at.asks_used,
        {
            let sell = sell_book.bids[sells - 1 - at.bids_used];
            let buy = buy_book.asks[at.asks_used];
            if sell.price.le(&buy.price) {
                break ;
            }
            let offered = if at.carry_sell.is_positive() {
                at.carry_sell
            } else {
                sell.quantity
            };
            let wanted = if at.carry_buy.is_positive() {
                at.carry_buy
            } else {
                buy.quantity
            };
            let quantity = if wanted.lt(&offered) {
                wanted
            } else {
                offered
            };
            let margin = match sell.price.checked_sub(&buy.price) {
                Some(margin) => margin,
                None => {
                    return None;
                },
            };
            let profit = match quantity.checked_mul(&margin) {
                Some(profit) => profit,
                None => {
                    return None;
                },
            };
            let traded = TradeLevel {
                buy_price: buy.price,
                sell_price: sell.price,
                quantity,
                profit,
            };
            let new_profit = match total_profit.checked_add(&profit) {
                Some(total) => total,
                None => {
                    return None;
                },
            };
            let new_volume = match total_volume.checked_add(&quantity) {
                Some(total) => total,
                None => {
                    return None;
                },
            };
            let rest = if offered.lt(&wanted) {
                match wanted.checked_sub(&offered) {
                    Some(rest) => rest,
                    None => {
                        return None;
                    },
                }
            } else if wanted.lt(&offered) {
                match offered.checked_sub(&wanted) {
                    Some(rest) => rest,
                    None => {
                        return None;
                    },
                }
            } else {
                zero
            };
            at = Self::advance(at, &offered, &wanted, rest);
            trades.push(traded);
            total_profit = new_profit;
            total_volume = new_volume;
        }
        if total_profit.is_positive() {
            Some(
                ArbitrageOpportunity {
                    buy_exchange: *buy_exchange,
                    sell_exchange: *sell_exchange,
                    symbol: sell_book.symbol.clone(),
                    trades,
                    total_profit,
                    total_volume,
                },
            )
        } else {
            None
        }
    }
}

} // verus!
