//! The auction on the wire, and how the driver's auction is written as one.

use crate::competition;
use crate::competition::order;
use crate::competition::Timestamp;
use crate::dto::entries::{has_key, index_of, keys, upsert, upserted};
use crate::dto::liquidity::{encodes, Liquidity};
use crate::eth::{H160, U256};
use crate::liquidity::distinct;
use vstd::prelude::*;

verus! {

/// What a solver engine is told of a token.
#[derive(Debug)]
pub struct Token {
    pub decimals: Option<u8>,
    pub symbol: Option<String>,
    pub reference_price: Option<U256>,
    pub available_balance: U256,
    pub trusted: bool,
}

/// The record of a token of which nothing is known: no decimals, symbol or
/// price, a balance of zero, and not trusted.
pub open spec fn default_token() -> Token {
    Token {
        decimals: None,
        symbol: None,
        reference_price: None,
        available_balance: U256 { hi: 0, lo: 0 },
        trusted: false,
    }
}

impl Default for Token {
    fn default() -> (r: Token)
        ensures
            r == default_token(),
    {
        Token {
            decimals: None,
            symbol: None,
            reference_price: None,
            available_balance: U256 { hi: 0, lo: 0 },
            trusted: false,
        }
    }
}

/// Which amount of an order is fixed.
#[derive(Clone, Copy, Debug, PartialEq, Eq, Structural)]
pub enum Kind {
    Sell,
    Buy,
}

/// How an order is classified.
#[derive(Clone, Copy, Debug, PartialEq, Eq, Structural)]
pub enum Class {
    Market,
    Limit,
    Liquidity,
}

/// An order on the wire.
#[derive(Clone, Copy, Debug)]
pub struct Order {
    pub uid: [u8; 56],
    pub sell_token: H160,
    pub buy_token: H160,
    pub sell_amount: U256,
    pub buy_amount: U256,
    pub fee_amount: U256,
    pub kind: Kind,
    pub partially_fillable: bool,
    pub class: Class,
}

/// An auction on the wire.
#[derive(Debug)]
pub struct Auction {
    pub id: Option<String>,
    /// The record of each token, under the token's address. No address
    /// occurs twice.
    pub tokens: Vec<(H160, Token)>,
    pub orders: Vec<Order>,
    pub liquidity: Vec<Liquidity>,
    pub effective_gas_price: U256,
    pub deadline: Timestamp,
}

/// The wire record of a token that the driver knows.
pub open spec fn wire_token(token: competition::Token) -> Token {
    Token {
        decimals: token.decimals,
        symbol: token.symbol,
        reference_price: token.price,
        available_balance: token.available_balance,
        trusted: token.trusted,
    }
}

/// The tokens of the auction as entries, each under its address.
pub open spec fn seed(tokens: Seq<competition::Token>) -> Seq<(H160, Token)> {
    Seq::new(tokens.len(), |i: int| (tokens[i].address, wire_token(tokens[i])))
}

/// `entries`, with a default record under `key` where there was none.
pub open spec fn with_default(entries: Seq<(H160, Token)>, key: H160) -> Seq<(H160, Token)> {
    if has_key(entries, key) {
        entries
    } else {
        entries.push((key, default_token()))
    }
}

/// `entries`, with a default record under each of `keys` that had none.
pub open spec fn with_defaults(entries: Seq<(H160, Token)>, keys: Seq<H160>) -> Seq<(H160, Token)>
    decreases keys.len(),
{
    if keys.len() == 0 {
        entries
    } else {
        with_default(with_defaults(entries, keys.drop_last()), keys.last())
    }
}

/// Every token that the reserves of `pools` refer to, pool by pool.
pub open spec fn referenced(pools: Seq<crate::liquidity::Liquidity>) -> Seq<H160>
    decreases pools.len(),
{
    if pools.len() == 0 {
        Seq::empty()
    } else {
        referenced(pools.drop_last()) + pools.last().kind.tokens()
    }
}

/// The token mapping of the wire auction: the tokens of the auction, each
/// under its address, and a default record for every other token that a
/// pool refers to.
pub open spec fn token_entries(
    tokens: Seq<competition::Token>,
    pools: Seq<crate::liquidity::Liquidity>,
) -> Seq<(H160, Token)> {
    with_defaults(upserted(seed(tokens)), referenced(pools))
}

/// The wire form of the side of an order.
pub open spec fn wire_kind(side: order::Side) -> Kind {
    match side {
        order::Side::Buy => Kind::Buy,
        order::Side::Sell => Kind::Sell,
    }
}

/// The wire form of the class of an order.
pub open spec fn wire_class(kind: order::Kind) -> Class {
    match kind {
        order::Kind::Market => Class::Market,
        order::Kind::Limit => Class::Limit,
        order::Kind::Liquidity => Class::Liquidity,
    }
}

/// The wire form of an order: its amounts are those that are open for trade.
pub open spec fn wire_order(order: order::Order) -> Order {
    Order {
        uid: order.uid,
        sell_token: order.available.sell.token,
        buy_token: order.available.buy.token,
        sell_amount: order.available.sell.amount,
        buy_amount: order.available.buy.amount,
        fee_amount: order.available.user_fee,
        kind: wire_kind(order.side),
        partially_fillable: order.partial,
        class: wire_class(order.kind),
    }
}

/// The wire form of the auction's number: its decimal digits.
pub open spec fn is_wire_id(id: Option<i64>, wire: Option<String>) -> bool {
    match id {
        Some(number) => wire matches Some(text) && vstd::string::to_string_from_display_ensures::<
            i64,
        >(&number, text),
        None => wire is None,
    }
}

/// Whether `wire` is the wire form of `auction` with the pools `pools`.
pub open spec fn is_wire_auction(
    auction: competition::Auction,
    pools: Seq<crate::liquidity::Liquidity>,
    wire: Auction,
) -> bool {
    &&& is_wire_id(auction.id, wire.id)
    &&& wire.tokens@ == token_entries(auction.tokens@, pools)
    &&& wire.orders@ == Seq::new(auction.orders@.len(), |i: int| wire_order(auction.orders@[i]))
    &&& wire.liquidity@.len() == pools.len()
    &&& forall|i: int| 0 <= i < pools.len() ==> encodes(#[trigger] pools[i], wire.liquidity@[i])
    &&& wire.effective_gas_price == auction.effective_gas_price
    &&& wire.deadline == auction.deadline
}

/// Putting an entry into a mapping without repeated keys leaves it without
/// repeated keys.
pub proof fn lemma_upsert_distinct<V>(entries: Seq<(H160, V)>, key: H160, value: V)
    requires
        distinct(keys(entries)),
    ensures
        distinct(keys(upsert(entries, key, value))),
        has_key(upsert(entries, key, value), key),
{
    let after = upsert(entries, key, value);
    if has_key(entries, key) {
        let at = index_of(entries, key);
        assert(after[at].0 == key);
        assert forall|i: int, j: int| 0 <= i < j < keys(after).len() implies keys(after)[i] != keys(
            after,
        )[j] by {
            assert(keys(entries)[i] != keys(entries)[j]);
        }
    } else {
        assert(after[entries.len() as int].0 == key);
        assert forall|i: int, j: int| 0 <= i < j < keys(after).len() implies keys(after)[i] != keys(
            after,
        )[j] by {
            if j < entries.len() {
                assert(keys(entries)[i] != keys(entries)[j]);
            } else {
                assert(entries[i].0 != key);
            }
        }
    }
}

/// The mapping that a list of items makes has no repeated keys.
pub proof fn lemma_upserted_keys_distinct<V>(items: Seq<(H160, V)>)
    ensures
        distinct(keys(upserted(items))),
    decreases items.len(),
{
    if items.len() > 0 {
        lemma_upserted_keys_distinct(items.drop_last());
        lemma_upsert_distinct(upserted(items.drop_last()), items.last().0, items.last().1);
    }
}

/// Adding default records keeps what was there, adds no key twice, and
/// leaves a record under each of the keys asked for.
pub proof fn lemma_with_defaults(entries: Seq<(H160, Token)>, wanted: Seq<H160>)
    requires
        distinct(keys(entries)),
    ensures
        distinct(keys(with_defaults(entries, wanted))),
        forall|key: H160| has_key(entries, key) ==> has_key(with_defaults(entries, wanted), key),
        forall|k: int| 0 <= k < wanted.len() ==> has_key(with_defaults(entries, wanted), wanted[k]),
    decreases wanted.len(),
{
    if wanted.len() > 0 {
        let front = wanted.drop_last();
        lemma_with_defaults(entries, front);
        let before = with_defaults(entries, front);
        let after = with_defaults(entries, wanted);
        let last = wanted.last();
        assert forall|key: H160| has_key(before, key) implies has_key(after, key) by {
            let i = index_of(before, key);
            assert(after[i].0 == key);
        }
        if !has_key(before, last) {
            assert(after[before.len() as int].0 == last);
            assert forall|i: int, j: int| 0 <= i < j < keys(after).len() implies keys(after)[i]
                != keys(after)[j] by {
                if j < before.len() {
                    assert(keys(before)[i] != keys(before)[j]);
                } else {
                    assert(before[i].0 != last);
                }
            }
        }
        assert forall|k: int| 0 <= k < wanted.len() implies has_key(after, wanted[k]) by {
            if k < front.len() {
                assert(front[k] == wanted[k]);
                assert(has_key(before, front[k]));
            }
        }
    }
}

/// Each token of each pool is among the tokens that the pools refer to.
pub proof fn lemma_referenced(pools: Seq<crate::liquidity::Liquidity>, i: int, j: int)
    requires
        0 <= i < pools.len(),
        0 <= j < pools[i].kind.tokens().len(),
    ensures
        exists|k: int|
            0 <= k < referenced(pools).len() && referenced(pools)[k] == pools[i].kind.tokens()[j],
    decreases pools.len(),
{
    let front = pools.drop_last();
    if i == pools.len() - 1 {
        let k = referenced(front).len() + j;
        assert(referenced(pools)[k] == pools[i].kind.tokens()[j]);
    } else {
        lemma_referenced(front, i, j);
        let k = choose|k: int|
            0 <= k < referenced(front).len() && referenced(front)[k] == front[i].kind.tokens()[j];
        assert(referenced(pools)[k] == pools[i].kind.tokens()[j]);
    }
}

/// The token mapping of a wire auction has a record for every token that
/// the reserves of any pool refer to, whether or not an order trades it, and
/// under no address more than one.
pub proof fn lemma_token_completeness(
    tokens: Seq<competition::Token>,
    pools: Seq<crate::liquidity::Liquidity>,
    i: int,
    j: int,
)
    requires
        0 <= i < pools.len(),
        0 <= j < pools[i].kind.tokens().len(),
    ensures
        has_key(token_entries(tokens, pools), pools[i].kind.tokens()[j]),
        distinct(keys(token_entries(tokens, pools))),
{
    lemma_upserted_keys_distinct(seed(tokens));
    lemma_with_defaults(upserted(seed(tokens)), referenced(pools));
    lemma_referenced(pools, i, j);
}

/// The place of the entry under `key`, where there is one.
fn position(entries: &Vec<(H160, Token)>, key: H160) -> (r: Option<usize>)
    ensures
        match r {
            Some(i) => i < entries@.len() && entries@[i as int].0 == key,
            None => !has_key(entries@, key),
        },
{
    let n: usize = entries.len();
    let mut i: usize = 0;
    while i < n
        invariant
            n == entries@.len(),
            0 <= i <= n,
            forall|k: int| 0 <= k < i ==> (#[trigger] entries@[k]).0 != key,
        decreases n - i,
    {
        if entries[i].0 == key {
            return Some(i);
        }
        i = i + 1;
    }
    None
}

/// Puts `token` under `key`, in the place of the record that was there or
/// last.
fn put(entries: &mut Vec<(H160, Token)>, key: H160, token: Token)
    requires
        distinct(keys(old(entries)@)),
    ensures
        final(entries)@ == upsert(old(entries)@, key, token),
        distinct(keys(final(entries)@)),
{
    proof {
        lemma_upsert_distinct(entries@, key, token);
    }
    match position(entries, key) {
        Some(i) => {
            proof {
                let at = index_of(entries@, key);
                assert(entries@[i as int].0 == key);
                if at != i {
                    if at < i {
                        assert(keys(entries@)[at] != keys(entries@)[i as int]);
                    } else {
                        assert(keys(entries@)[i as int] != keys(entries@)[at]);
                    }
                }
            }
            entries.set(i, (key, token));
        },
        None => {
            entries.push((key, token));
        },
    }
}

/// Puts a default record under `key` unless there is a record already.
fn or_default(entries: &mut Vec<(H160, Token)>, key: H160)
    ensures
        final(entries)@ == with_default(old(entries)@, key),
{
    if position(entries, key).is_none() {
        entries.push((key, Token::default()));
    }
}

/// The wire form of an order.
fn order_to_wire(order: &order::Order) -> (r: Order)
    ensures
        r == wire_order(*order),
{
    Order {
        uid: order.uid,
        sell_token: order.available.sell.token,
        buy_token: order.available.buy.token,
        sell_amount: order.available.sell.amount,
        buy_amount: order.available.buy.amount,
        fee_amount: order.available.user_fee,
        kind: match order.side {
            order::Side::Buy => Kind::Buy,
            order::Side::Sell => Kind::Sell,
        },
        partially_fillable: order.is_partial(),
        class: match order.kind {
            order::Kind::Market => Class::Market,
            order::Kind::Limit => Class::Limit,
            order::Kind::Liquidity => Class::Liquidity,
        },
    }
}

/// The wire record of a token that the driver knows.
fn token_to_wire(token: &competition::Token) -> (r: Token)
    ensures
        r == wire_token(*token),
{
    Token {
        decimals: token.decimals,
        symbol: token.symbol.clone(),
        reference_price: token.price,
        available_balance: token.available_balance,
        trusted: token.trusted,
    }
}

impl Auction {
    /// Writes the auction and the pools in the form that solver engines
    /// read. The token mapping holds the auction's tokens and a default
    /// record for every other token that a pool refers to. No pool may be a
    /// foreign limit order.
    pub fn new(auction: &competition::Auction, liquidity: &Vec<crate::liquidity::Liquidity>) -> (r:
        Auction)
        requires
            forall|i: int| 0 <= i < liquidity@.len() ==> !(#[trigger] liquidity@[i].kind is ZeroEx),
        ensures
            is_wire_auction(*auction, liquidity@, r),
            distinct(keys(r.tokens@)),
            forall|i: int, j: int|
                0 <= i < liquidity@.len() && 0 <= j < liquidity@[i].kind.tokens().len() ==> has_key(
                    r.tokens@,
                    #[trigger] liquidity@[i].kind.tokens()[j],
                ),
    {
        let mut tokens: Vec<(H160, Token)> = Vec::new();
        let known: usize = auction.tokens.len();
        let mut i: usize = 0;
        while i < known
            invariant
                known == auction.tokens@.len(),
                0 <= i <= known,
                tokens@ == upserted(seed(auction.tokens@).take(i as int)),
                distinct(keys(tokens@)),
            decreases known - i,
        {
            let token: &competition::Token = &auction.tokens[i];
            proof {
                let items = seed(auction.tokens@);
                assert(items.take(i + 1).drop_last() =~= items.take(i as int));
                assert(items.take(i + 1).last() == (token.address, wire_token(*token)));
            }
            put(&mut tokens, token.address, token_to_wire(token));
            i = i + 1;
        }
        assert(seed(auction.tokens@).take(known as int) =~= seed(auction.tokens@));
        let ghost seeded = tokens@;

        let pools: usize = liquidity.len();
        let mut p: usize = 0;
        while p < pools
            invariant
                pools == liquidity@.len(),
                0 <= p <= pools,
                tokens@ == with_defaults(seeded, referenced(liquidity@.take(p as int))),
            decreases pools - p,
        {
            let wanted: Vec<H160> = liquidity[p].kind.token_list();
            let ghost before = referenced(liquidity@.take(p as int));
            let count: usize = wanted.len();
            let mut j: usize = 0;
            assert(before + wanted@.take(0) =~= before);
            while j < count
                invariant
                    count == wanted@.len(),
                    0 <= j <= count,
                    tokens@ == with_defaults(seeded, before + wanted@.take(j as int)),
                decreases count - j,
            {
                proof {
                    let next = before + wanted@.take(j + 1);
                    assert(next.drop_last() =~= before + wanted@.take(j as int));
                    assert(next.last() == wanted@[j as int]);
                }
                or_default(&mut tokens, wanted[j]);
                j = j + 1;
            }
            proof {
                assert(wanted@.take(count as int) =~= wanted@);
                assert(liquidity@.take(p + 1).drop_last() =~= liquidity@.take(p as int));
                assert(liquidity@.take(p + 1).last() == liquidity@[p as int]);
            }
            p = p + 1;
        }
        assert(liquidity@.take(pools as int) =~= liquidity@);

        let mut orders: Vec<Order> = Vec::new();
        let open: usize = auction.orders.len();
        let mut o: usize = 0;
        while o < open
            invariant
                open == auction.orders@.len(),
                0 <= o <= open,
                orders@ == Seq::new(o as nat, |k: int| wire_order(auction.orders@[k])),
            decreases open - o,
        {
            orders.push(order_to_wire(&auction.orders[o]));
            assert(orders@ =~= Seq::new((o + 1) as nat, |k: int| wire_order(auction.orders@[k])));
            o = o + 1;
        }

        let mut encoded: Vec<Liquidity> = Vec::new();
        let mut q: usize = 0;
        while q < pools
            invariant
                pools == liquidity@.len(),
                0 <= q <= pools,
                encoded@.len() == q,
                forall|i: int| 0 <= i < liquidity@.len() ==> !(#[trigger] liquidity@[i].kind is ZeroEx),
                forall|k: int| 0 <= k < q ==> encodes(#[trigger] liquidity@[k], encoded@[k]),
            decreases pools - q,
        {
            encoded.push(Liquidity::from_domain(&liquidity[q]));
            q = q + 1;
        }

        let id: Option<String> = match auction.id {
            Some(number) => Some(number.to_string()),
            None => None,
        };
        proof {
            assert forall|i: int, j: int|
                0 <= i < liquidity@.len() && 0 <= j < liquidity@[i].kind.tokens().len() implies has_key(
                tokens@,
                #[trigger] liquidity@[i].kind.tokens()[j],
            ) by {
                lemma_token_completeness(auction.tokens@, liquidity@, i, j);
            }
            lemma_upserted_keys_distinct(seed(auction.tokens@));
            lemma_with_defaults(upserted(seed(auction.tokens@)), referenced(liquidity@));
        }
        Auction {
            id,
            tokens,
            orders,
            liquidity: encoded,
            effective_gas_price: auction.effective_gas_price,
            deadline: auction.deadline,
        }
    }
}

} // verus!
