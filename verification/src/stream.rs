//! Replaying a stream: each message, in order, updates the market cache and
//! yields a market book.
use vstd::prelude::*;
use crate::json::JsonValue;
use crate::market::{
    MarketCache, MarketBook, MarketView, market_initial, market_update, market_after_book,
    is_market_book,
};
use crate::parse::ParsedMessage;

verus! {

/// The market after the changes of one message published at `publish_time`.
/// The first change with a non-empty string `id` starts the market when there
/// is none yet; while there is none, changes are passed over.
pub open spec fn apply_changes(cache: Option<MarketView>, changes: Seq<JsonValue>, publish_time: i64) -> Option<MarketView>
    decreases changes.len(),
{
    if changes.len() == 0 {
        cache
    } else {
        apply_change(apply_changes(cache, changes.drop_last(), publish_time), changes.last(), publish_time)
    }
}

/// The market after one market change.
pub open spec fn apply_change(prev: Option<MarketView>, mc: JsonValue, publish_time: i64) -> Option<MarketView> {
    {
        let started = match prev {
            Some(m) => Some(m),
            None => match mc.field_str("id"@) {
                Some(id) => if id.len() > 0 {
                    Some(market_initial(id))
                } else {
                    None
                },
                None => None,
            },
        };
        match started {
            Some(m) => Some(market_update(m, mc, publish_time)),
            None => None,
        }
    }
}

/// What an optional cache holds.
pub open spec fn cache_view(c: Option<MarketCache>) -> Option<MarketView> {
    match c {
        Some(m) => Some(m@),
        None => None,
    }
}

/// Applies the changes of one message to the cache.
fn apply_message(cache: Option<MarketCache>, changes: &Vec<JsonValue>, publish_time: i64) -> (r: Option<MarketCache>)
    ensures
        cache_view(r) == apply_changes(cache_view(cache), changes@, publish_time),
{
    let mut cur = cache;
    let n = changes.len();
    let mut j: usize = 0;
    proof {
        assert(changes@.take(0) =~= Seq::<JsonValue>::empty());
    }
    while j < n
        invariant
            n == changes@.len(),
            j <= n,
            cache_view(cur) == apply_changes(cache_view(cache), changes@.take(j as int), publish_time),
        decreases n - j,
    {
        cur = apply_one(cur, &changes[j], publish_time);
        proof {
            assert(changes@.take(j + 1).drop_last() =~= changes@.take(j as int));
            assert(changes@.take(j + 1).last() == changes@[j as int]);
        }
        j = j + 1;
    }
    proof {
        assert(changes@.take(n as int) =~= changes@);
    }
    cur
}

/// Applies one market change to the cache.
fn apply_one(cur: Option<MarketCache>, mc: &JsonValue, publish_time: i64) -> (r: Option<MarketCache>)
    ensures
        cache_view(r) == apply_change(cache_view(cur), *mc, publish_time),
{
    match cur {
        Some(mut c) => {
            c.update(mc, publish_time);
            Some(c)
        },
        None => match mc.get_str("id") {
            Some(id) => if !id.is_empty() {
                let mut c = MarketCache::new(id.to_owned());
                c.update(mc, publish_time);
                Some(c)
            } else {
                None
            },
            None => None,
        },
    }
}

/// Replays parsed messages, yielding a market book per message.
pub struct PricesIterator {
    messages: Vec<ParsedMessage>,
    index: usize,
    cache: Option<MarketCache>,
}

impl PricesIterator {
    /// The messages, as publish times and market changes.
    pub closed spec fn messages(&self) -> Seq<(i64, Seq<JsonValue>)> {
        self.messages@.map_values(|m: ParsedMessage| (m.publish_time, m.market_changes@))
    }

    /// The number of messages replayed so far.
    pub closed spec fn position(&self) -> nat {
        self.index as nat
    }

    /// The market as replayed so far.
    pub closed spec fn market(&self) -> Option<MarketView> {
        cache_view(self.cache)
    }

    /// The iterator's internal invariant.
    #[verifier::type_invariant]
    closed spec fn wf(&self) -> bool {
        self.index <= self.messages@.len()
    }

    /// An iterator over `messages`, at the start, with no market yet.
    pub fn new(messages: Vec<ParsedMessage>) -> (r: PricesIterator)
        ensures
            r.messages() == messages@.map_values(|m: ParsedMessage| (m.publish_time, m.market_changes@)),
            r.position() == 0,
            r.market() is None,
    {
        PricesIterator { messages, index: 0, cache: None }
    }

    /// The number of messages.
    pub fn len(&self) -> (r: usize)
        ensures
            r == self.messages().len(),
    {
        self.messages.len()
    }

    /// Replays the next message and returns the market's book.  Nothing is
    /// returned once every message has been replayed, or while no market has
    /// been started.
    pub fn next_book(&mut self) -> (r: Option<MarketBook>)
        ensures
            final(self).messages() == old(self).messages(),
            old(self).position() >= old(self).messages().len() ==> r is None && final(self).position()
                == old(self).position() && final(self).market() == old(self).market(),
            old(self).position() < old(self).messages().len() ==> {
                let msg = old(self).messages()[old(self).position() as int];
                let m = apply_changes(old(self).market(), msg.1, msg.0);
                &&& final(self).position() == old(self).position() + 1
                &&& match m {
                    Some(mv) => r matches Some(b) && is_market_book(b, mv) && final(self).market()
                        == Some(market_after_book(mv)),
                    None => r is None && final(self).market() is None,
                }
            },
    {
        proof {
            use_type_invariant(&*self);
        }
        if self.index >= self.messages.len() {
            return None;
        }
        let i = self.index;
        self.index = i + 1;
        let mut cache: Option<MarketCache> = None;
        std::mem::swap(&mut cache, &mut self.cache);
        let publish_time = self.messages[i].publish_time;
        let next = apply_message(cache, &self.messages[i].market_changes, publish_time);
        match next {
            Some(mut c) => {
                let book = c.to_market_book();
                self.cache = Some(c);
                Some(book)
            },
            None => {
                self.cache = None;
                None
            },
        }
    }
}

} // verus!
