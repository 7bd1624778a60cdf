//! Price ladders: the sizes available (or traded) at each price of a runner.
//!
//! A ladder is a map from price to size.  An update names a price and a size;
//! a zero size removes the price from the ladder and any other size sets it.
//! Prices and sizes are binary64 values held as bit patterns
//! (see [`crate::floatbits`]); a price is looked up by its exact bit pattern.
use vstd::prelude::*;
use crate::floatbits::{spec_is_zero, spec_is_nan, spec_float_eq, spec_order_key, lemma_order_key_injective, is_zero, float_eq, order_key};
use crate::json::JsonValue;

verus! {

/// A price and the size available or traded at it.
#[derive(Clone, Copy, Debug, PartialEq, Eq, Structural)]
pub struct PriceSize {
    /// Bit pattern of the price.
    pub price: u64,
    /// Bit pattern of the size.
    pub size: u64,
}

impl PriceSize {
    /// The field named `key`: `price` or `size`; nothing for any other name.
    pub fn get_item(&self, key: &str) -> (r: Option<u64>)
        ensures
            r == if key@ == "price"@ {
                Some(self.price)
            } else if key@ == "size"@ {
                Some(self.size)
            } else {
                None::<u64>
            },
    {
        if crate::text::str_eq(key, "price") {
            Some(self.price)
        } else if crate::text::str_eq(key, "size") {
            Some(self.size)
        } else {
            None
        }
    }
}

/// The generation that follows `g`; the counter wraps around at the top.
pub open spec fn next_generation(g: u64) -> u64 {
    if g == u64::MAX {
        0
    } else {
        (g + 1) as u64
    }
}

/// Advances a generation counter.
pub fn bump_generation(g: u64) -> (r: u64)
    ensures
        r == next_generation(g),
{
    if g == u64::MAX {
        0
    } else {
        g + 1
    }
}

/// Levels strictly ascending in the order of their prices.
pub open spec fn levels_sorted(s: Seq<PriceSize>) -> bool {
    forall|i: int, j: int|
        0 <= i < j < s.len() ==> spec_order_key(#[trigger] s[i].price) < spec_order_key(
            #[trigger] s[j].price,
        )
}

/// Levels strictly ascending by price, none of them with a zero size.
pub open spec fn levels_wf(s: Seq<PriceSize>) -> bool {
    &&& levels_sorted(s)
    &&& forall|i: int| 0 <= i < s.len() ==> !spec_is_zero(#[trigger] s[i].size)
}

/// Some level of `s` is at price `p`.
pub open spec fn has_price(s: Seq<PriceSize>, p: u64) -> bool {
    exists|i: int| 0 <= i < s.len() && s[i].price == p
}

/// The map from price to size that a sequence of levels stands for.
pub open spec fn levels_map(s: Seq<PriceSize>) -> Map<u64, u64> {
    Map::new(
        |p: u64| has_price(s, p),
        |p: u64| s[choose|i: int| 0 <= i < s.len() && s[i].price == p].size,
    )
}

/// `r` lists the levels of the map `m`, strictly ascending by price, or
/// strictly descending when `descending` holds.
pub open spec fn is_listing(r: Seq<PriceSize>, m: Map<u64, u64>, descending: bool) -> bool {
    &&& forall|i: int, j: int|
        #![trigger r[i], r[j]]
        0 <= i < j < r.len() ==> if descending {
            spec_order_key(r[j].price) < spec_order_key(r[i].price)
        } else {
            spec_order_key(r[i].price) < spec_order_key(r[j].price)
        }
    &&& forall|i: int|
        0 <= i < r.len() ==> m.contains_key(#[trigger] r[i].price) && m[r[i].price] == r[i].size
    &&& forall|p: u64| m.contains_key(p) ==> exists|i: int| 0 <= i < r.len() && r[i].price == p
}

/// The price and size that one ladder update carries: an array whose first two
/// elements are read as numbers, a non-number reading as zero.  Anything else
/// carries no update.
pub open spec fn update_level(u: JsonValue) -> Option<(u64, u64)> {
    match u.array_value() {
        Some(arr) => if arr.len() >= 2 {
            Some((arr[0].f64_value().unwrap_or(0), arr[1].f64_value().unwrap_or(0)))
        } else {
            None
        },
        None => None,
    }
}

/// Setting price `p` to size `size`: a zero size removes the price.  The flag
/// tells whether the ladder changed: a removal changes it when the price was
/// there, a setting unless the price already held an equal size.
pub open spec fn level_step(m: Map<u64, u64>, p: u64, size: u64) -> (Map<u64, u64>, bool) {
    if spec_is_zero(size) {
        (m.remove(p), m.contains_key(p))
    } else {
        (m.insert(p, size), !(m.contains_key(p) && spec_float_eq(m[p], size)))
    }
}

/// One ladder update applied to `m`.
pub open spec fn ladder_step(m: Map<u64, u64>, u: JsonValue) -> (Map<u64, u64>, bool) {
    match update_level(u) {
        Some((p, size)) => level_step(m, p, size),
        None => (m, false),
    }
}

/// A batch of ladder updates applied in order; the flag tells whether any of
/// them changed the ladder.
pub open spec fn ladder_fold(m: Map<u64, u64>, us: Seq<JsonValue>) -> (Map<u64, u64>, bool)
    decreases us.len(),
{
    if us.len() == 0 {
        (m, false)
    } else {
        let prev = ladder_fold(m, us.drop_last());
        let step = ladder_step(prev.0, us.last());
        (step.0, prev.1 || step.1)
    }
}

/// The map of sorted levels holds exactly their prices, each with its size.
pub proof fn lemma_levels_map(s: Seq<PriceSize>)
    requires
        levels_sorted(s),
    ensures
        forall|i: int|
            0 <= i < s.len() ==> levels_map(s).contains_key(#[trigger] s[i].price)
                && levels_map(s)[s[i].price] == s[i].size,
        forall|p: u64| levels_map(s).contains_key(p) <==> has_price(s, p),
{
    assert forall|i: int| 0 <= i < s.len() implies levels_map(s).contains_key(
        #[trigger] s[i].price,
    ) && levels_map(s)[s[i].price] == s[i].size by {
        let p = s[i].price;
        assert(has_price(s, p));
        let j = choose|j: int| 0 <= j < s.len() && s[j].price == p;
        if j < i {
            assert(spec_order_key(s[j].price) < spec_order_key(s[i].price));
        }
        if i < j {
            assert(spec_order_key(s[i].price) < spec_order_key(s[j].price));
        }
    }
}

/// Two sorted level sequences with the same price-size pairs stand for the same map.
proof fn lemma_levels_map_ext(s: Seq<PriceSize>, m: Map<u64, u64>)
    requires
        levels_sorted(s),
        forall|i: int|
            0 <= i < s.len() ==> m.contains_key(#[trigger] s[i].price) && m[s[i].price]
                == s[i].size,
        forall|p: u64| m.contains_key(p) ==> has_price(s, p),
    ensures
        levels_map(s) == m,
{
    lemma_levels_map(s);
    assert forall|p: u64| #[trigger] levels_map(s).contains_key(p) implies levels_map(s)[p]
        == m[p] by {
        let i = choose|i: int| 0 <= i < s.len() && s[i].price == p;
        assert(levels_map(s).contains_key(s[i].price));
    }
    assert(levels_map(s) =~= m);
}

/// The levels of a ladder: the price-size pairs strictly ascending by price.
pub(crate) struct Levels {
    entries: Vec<PriceSize>,
}

impl Levels {
    /// The levels in ascending order of price.
    pub closed spec fn seq(&self) -> Seq<PriceSize> {
        self.entries@
    }

    /// The map from price to size.
    pub open spec fn map(&self) -> Map<u64, u64> {
        levels_map(self.seq())
    }

    /// The levels are sorted and none is empty.
    pub open spec fn wf(&self) -> bool {
        levels_wf(self.seq())
    }

    /// No levels.
    pub fn new() -> (r: Levels)
        ensures
            r.wf(),
            r.map() == Map::<u64, u64>::empty(),
    {
        let r = Levels { entries: Vec::new() };
        assert(r.map() =~= Map::<u64, u64>::empty());
        r
    }

    /// The first position whose price is not below `p`, and whether `p` is there.
    fn position(&self, p: u64) -> (r: (usize, bool))
        requires
            self.wf(),
        ensures
            r.0 <= self.seq().len(),
            forall|j: int| 0 <= j < r.0 ==> spec_order_key(#[trigger] self.seq()[j].price)
                < spec_order_key(p),
            r.1 ==> r.0 < self.seq().len() && self.seq()[r.0 as int].price == p,
            !r.1 ==> r.0 == self.seq().len() || spec_order_key(p) < spec_order_key(
                self.seq()[r.0 as int].price,
            ),
    {
        let kp = order_key(p);
        let n = self.entries.len();
        let mut lo: usize = 0;
        let mut hi: usize = n;
        while lo < hi
            invariant
                n == self.seq().len(),
                levels_sorted(self.seq()),
                lo <= hi <= n,
                kp == spec_order_key(p),
                forall|j: int| 0 <= j < lo ==> spec_order_key(#[trigger] self.seq()[j].price) < kp,
                forall|j: int| hi <= j < n ==> kp <= spec_order_key(#[trigger] self.seq()[j].price),
            decreases hi - lo,
        {
            let mid = lo + (hi - lo) / 2;
            if order_key(self.entries[mid].price) < kp {
                proof {
                    assert forall|j: int| 0 <= j <= mid implies spec_order_key(
                        #[trigger] self.seq()[j].price,
                    ) < kp by {
                        if j < mid {
                            assert(spec_order_key(self.seq()[j].price) < spec_order_key(
                                self.seq()[mid as int].price,
                            ));
                        }
                    }
                }
                lo = mid + 1;
            } else {
                proof {
                    assert forall|j: int| mid <= j < n implies kp <= spec_order_key(
                        #[trigger] self.seq()[j].price,
                    ) by {
                        if j > mid {
                            assert(spec_order_key(self.seq()[mid as int].price) < spec_order_key(
                                self.seq()[j].price,
                            ));
                        }
                    }
                }
                hi = mid;
            }
        }
        let i = lo;
        if i < n && self.entries[i].price == p {
            (i, true)
        } else {
            proof {
                if i < n {
                    lemma_order_key_injective(p, self.seq()[i as int].price);
                }
            }
            (i, false)
        }
    }

    /// Sets price `p` to `size`, removing it when the size is zero; tells
    /// whether the ladder changed.
    pub fn set(&mut self, p: u64, size: u64) -> (changed: bool)
        requires
            old(self).wf(),
        ensures
            final(self).wf(),
            (final(self).map(), changed) == level_step(old(self).map(), p, size),
    {
        let (i, found) = self.position(p);
        let ghost s = self.seq();
        let ghost m = self.map();
        proof {
            lemma_levels_map(s);
        }
        if is_zero(size) {
            if found {
                self.entries.remove(i);
                proof {
                    let s2 = self.seq();
                    assert(s2 =~= s.remove(i as int));
                    assert(levels_wf(s2)) by {
                        assert forall|a: int, b: int| 0 <= a < b < s2.len() implies spec_order_key(
                            #[trigger] s2[a].price,
                        ) < spec_order_key(#[trigger] s2[b].price) by {
                            let a0 = if a < i { a } else { a + 1 };
                            let b0 = if b < i { b } else { b + 1 };
                            assert(s2[a] == s[a0] && s2[b] == s[b0]);
                            assert(spec_order_key(s[a0].price) < spec_order_key(s[b0].price));
                        }
                        assert forall|a: int| 0 <= a < s2.len() implies !spec_is_zero(
                            #[trigger] s2[a].size,
                        ) by {
                            let a0 = if a < i { a } else { a + 1 };
                            assert(s2[a] == s[a0]);
                        }
                    }
                    let m2 = m.remove(p);
                    assert forall|a: int| 0 <= a < s2.len() implies m2.contains_key(
                        #[trigger] s2[a].price,
                    ) && m2[s2[a].price] == s2[a].size by {
                        let a0 = if a < i { a } else { a + 1 };
                        assert(s2[a] == s[a0]);
                        assert(m.contains_key(s[a0].price));
                        if s[a0].price == p {
                            assert(spec_order_key(s[a0].price) != spec_order_key(s[i as int].price));
                        }
                    }
                    assert forall|q: u64| m2.contains_key(q) implies has_price(s2, q) by {
                        assert(has_price(s, q));
                        let a0 = choose|a0: int| 0 <= a0 < s.len() && s[a0].price == q;
                        let a = if a0 < i { a0 } else { a0 - 1 };
                        assert(s2[a].price == q);
                    }
                    lemma_levels_map_ext(s2, m2);
                }
                true
            } else {
                proof {
                    assert(!m.contains_key(p)) by {
                        if m.contains_key(p) {
                            let a = choose|a: int| 0 <= a < s.len() && s[a].price == p;
                            if a < i {
                                assert(spec_order_key(s[a].price) < spec_order_key(p));
                            } else {
                                assert(i < s.len());
                                if a > i {
                                    assert(spec_order_key(s[i as int].price) < spec_order_key(
                                        s[a].price,
                                    ));
                                }
                            }
                        }
                    }
                    assert(m.remove(p) =~= m);
                }
                false
            }
        } else if found {
            let same = float_eq(self.entries[i].size, size);
            self.entries.set(i, PriceSize { price: p, size: size });
            proof {
                let s2 = self.seq();
                assert(s2 =~= s.update(i as int, PriceSize { price: p, size: size }));
                assert(levels_wf(s2)) by {
                    assert forall|a: int, b: int| 0 <= a < b < s2.len() implies spec_order_key(
                        #[trigger] s2[a].price,
                    ) < spec_order_key(#[trigger] s2[b].price) by {
                        assert(s2[a].price == s[a].price && s2[b].price == s[b].price);
                    }
                }
                let m2 = m.insert(p, size);
                assert forall|a: int| 0 <= a < s2.len() implies m2.contains_key(
                    #[trigger] s2[a].price,
                ) && m2[s2[a].price] == s2[a].size by {
                    if a != i {
                        assert(s2[a] == s[a]);
                        assert(spec_order_key(s[a].price) != spec_order_key(s[i as int].price));
                    }
                }
                assert forall|q: u64| m2.contains_key(q) implies has_price(s2, q) by {
                    if q == p {
                        assert(s2[i as int].price == q);
                    } else {
                        let a = choose|a: int| 0 <= a < s.len() && s[a].price == q;
                        assert(s2[a].price == q);
                    }
                }
                lemma_levels_map_ext(s2, m2);
            }
            !same
        } else {
            self.entries.insert(i, PriceSize { price: p, size: size });
            proof {
                let x = PriceSize { price: p, size: size };
                let s2 = self.seq();
                assert(s2 =~= s.insert(i as int, x));
                assert(levels_wf(s2)) by {
                    assert forall|a: int, b: int| 0 <= a < b < s2.len() implies spec_order_key(
                        #[trigger] s2[a].price,
                    ) < spec_order_key(#[trigger] s2[b].price) by {
                        if b < i {
                            assert(s2[a] == s[a] && s2[b] == s[b]);
                        } else if b == i {
                            assert(s2[a] == s[a]);
                        } else if a == i {
                            assert(s2[b] == s[b - 1]);
                            if b - 1 > i {
                                assert(spec_order_key(s[i as int].price) < spec_order_key(
                                    s[b - 1].price,
                                ));
                            }
                        } else if a < i {
                            assert(s2[a] == s[a] && s2[b] == s[b - 1]);
                        } else {
                            assert(s2[a] == s[a - 1] && s2[b] == s[b - 1]);
                        }
                    }
                    assert forall|a: int| 0 <= a < s2.len() implies !spec_is_zero(
                        #[trigger] s2[a].size,
                    ) by {
                        if a < i {
                            assert(s2[a] == s[a]);
                        } else if a > i {
                            assert(s2[a] == s[a - 1]);
                        }
                    }
                }
                assert(!m.contains_key(p)) by {
                    if m.contains_key(p) {
                        let a = choose|a: int| 0 <= a < s.len() && s[a].price == p;
                        if a < i {
                            assert(spec_order_key(s[a].price) < spec_order_key(p));
                        } else {
                            assert(i < s.len());
                            if a > i {
                                assert(spec_order_key(s[i as int].price) < spec_order_key(
                                    s[a].price,
                                ));
                            }
                        }
                    }
                }
                let m2 = m.insert(p, size);
                assert forall|a: int| 0 <= a < s2.len() implies m2.contains_key(
                    #[trigger] s2[a].price,
                ) && m2[s2[a].price] == s2[a].size by {
                    if a < i {
                        assert(s2[a] == s[a]);
                        assert(m.contains_key(s[a].price));
                    } else if a > i {
                        assert(s2[a] == s[a - 1]);
                        assert(m.contains_key(s[a - 1].price));
                    }
                }
                assert forall|q: u64| m2.contains_key(q) implies has_price(s2, q) by {
                    if q == p {
                        assert(s2[i as int].price == q);
                    } else {
                        let a = choose|a: int| 0 <= a < s.len() && s[a].price == q;
                        if a < i {
                            assert(s2[a].price == q);
                        } else {
                            assert(s2[a + 1].price == q);
                        }
                    }
                }
                lemma_levels_map_ext(s2, m2);
            }
            true
        }
    }

    /// Applies a batch of ladder updates in order; tells whether any changed the ladder.
    pub fn apply_updates(&mut self, updates: &Vec<JsonValue>) -> (changed: bool)
        requires
            old(self).wf(),
        ensures
            final(self).wf(),
            (final(self).map(), changed) == ladder_fold(old(self).map(), updates@),
    {
        let ghost m0 = self.map();
        let mut changed = false;
        let n = updates.len();
        let mut i: usize = 0;
        proof {
            assert(updates@.take(0) =~= Seq::<JsonValue>::empty());
        }
        while i < n
            invariant
                n == updates@.len(),
                i <= n,
                self.wf(),
                (self.map(), changed) == ladder_fold(m0, updates@.take(i as int)),
            decreases n - i,
        {
            let update = &updates[i];
            if let Some(arr) = update.as_array() {
                if arr.len() >= 2 {
                    let price = arr[0].as_f64().unwrap_or(0);
                    let size = arr[1].as_f64().unwrap_or(0);
                    if self.set(price, size) {
                        changed = true;
                    }
                }
            }
            proof {
                assert(updates@.take(i + 1).drop_last() =~= updates@.take(i as int));
                assert(updates@.take(i + 1).last() == updates@[i as int]);
            }
            i = i + 1;
        }
        proof {
            assert(updates@.take(n as int) =~= updates@);
        }
        changed
    }

    /// The levels, ascending by price or, when `descending` holds, descending.
    pub fn listing(&self, descending: bool) -> (r: Vec<PriceSize>)
        requires
            self.wf(),
        ensures
            is_listing(r@, self.map(), descending),
    {
        let ghost s = self.seq();
        proof {
            lemma_levels_map(s);
        }
        let n = self.entries.len();
        let mut r: Vec<PriceSize> = Vec::with_capacity(n);
        let mut i: usize = 0;
        while i < n
            invariant
                n == s.len(),
                s == self.seq(),
                levels_sorted(s),
                i <= n,
                r@.len() == i,
                forall|j: int|
                    0 <= j < i ==> #[trigger] r@[j] == if descending {
                        s[n - 1 - j]
                    } else {
                        s[j]
                    },
            decreases n - i,
        {
            if descending {
                r.push(self.entries[n - 1 - i]);
            } else {
                r.push(self.entries[i]);
            }
            i = i + 1;
        }
        proof {
            let m = self.map();
            assert forall|a: int, b: int| #![trigger r@[a], r@[b]] 0 <= a < b < r@.len() implies if descending {
                spec_order_key(r@[b].price) < spec_order_key(r@[a].price)
            } else {
                spec_order_key(r@[a].price) < spec_order_key(r@[b].price)
            } by {
                if descending {
                    assert(spec_order_key(s[n - 1 - b].price) < spec_order_key(s[n - 1 - a].price));
                } else {
                    assert(spec_order_key(s[a].price) < spec_order_key(s[b].price));
                }
            }
            assert forall|a: int| 0 <= a < r@.len() implies m.contains_key(#[trigger] r@[a].price)
                && m[r@[a].price] == r@[a].size by {
                if descending {
                    assert(r@[a] == s[n - 1 - a]);
                } else {
                    assert(r@[a] == s[a]);
                }
            }
            assert forall|q: u64| m.contains_key(q) implies exists|a: int|
                0 <= a < r@.len() && r@[a].price == q by {
                let k = choose|k: int| 0 <= k < s.len() && s[k].price == q;
                if descending {
                    assert(r@[n - 1 - k] == s[k]);
                } else {
                    assert(r@[k] == s[k]);
                }
            }
        }
        r
    }
}

/// A ladder of prices available to back or to lay, with its display order and
/// a generation counter that advances whenever an update changes it.
pub struct PriceLadder {
    levels: Levels,
    reverse: bool,
    generation: u64,
}

impl PriceLadder {
    /// The ladder as a map from price to size.
    pub closed spec fn levels(&self) -> Map<u64, u64> {
        self.levels.map()
    }

    /// Whether the ladder lists its prices in descending order.
    pub closed spec fn is_reverse(&self) -> bool {
        self.reverse
    }

    /// The generation counter.
    pub closed spec fn spec_generation(&self) -> u64 {
        self.generation
    }

    /// The ladder's internal invariant.
    #[verifier::type_invariant]
    pub closed spec fn wf(&self) -> bool {
        self.levels.wf()
    }

    /// An empty ladder, listed in descending order when `reverse` holds.
    pub fn new(reverse: bool) -> (r: PriceLadder)
        ensures
            r.levels() == Map::<u64, u64>::empty(),
            r.is_reverse() == reverse,
            r.spec_generation() == 0,
    {
        PriceLadder { levels: Levels::new(), reverse, generation: 0 }
    }

    /// Applies a batch of updates; the generation advances when the ladder changed.
    pub fn update(&mut self, updates: &Vec<JsonValue>) -> (changed: bool)
        ensures
            (final(self).levels(), changed) == ladder_fold(old(self).levels(), updates@),
            final(self).is_reverse() == old(self).is_reverse(),
            final(self).spec_generation() == if changed {
                next_generation(old(self).spec_generation())
            } else {
                old(self).spec_generation()
            },
    {
        proof {
            use_type_invariant(&*self);
        }
        let mut levels = Levels::new();
        std::mem::swap(&mut levels, &mut self.levels);
        let changed = levels.apply_updates(updates);
        self.levels = levels;
        if changed {
            self.generation = bump_generation(self.generation);
        }
        changed
    }

    /// The ladder's levels in its display order.
    pub fn to_price_sizes(&self) -> (r: Vec<PriceSize>)
        ensures
            is_listing(r@, self.levels(), self.is_reverse()),
    {
        proof {
            use_type_invariant(self);
        }
        self.levels.listing(self.reverse)
    }

    /// The generation counter.
    pub fn generation(&self) -> (r: u64)
        ensures
            r == self.spec_generation(),
    {
        self.generation
    }

    /// The sizes of the ladder are never zero.
    pub proof fn lemma_no_empty_level(&self)
        requires
            self.wf(),
        ensures
            forall|p: u64| #[trigger] self.levels().contains_key(p) ==> !spec_is_zero(self.levels()[p]),
    {
        lemma_levels_map(self.levels.seq());
    }
}

/// The traded volume of a runner: the size traded at each price, listed in
/// ascending order of price, with a generation counter.
pub struct TradedLadder {
    levels: Levels,
    generation: u64,
}

impl TradedLadder {
    /// The traded volume as a map from price to size.
    pub closed spec fn levels(&self) -> Map<u64, u64> {
        self.levels.map()
    }

    /// The generation counter.
    pub closed spec fn spec_generation(&self) -> u64 {
        self.generation
    }

    /// The ladder's internal invariant.
    #[verifier::type_invariant]
    pub closed spec fn wf(&self) -> bool {
        self.levels.wf()
    }

    /// An empty traded ladder.
    pub fn new() -> (r: TradedLadder)
        ensures
            r.levels() == Map::<u64, u64>::empty(),
            r.spec_generation() == 0,
    {
        TradedLadder { levels: Levels::new(), generation: 0 }
    }

    /// Applies a batch of updates; the generation advances when the ladder changed.
    pub fn update(&mut self, updates: &Vec<JsonValue>) -> (changed: bool)
        ensures
            (final(self).levels(), changed) == ladder_fold(old(self).levels(), updates@),
            final(self).spec_generation() == if changed {
                next_generation(old(self).spec_generation())
            } else {
                old(self).spec_generation()
            },
    {
        proof {
            use_type_invariant(&*self);
        }
        let mut levels = Levels::new();
        std::mem::swap(&mut levels, &mut self.levels);
        let changed = levels.apply_updates(updates);
        self.levels = levels;
        if changed {
            self.generation = bump_generation(self.generation);
        }
        changed
    }

    /// The traded levels in ascending order of price.
    pub fn to_price_sizes(&self) -> (r: Vec<PriceSize>)
        ensures
            is_listing(r@, self.levels(), false),
    {
        proof {
            use_type_invariant(self);
        }
        self.levels.listing(false)
    }

    /// The generation counter.
    pub fn generation(&self) -> (r: u64)
        ensures
            r == self.spec_generation(),
    {
        self.generation
    }

    /// The sizes of the ladder are never zero.
    pub proof fn lemma_no_empty_level(&self)
        requires
            self.wf(),
        ensures
            forall|p: u64| #[trigger] self.levels().contains_key(p) ==> !spec_is_zero(self.levels()[p]),
    {
        lemma_levels_map(self.levels.seq());
    }
}

/// The last update of a batch that names price `p`: nothing when none does,
/// otherwise the size it sets (nothing for a removal).
pub open spec fn last_set(us: Seq<JsonValue>, p: u64) -> Option<Option<u64>>
    decreases us.len(),
{
    if us.len() == 0 {
        None
    } else {
        match update_level(us.last()) {
            Some((q, size)) if q == p => Some(
                if spec_is_zero(size) {
                    None
                } else {
                    Some(size)
                },
            ),
            _ => last_set(us.drop_last(), p),
        }
    }
}

/// A batch leaves each price as its last update for that price set it, and
/// leaves the prices that no update names as they were.
pub proof fn lemma_ladder_fold_last_set(m: Map<u64, u64>, us: Seq<JsonValue>)
    ensures
        forall|p: u64|
            #![trigger ladder_fold(m, us).0.contains_key(p)]
            #![trigger last_set(us, p)]
            match last_set(us, p) {
                None => ladder_fold(m, us).0.contains_key(p) == m.contains_key(p) && (m.contains_key(p)
                    ==> ladder_fold(m, us).0[p] == m[p]),
                Some(None) => !ladder_fold(m, us).0.contains_key(p),
                Some(Some(size)) => ladder_fold(m, us).0.contains_key(p) && ladder_fold(m, us).0[p]
                    == size,
            },
    decreases us.len(),
{
    if us.len() > 0 {
        lemma_ladder_fold_last_set(m, us.drop_last());
        let prev = ladder_fold(m, us.drop_last());
        assert forall|p: u64| #![trigger ladder_fold(m, us).0.contains_key(p)] #![trigger last_set(us, p)]
            match last_set(us, p) {
                None => ladder_fold(m, us).0.contains_key(p) == m.contains_key(p) && (m.contains_key(p)
                    ==> ladder_fold(m, us).0[p] == m[p]),
                Some(None) => !ladder_fold(m, us).0.contains_key(p),
                Some(Some(size)) => ladder_fold(m, us).0.contains_key(p) && ladder_fold(m, us).0[p]
                    == size,
            } by {
            assert(last_set(us.drop_last(), p) == last_set(us.drop_last(), p));
            assert(prev.0.contains_key(p) == prev.0.contains_key(p));
        }
    }
}

/// Applying a batch of ladder updates twice leaves the ladder as applying it once.
pub proof fn lemma_ladder_batch_idempotent(m: Map<u64, u64>, us: Seq<JsonValue>)
    ensures
        ladder_fold(ladder_fold(m, us).0, us).0 == ladder_fold(m, us).0,
{
    let once = ladder_fold(m, us).0;
    let twice = ladder_fold(once, us).0;
    lemma_ladder_fold_last_set(m, us);
    lemma_ladder_fold_last_set(once, us);
    assert forall|p: u64| #![trigger twice.contains_key(p)] twice.contains_key(p) == once.contains_key(p) && (
    twice.contains_key(p) ==> twice[p] == once[p]) by {
        assert(last_set(us, p) == last_set(us, p));
        assert(ladder_fold(m, us).0.contains_key(p) == once.contains_key(p));
        assert(ladder_fold(once, us).0.contains_key(p) == twice.contains_key(p));
    }
    assert(twice =~= once);
}

/// A batch that reports no change leaves the ladder as it was.
pub proof fn lemma_ladder_unchanged_when_unreported(m: Map<u64, u64>, us: Seq<JsonValue>)
    ensures
        !ladder_fold(m, us).1 ==> ladder_fold(m, us).0 == m,
    decreases us.len(),
{
    if us.len() > 0 {
        lemma_ladder_unchanged_when_unreported(m, us.drop_last());
        let prev = ladder_fold(m, us.drop_last());
        match update_level(us.last()) {
            Some((p, size)) => {
                if spec_is_zero(size) {
                    if !prev.0.contains_key(p) {
                        assert(prev.0.remove(p) =~= prev.0);
                    }
                } else if prev.0.contains_key(p) && spec_float_eq(prev.0[p], size) {
                    assert(prev.0[p] == size);
                    assert(prev.0.insert(p, size) =~= prev.0);
                }
            },
            None => {},
        }
    }
}

/// The ladder update `u` names a NaN price.
pub open spec fn names_nan_price(u: JsonValue) -> bool {
    match update_level(u) {
        Some((p, _)) => spec_is_nan(p),
        None => false,
    }
}

/// A ladder holds no level at a NaN price as long as no update names one: a
/// batch of updates that names no NaN price, applied to a ladder without such
/// a level, leaves none.
pub proof fn lemma_ladder_no_nan_price(m: Map<u64, u64>, us: Seq<JsonValue>)
    requires
        forall|p: u64| m.contains_key(p) ==> !spec_is_nan(p),
        forall|i: int| 0 <= i < us.len() ==> !names_nan_price(#[trigger] us[i]),
    ensures
        forall|p: u64| ladder_fold(m, us).0.contains_key(p) ==> !spec_is_nan(p),
    decreases us.len(),
{
    if us.len() > 0 {
        let init = us.drop_last();
        assert forall|i: int| 0 <= i < init.len() implies !names_nan_price(#[trigger] init[i]) by {
            assert(init[i] == us[i]);
        }
        lemma_ladder_no_nan_price(m, init);
        assert(!names_nan_price(us[us.len() - 1]));
    }
}

/// A ladder update read from JSON text names no NaN price: a number it
/// carries is no NaN, and a price that is not a number reads as zero.
pub proof fn lemma_nan_free_update(u: JsonValue)
    requires
        u.nan_free(),
    ensures
        !names_nan_price(u),
{
    if let JsonValue::Array(arr) = u {
        if arr@.len() >= 2 {
            assert(arr@[0].nan_free());
            assert((0u64 & 0x7ff0_0000_0000_0000u64) == 0u64) by (bit_vector);
        }
    }
}

/// Ladder updates read from JSON text never put a NaN price in a ladder:
/// applied to a ladder without a level at a NaN price, they leave none.
pub proof fn lemma_ladder_no_nan_price_from_json(m: Map<u64, u64>, us: Seq<JsonValue>)
    requires
        forall|p: u64| m.contains_key(p) ==> !spec_is_nan(p),
        forall|i: int| 0 <= i < us.len() ==> (#[trigger] us[i]).nan_free(),
    ensures
        forall|p: u64| ladder_fold(m, us).0.contains_key(p) ==> !spec_is_nan(p),
{
    assert forall|i: int| 0 <= i < us.len() implies !names_nan_price(#[trigger] us[i]) by {
        lemma_nan_free_update(us[i]);
    }
    lemma_ladder_no_nan_price(m, us);
}

/// A ladder has exactly one listing in each direction.
pub proof fn lemma_listing_unique(a: Seq<PriceSize>, b: Seq<PriceSize>, m: Map<u64, u64>, descending: bool)
    requires
        is_listing(a, m, descending),
        is_listing(b, m, descending),
    ensures
        a == b,
    decreases a.len(),
{
    if a.len() == 0 {
        if b.len() > 0 {
            assert(m.contains_key(b[0].price));
        }
        assert(a =~= b);
    } else {
        assert(m.contains_key(a[0].price));
        assert(b.len() > 0);
        let x = a.last();
        let y = b.last();
        assert(m.contains_key(a[a.len() - 1].price));
        assert(m.contains_key(b[b.len() - 1].price));
        let j = choose|j: int| 0 <= j < b.len() && b[j].price == x.price;
        let i = choose|i: int| 0 <= i < a.len() && a[i].price == y.price;
        if j < b.len() - 1 {
            assert(b[j] == b[j] && b[b.len() - 1] == y);
        }
        if i < a.len() - 1 {
            assert(a[i] == a[i] && a[a.len() - 1] == x);
        }
        assert(x.price == y.price);
        assert(x == y);
        let m2 = m.remove(x.price);
        let a2 = a.drop_last();
        let b2 = b.drop_last();
        assert(is_listing(a2, m2, descending)) by {
            assert forall|p: int, q: int| #![trigger a2[p], a2[q]] 0 <= p < q < a2.len() implies if descending {
                spec_order_key(a2[q].price) < spec_order_key(a2[p].price)
            } else {
                spec_order_key(a2[p].price) < spec_order_key(a2[q].price)
            } by {
                assert(a2[p] == a[p] && a2[q] == a[q]);
            }
            assert forall|p: int| 0 <= p < a2.len() implies m2.contains_key(#[trigger] a2[p].price)
                && m2[a2[p].price] == a2[p].size by {
                assert(a2[p] == a[p]);
                assert(a[p] == a[p] && a[a.len() - 1] == x);
            }
            assert forall|q: u64| m2.contains_key(q) implies exists|p: int| 0 <= p < a2.len() && a2[p].price == q by {
                let p = choose|p: int| 0 <= p < a.len() && a[p].price == q;
                assert(a2[p].price == q);
            }
        }
        assert(is_listing(b2, m2, descending)) by {
            assert forall|p: int, q: int| #![trigger b2[p], b2[q]] 0 <= p < q < b2.len() implies if descending {
                spec_order_key(b2[q].price) < spec_order_key(b2[p].price)
            } else {
                spec_order_key(b2[p].price) < spec_order_key(b2[q].price)
            } by {
                assert(b2[p] == b[p] && b2[q] == b[q]);
            }
            assert forall|p: int| 0 <= p < b2.len() implies m2.contains_key(#[trigger] b2[p].price)
                && m2[b2[p].price] == b2[p].size by {
                assert(b2[p] == b[p]);
                assert(b[p] == b[p] && b[b.len() - 1] == y);
            }
            assert forall|q: u64| m2.contains_key(q) implies exists|p: int| 0 <= p < b2.len() && b2[p].price == q by {
                let p = choose|p: int| 0 <= p < b.len() && b[p].price == q;
                assert(b2[p].price == q);
            }
        }
        lemma_listing_unique(a2, b2, m2, descending);
        assert(a =~= a2.push(x));
        assert(b =~= b2.push(y));
    }
}

} // verus!
