//! The market cache: the state of one market built up from stream messages,
//! and the market books made from it.
use vstd::prelude::*;
use crate::definition::{
    DefinitionFields, StatusFields, StatusView, DefFieldsView, DefRunnerView, DefinitionView,
    MarketDefinition, MarketDefinitionRunner, status_after, def_fields_after, def_fields_initial,
    def_runner_of, def_runners_view, def_runners_from_json,
};
use crate::json::JsonValue;
use crate::ladder::{next_generation, bump_generation};
use crate::runner::{
    RunnerCache, RunnerView, RunnerBook, runner_update, runner_definition_update, runner_initial,
    runner_after_book, is_book_of,
};
use crate::text::{str_eq, set_if};

verus! {

/// The key of a runner: its selection id and its handicap in hundredths.
pub type RunnerKey = (i64, i64);

/// Keys are ordered by selection id, then by handicap.
pub open spec fn key_lt(a: RunnerKey, b: RunnerKey) -> bool {
    a.0 < b.0 || (a.0 == b.0 && a.1 < b.1)
}

/// The key a runner change or definition runner is filed under: its id, and
/// its handicap (zero when absent) in hundredths.
pub open spec fn runner_key_of(rc: JsonValue) -> Option<RunnerKey> {
    match rc.field_i64("id"@) {
        Some(id) => Some((id, rc.field_hundredths("hc"@).unwrap_or(0))),
        None => None,
    }
}

/// A runner after a runner change (`from_definition` false) or after its entry
/// in a market definition (`from_definition` true).
pub open spec fn runner_apply(r: RunnerView, rc: JsonValue, from_definition: bool) -> RunnerView {
    if from_definition {
        runner_definition_update(r, rc).0
    } else {
        runner_update(r, rc).0
    }
}

/// The runners after one entry: an entry with an id updates the runner filed
/// under its key, creating it (with the entry's handicap) when it is new.
pub open spec fn runners_step(
    rs: Map<RunnerKey, RunnerView>,
    rc: JsonValue,
    from_definition: bool,
) -> Map<RunnerKey, RunnerView> {
    match runner_key_of(rc) {
        Some(k) => {
            let base = if rs.contains_key(k) {
                rs[k]
            } else {
                runner_initial(k.0, rc.field_f64("hc"@).unwrap_or(0))
            };
            rs.insert(k, runner_apply(base, rc, from_definition))
        },
        None => rs,
    }
}

/// The runners after a list of entries, applied in order.
pub open spec fn runners_fold(
    rs: Map<RunnerKey, RunnerView>,
    rcs: Seq<JsonValue>,
    from_definition: bool,
) -> Map<RunnerKey, RunnerView>
    decreases rcs.len(),
{
    if rcs.len() == 0 {
        rs
    } else {
        runners_step(runners_fold(rs, rcs.drop_last(), from_definition), rcs.last(), from_definition)
    }
}

/// The number of active runners.
pub open spec fn active_count(rs: Map<RunnerKey, RunnerView>) -> nat {
    rs.dom().filter(|k: RunnerKey| rs[k].status == "ACTIVE"@).len()
}

/// `ks` lists the keys of `dom` in strictly ascending order.
pub open spec fn is_key_listing(ks: Seq<RunnerKey>, dom: Set<RunnerKey>) -> bool {
    &&& forall|i: int, j: int| 0 <= i < j < ks.len() ==> key_lt(#[trigger] ks[i], #[trigger] ks[j])
    &&& forall|i: int| 0 <= i < ks.len() ==> dom.contains(#[trigger] ks[i])
    &&& forall|k: RunnerKey| dom.contains(k) ==> exists|i: int| 0 <= i < ks.len() && ks[i] == k
}

/// The keys of the runners in ascending order.
pub open spec fn sorted_keys(rs: Map<RunnerKey, RunnerView>) -> Seq<RunnerKey> {
    choose|ks: Seq<RunnerKey>| is_key_listing(ks, rs.dom())
}

/// A set of keys has at most one strictly ascending listing.
pub proof fn lemma_key_listing_unique(a: Seq<RunnerKey>, b: Seq<RunnerKey>, dom: Set<RunnerKey>)
    requires
        is_key_listing(a, dom),
        is_key_listing(b, dom),
    ensures
        a == b,
    decreases a.len(),
{
    if a.len() == 0 {
        if b.len() > 0 {
            assert(dom.contains(b[0]));
        }
        assert(a =~= b);
    } else {
        assert(dom.contains(a[0]));
        assert(b.len() > 0);
        let x = a.last();
        let y = b.last();
        assert(dom.contains(a[a.len() - 1]));
        assert(dom.contains(b[b.len() - 1]));
        let j = choose|j: int| 0 <= j < b.len() && b[j] == x;
        let i = choose|i: int| 0 <= i < a.len() && a[i] == y;
        if j < b.len() - 1 {
            assert(key_lt(b[j], b[b.len() - 1]));
        }
        if i < a.len() - 1 {
            assert(key_lt(a[i], a[a.len() - 1]));
        }
        assert(x == y);
        let d2 = dom.remove(x);
        let a2 = a.drop_last();
        let b2 = b.drop_last();
        assert(is_key_listing(a2, d2)) by {
            assert forall|p: int, q: int| 0 <= p < q < a2.len() implies key_lt(#[trigger] a2[p], #[trigger] a2[q]) by {
                assert(a2[p] == a[p] && a2[q] == a[q]);
            }
            assert forall|p: int| 0 <= p < a2.len() implies d2.contains(#[trigger] a2[p]) by {
                assert(a2[p] == a[p]);
                assert(key_lt(a[p], a[a.len() - 1]));
            }
            assert forall|k: RunnerKey| d2.contains(k) implies exists|p: int| 0 <= p < a2.len() && a2[p] == k by {
                let p = choose|p: int| 0 <= p < a.len() && a[p] == k;
                assert(a2[p] == k);
            }
        }
        assert(is_key_listing(b2, d2)) by {
            assert forall|p: int, q: int| 0 <= p < q < b2.len() implies key_lt(#[trigger] b2[p], #[trigger] b2[q]) by {
                assert(b2[p] == b[p] && b2[q] == b[q]);
            }
            assert forall|p: int| 0 <= p < b2.len() implies d2.contains(#[trigger] b2[p]) by {
                assert(b2[p] == b[p]);
                assert(key_lt(b[p], b[b.len() - 1]));
            }
            assert forall|k: RunnerKey| d2.contains(k) implies exists|p: int| 0 <= p < b2.len() && b2[p] == k by {
                let p = choose|p: int| 0 <= p < b.len() && b[p] == k;
                assert(b2[p] == k);
            }
        }
        lemma_key_listing_unique(a2, b2, d2);
        assert(a =~= a2.push(x));
        assert(b =~= b2.push(y));
    }
}

/// The state of a market as the cache holds it.
#[verifier::ext_equal]
pub ghost struct MarketView {
    pub market_id: Seq<char>,
    pub publish_time: i64,
    pub status: StatusView,
    pub number_of_active_runners: i32,
    pub number_of_runners: i32,
    pub number_of_winners: i32,
    pub total_matched: u64,
    pub version: i64,
    pub last_match_time: Option<i64>,
    pub runners: Map<RunnerKey, RunnerView>,
    pub definition: DefFieldsView,
    pub def_runners: Seq<DefRunnerView>,
    pub def_generation: u64,
    pub cached_definition: Option<DefinitionView>,
    pub cached_def_generation: u64,
}

/// The market after a market definition: its status fields, number of
/// winners, definition fields and version are taken from it, its generation
/// advances, and when it lists runners they become the definition runners and
/// each updates the runner it names.
pub open spec fn definition_update(m: MarketView, def: JsonValue) -> MarketView {
    let m1 = MarketView {
        status: status_after(m.status, def),
        number_of_winners: match def.field_i64("numberOfWinners"@) {
            Some(v) => v as i32,
            None => m.number_of_winners,
        },
        definition: def_fields_after(m.definition, def),
        version: set_if(m.version, def.field_i64("version"@)),
        def_generation: next_generation(m.def_generation),
        ..m
    };
    match def.field_array("runners"@) {
        Some(rs) => MarketView {
            def_runners: rs.map_values(|v: JsonValue| def_runner_of(v)),
            runners: runners_fold(m1.runners, rs, true),
            ..m1
        },
        None => m1,
    }
}

/// The market after a market change `mc` published at `publish_time`: an
/// image drops the runners first, then the change's definition (if any), its
/// status fields, traded volume, version and last match time are taken, its
/// runner changes applied, and the runner counts recomputed.
pub open spec fn market_update(m: MarketView, mc: JsonValue, publish_time: i64) -> MarketView {
    let m1 = MarketView {
        publish_time,
        runners: if mc.field_bool("img"@) == Some(true) {
            Map::empty()
        } else {
            m.runners
        },
        ..m
    };
    let m2 = match mc.field("marketDefinition"@) {
        Some(def) => definition_update(m1, def),
        None => m1,
    };
    let m3 = MarketView {
        status: status_after(m2.status, mc),
        total_matched: set_if(m2.total_matched, mc.field_f64("tv"@)),
        version: set_if(m2.version, mc.field_i64("version"@)),
        last_match_time: match mc.field_i64("lastMatchTime"@) {
            Some(v) => Some(v),
            None => m2.last_match_time,
        },
        ..m2
    };
    let rs = match mc.field_array("rc"@) {
        Some(rcs) => runners_fold(m3.runners, rcs, false),
        None => m3.runners,
    };
    MarketView {
        runners: rs,
        number_of_runners: rs.dom().len() as i32,
        number_of_active_runners: active_count(rs) as i32,
        ..m3
    }
}

/// A market not heard of yet.
pub open spec fn market_initial(market_id: Seq<char>) -> MarketView {
    MarketView {
        market_id,
        publish_time: 0,
        status: StatusView {
            status: "OPEN"@,
            bet_delay: 0,
            bsp_reconciled: false,
            complete: true,
            cross_matching: true,
            inplay: false,
            runners_voidable: false,
        },
        number_of_active_runners: 0,
        number_of_runners: 0,
        number_of_winners: 1,
        total_matched: 0,
        version: 0,
        last_match_time: None,
        runners: Map::empty(),
        definition: def_fields_initial(),
        def_runners: Seq::empty(),
        def_generation: 0,
        cached_definition: None,
        cached_def_generation: 0,
    }
}

/// The definition a market book shows: the one made for the previous book
/// while no definition has arrived since, otherwise one made from the current
/// state (nothing before any definition has arrived).
pub open spec fn book_definition(m: MarketView) -> Option<DefinitionView> {
    if m.cached_def_generation == m.def_generation {
        m.cached_definition
    } else {
        Some(current_definition(m))
    }
}

/// The market once a book has been made of it: the book's definition is kept
/// for the next book, and each runner is stamped as its book was made.
pub open spec fn market_after_book(m: MarketView) -> MarketView {
    MarketView {
        runners: m.runners.map_values(|r: RunnerView| runner_after_book(r)),
        cached_definition: book_definition(m),
        cached_def_generation: m.def_generation,
        ..m
    }
}

/// The definition made from the market's current state.
pub open spec fn current_definition(m: MarketView) -> DefinitionView {
    DefinitionView {
        fields: m.definition,
        status: m.status,
        number_of_winners: m.number_of_winners,
        number_of_active_runners: m.number_of_active_runners,
        version: m.version,
        runners: m.def_runners,
    }
}

/// A snapshot of a market.
pub struct MarketBook {
    pub market_id: String,
    /// Publish time in epoch milliseconds.
    pub publish_time_millis: i64,
    /// The runners' books, ascending by selection id and handicap.
    pub runners: Vec<RunnerBook>,
    pub status: String,
    pub bet_delay: i32,
    pub bsp_reconciled: bool,
    pub complete: bool,
    pub cross_matching: bool,
    pub inplay: bool,
    pub number_of_active_runners: i32,
    pub number_of_runners: i32,
    pub number_of_winners: i32,
    pub runners_voidable: bool,
    /// Bit pattern of the total matched.
    pub total_matched: u64,
    pub version: i64,
    pub last_match_time: Option<i64>,
    pub market_definition: Option<MarketDefinition>,
    /// Whether the definition is the one the previous book showed, no
    /// definition having arrived since.
    pub definition_reused: bool,
    /// Streaming unique id, set by the stream that carries the book.
    pub streaming_unique_id: Option<i32>,
}

/// `b` is the book of the market whose state is `m`: its runners are listed
/// in ascending order of their keys.
pub open spec fn is_market_book(b: MarketBook, m: MarketView) -> bool {
    let keys = sorted_keys(m.runners);
    &&& b.market_id@ == m.market_id
    &&& b.publish_time_millis == m.publish_time
    &&& b.status@ == m.status.status
    &&& b.bet_delay == m.status.bet_delay
    &&& b.bsp_reconciled == m.status.bsp_reconciled
    &&& b.complete == m.status.complete
    &&& b.cross_matching == m.status.cross_matching
    &&& b.inplay == m.status.inplay
    &&& b.number_of_active_runners == m.number_of_active_runners
    &&& b.number_of_runners == m.number_of_runners
    &&& b.number_of_winners == m.number_of_winners
    &&& b.runners_voidable == m.status.runners_voidable
    &&& b.total_matched == m.total_matched
    &&& b.version == m.version
    &&& b.last_match_time == m.last_match_time
    &&& opt_definition_view(b.market_definition) == book_definition(m)
    &&& b.definition_reused == (m.cached_def_generation == m.def_generation)
    &&& b.streaming_unique_id is None
    &&& b.runners@.len() == keys.len()
    &&& forall|i: int| 0 <= i < keys.len() ==> is_book_of(#[trigger] b.runners@[i], m.runners[keys[i]])
}

/// A cached runner filed under its key.
struct RunnerSlot {
    id: i64,
    hc: i64,
    cache: RunnerCache,
}

/// The key of a slot.
closed spec fn slot_key(s: RunnerSlot) -> RunnerKey {
    (s.id, s.hc)
}

/// Slots strictly ascending by key.
closed spec fn slots_sorted(s: Seq<RunnerSlot>) -> bool {
    forall|i: int, j: int| 0 <= i < j < s.len() ==> key_lt(#[trigger] slot_key(s[i]), #[trigger] slot_key(s[j]))
}

/// Some slot of `s` has key `k`.
closed spec fn has_key(s: Seq<RunnerSlot>, k: RunnerKey) -> bool {
    exists|i: int| 0 <= i < s.len() && slot_key(s[i]) == k
}

/// The map from key to runner state that a sequence of slots stands for.
closed spec fn slots_map(s: Seq<RunnerSlot>) -> Map<RunnerKey, RunnerView> {
    Map::new(
        |k: RunnerKey| has_key(s, k),
        |k: RunnerKey| s[choose|i: int| 0 <= i < s.len() && slot_key(s[i]) == k].cache@,
    )
}

/// The map of sorted slots holds exactly their keys, each with its runner.
proof fn lemma_slots_map(s: Seq<RunnerSlot>)
    requires
        slots_sorted(s),
    ensures
        forall|i: int|
            0 <= i < s.len() ==> slots_map(s).contains_key(#[trigger] slot_key(s[i]))
                && slots_map(s)[slot_key(s[i])] == s[i].cache@,
        forall|k: RunnerKey| slots_map(s).contains_key(k) <==> has_key(s, k),
{
    assert forall|i: int| 0 <= i < s.len() implies slots_map(s).contains_key(
        #[trigger] slot_key(s[i]),
    ) && slots_map(s)[slot_key(s[i])] == s[i].cache@ by {
        let k = slot_key(s[i]);
        assert(has_key(s, k));
        let j = choose|j: int| 0 <= j < s.len() && slot_key(s[j]) == k;
        if j < i {
            assert(key_lt(slot_key(s[j]), slot_key(s[i])));
        }
        if i < j {
            assert(key_lt(slot_key(s[i]), slot_key(s[j])));
        }
    }
}

/// Sorted slots with the same key-runner pairs as `m` stand for `m`.
proof fn lemma_slots_map_ext(s: Seq<RunnerSlot>, m: Map<RunnerKey, RunnerView>)
    requires
        slots_sorted(s),
        forall|i: int|
            0 <= i < s.len() ==> m.contains_key(#[trigger] slot_key(s[i])) && m[slot_key(s[i])]
                == s[i].cache@,
        forall|k: RunnerKey| m.contains_key(k) ==> has_key(s, k),
    ensures
        slots_map(s) == m,
{
    lemma_slots_map(s);
    assert forall|k: RunnerKey| #[trigger] slots_map(s).contains_key(k) implies slots_map(s)[k]
        == m[k] by {
        let i = choose|i: int| 0 <= i < s.len() && slot_key(s[i]) == k;
        assert(slots_map(s).contains_key(slot_key(s[i])));
    }
    assert(slots_map(s) =~= m);
}

/// The number of active runners among the slots.
closed spec fn count_active(s: Seq<RunnerSlot>) -> nat
    decreases s.len(),
{
    if s.len() == 0 {
        0
    } else {
        count_active(s.drop_last()) + if s.last().cache@.status == "ACTIVE"@ {
            1nat
        } else {
            0nat
        }
    }
}

/// Sorted slots stand for a finite map with one key per slot, and their active
/// runners are the map's active runners.
proof fn lemma_slots_counts(s: Seq<RunnerSlot>)
    requires
        slots_sorted(s),
    ensures
        slots_map(s).dom().finite(),
        slots_map(s).dom().len() == s.len(),
        active_count(slots_map(s)) == count_active(s),
    decreases s.len(),
{
    let m = slots_map(s);
    if s.len() == 0 {
        assert(m.dom() =~= Set::<RunnerKey>::empty());
        assert(m.dom().filter(|k: RunnerKey| m[k].status == "ACTIVE"@) =~= Set::<RunnerKey>::empty());
    } else {
        let t = s.drop_last();
        let x = s.last();
        let k = slot_key(x);
        assert(slots_sorted(t)) by {
            assert forall|i: int, j: int| 0 <= i < j < t.len() implies key_lt(
                #[trigger] slot_key(t[i]),
                #[trigger] slot_key(t[j]),
            ) by {
                assert(t[i] == s[i] && t[j] == s[j]);
            }
        }
        lemma_slots_counts(t);
        lemma_slots_map(s);
        lemma_slots_map(t);
        let mt = slots_map(t);
        assert(!mt.contains_key(k)) by {
            if mt.contains_key(k) {
                let i = choose|i: int| 0 <= i < t.len() && slot_key(t[i]) == k;
                assert(t[i] == s[i]);
                assert(key_lt(slot_key(s[i]), slot_key(s[s.len() - 1])));
            }
        }
        assert(m =~= mt.insert(k, x.cache@)) by {
            assert forall|q: RunnerKey| m.contains_key(q) <==> mt.insert(k, x.cache@).contains_key(q) by {
                if m.contains_key(q) {
                    let i = choose|i: int| 0 <= i < s.len() && slot_key(s[i]) == q;
                    if i < s.len() - 1 {
                        assert(t[i] == s[i]);
                        assert(mt.contains_key(slot_key(t[i])));
                    }
                }
                if mt.contains_key(q) {
                    let i = choose|i: int| 0 <= i < t.len() && slot_key(t[i]) == q;
                    assert(t[i] == s[i]);
                    assert(m.contains_key(slot_key(s[i])));
                }
            }
            assert forall|q: RunnerKey| m.contains_key(q) implies m[q] == mt.insert(k, x.cache@)[q] by {
                let i = choose|i: int| 0 <= i < s.len() && slot_key(s[i]) == q;
                assert(m.contains_key(slot_key(s[i])));
                if i < s.len() - 1 {
                    assert(t[i] == s[i]);
                    assert(mt.contains_key(slot_key(t[i])));
                }
            }
        }
        assert(m.dom() =~= mt.dom().insert(k));
        let pm = |q: RunnerKey| m[q].status == "ACTIVE"@;
        let pt = |q: RunnerKey| mt[q].status == "ACTIVE"@;
        if x.cache@.status == "ACTIVE"@ {
            assert(m.dom().filter(pm) =~= mt.dom().filter(pt).insert(k));
        } else {
            assert(m.dom().filter(pm) =~= mt.dom().filter(pt));
        }
        mt.dom().lemma_len_filter(pt);
    }
}

/// Inserting a slot at its sorted position files its runner under its key.
proof fn lemma_insert_slot(s: Seq<RunnerSlot>, i: int, x: RunnerSlot)
    requires
        slots_sorted(s),
        0 <= i <= s.len(),
        forall|j: int| 0 <= j < i ==> key_lt(#[trigger] slot_key(s[j]), slot_key(x)),
        i == s.len() || key_lt(slot_key(x), slot_key(s[i])),
    ensures
        !slots_map(s).contains_key(slot_key(x)),
        slots_sorted(s.insert(i, x)),
        slots_map(s.insert(i, x)) == slots_map(s).insert(slot_key(x), x.cache@),
{
    let s2 = s.insert(i, x);
    let k = slot_key(x);
    lemma_slots_map(s);
    assert(!slots_map(s).contains_key(k)) by {
        if slots_map(s).contains_key(k) {
            let a = choose|a: int| 0 <= a < s.len() && slot_key(s[a]) == k;
            if a > i {
                assert(key_lt(slot_key(s[i]), slot_key(s[a])));
            }
        }
    }
    assert(slots_sorted(s2)) by {
        assert forall|a: int, b: int| 0 <= a < b < s2.len() implies key_lt(
            #[trigger] slot_key(s2[a]),
            #[trigger] slot_key(s2[b]),
        ) by {
            if b < i {
                assert(s2[a] == s[a] && s2[b] == s[b]);
            } else if b == i {
                assert(s2[a] == s[a]);
            } else if a == i {
                assert(s2[b] == s[b - 1]);
                if b - 1 > i {
                    assert(key_lt(slot_key(s[i]), slot_key(s[b - 1])));
                }
            } else if a < i {
                assert(s2[a] == s[a] && s2[b] == s[b - 1]);
            } else {
                assert(s2[a] == s[a - 1] && s2[b] == s[b - 1]);
            }
        }
    }
    let m2 = slots_map(s).insert(k, x.cache@);
    assert forall|a: int| 0 <= a < s2.len() implies m2.contains_key(#[trigger] slot_key(s2[a]))
        && m2[slot_key(s2[a])] == s2[a].cache@ by {
        if a < i {
            assert(s2[a] == s[a]);
            assert(slots_map(s).contains_key(slot_key(s[a])));
        } else if a > i {
            assert(s2[a] == s[a - 1]);
            assert(slots_map(s).contains_key(slot_key(s[a - 1])));
        }
    }
    assert forall|q: RunnerKey| m2.contains_key(q) implies has_key(s2, q) by {
        if q == k {
            assert(slot_key(s2[i]) == q);
        } else {
            let a = choose|a: int| 0 <= a < s.len() && slot_key(s[a]) == q;
            if a < i {
                assert(slot_key(s2[a]) == q);
            } else {
                assert(slot_key(s2[a + 1]) == q);
            }
        }
    }
    lemma_slots_map_ext(s2, m2);
}

/// Replacing the slot at `i` by one with the same key refiles the runner.
proof fn lemma_replace_slot(s: Seq<RunnerSlot>, i: int, x: RunnerSlot)
    requires
        slots_sorted(s),
        0 <= i < s.len(),
        slot_key(x) == slot_key(s[i]),
    ensures
        slots_sorted(s.update(i, x)),
        slots_map(s.update(i, x)) == slots_map(s).insert(slot_key(x), x.cache@),
{
    let s2 = s.update(i, x);
    let k = slot_key(x);
    lemma_slots_map(s);
    assert(slots_sorted(s2)) by {
        assert forall|a: int, b: int| 0 <= a < b < s2.len() implies key_lt(
            #[trigger] slot_key(s2[a]),
            #[trigger] slot_key(s2[b]),
        ) by {
            assert(slot_key(s2[a]) == slot_key(s[a]) && slot_key(s2[b]) == slot_key(s[b]));
        }
    }
    let m2 = slots_map(s).insert(k, x.cache@);
    assert forall|a: int| 0 <= a < s2.len() implies m2.contains_key(#[trigger] slot_key(s2[a]))
        && m2[slot_key(s2[a])] == s2[a].cache@ by {
        if a != i {
            assert(s2[a] == s[a]);
            assert(key_lt(slot_key(s[a]), slot_key(s[i])) || key_lt(slot_key(s[i]), slot_key(s[a])));
            assert(slots_map(s).contains_key(slot_key(s[a])));
        }
    }
    assert forall|q: RunnerKey| m2.contains_key(q) implies has_key(s2, q) by {
        if q == k {
            assert(slot_key(s2[i]) == q);
        } else {
            let a = choose|a: int| 0 <= a < s.len() && slot_key(s[a]) == q;
            assert(slot_key(s2[a]) == q);
        }
    }
    lemma_slots_map_ext(s2, m2);
}

/// The state of one market's cache.
struct MarketState {
    market_id: String,
    publish_time: i64,
    status: StatusFields,
    number_of_active_runners: i32,
    number_of_runners: i32,
    number_of_winners: i32,
    total_matched: u64,
    version: i64,
    last_match_time: Option<i64>,
    runners: Vec<RunnerSlot>,
    definition: DefinitionFields,
    def_runners: Vec<MarketDefinitionRunner>,
    def_generation: u64,
    cached_definition: Option<MarketDefinition>,
    cached_def_generation: u64,
}

/// What an optional definition holds.
pub open spec fn opt_definition_view(o: Option<MarketDefinition>) -> Option<DefinitionView> {
    match o {
        Some(d) => Some(d@),
        None => None,
    }
}

impl View for MarketState {
    type V = MarketView;

    closed spec fn view(&self) -> MarketView {
        MarketView {
            market_id: self.market_id@,
            publish_time: self.publish_time,
            status: self.status@,
            number_of_active_runners: self.number_of_active_runners,
            number_of_runners: self.number_of_runners,
            number_of_winners: self.number_of_winners,
            total_matched: self.total_matched,
            version: self.version,
            last_match_time: self.last_match_time,
            runners: slots_map(self.runners@),
            definition: self.definition@,
            def_runners: def_runners_view(self.def_runners@),
            def_generation: self.def_generation,
            cached_definition: opt_definition_view(self.cached_definition),
            cached_def_generation: self.cached_def_generation,
        }
    }
}

impl MarketState {
    /// The state's invariant: runners sorted by key, each filed under its own
    /// selection id.
    closed spec fn wf(&self) -> bool {
        slots_wf(self.runners@)
    }

    /// The keys of the runners, in the order they are held.
    closed spec fn runner_keys(&self) -> Seq<RunnerKey> {
        self.runners@.map_values(|s: RunnerSlot| slot_key(s))
    }

    /// The runner keys are strictly ascending and are exactly the keys of the
    /// runners, and each runner is filed under its own selection id.
    proof fn lemma_runner_keys(&self)
        requires
            self.wf(),
        ensures
            forall|i: int, j: int|
                0 <= i < j < self.runner_keys().len() ==> key_lt(
                    #[trigger] self.runner_keys()[i],
                    #[trigger] self.runner_keys()[j],
                ),
            forall|i: int|
                0 <= i < self.runner_keys().len() ==> self@.runners.contains_key(
                    #[trigger] self.runner_keys()[i],
                ),
            forall|k: RunnerKey|
                #[trigger] self@.runners.contains_key(k) ==> exists|i: int|
                    0 <= i < self.runner_keys().len() && self.runner_keys()[i] == k,
            forall|k: RunnerKey|
                #[trigger] self@.runners.contains_key(k) ==> self@.runners[k].selection_id == k.0,
    {
        let s = self.runners@;
        lemma_slots_map(s);
        assert forall|k: RunnerKey| #[trigger] self@.runners.contains_key(k) implies exists|i: int|
            0 <= i < self.runner_keys().len() && self.runner_keys()[i] == k by {
            let i = choose|i: int| 0 <= i < s.len() && slot_key(s[i]) == k;
            assert(self.runner_keys()[i] == k);
        }
        assert forall|k: RunnerKey| #[trigger] self@.runners.contains_key(k) implies self@.runners[k].selection_id
            == k.0 by {
            let i = choose|i: int| 0 <= i < s.len() && slot_key(s[i]) == k;
            assert(self@.runners.contains_key(slot_key(s[i])));
        }
    }

    /// The runner keys are the ascending listing of the runners' keys.
    proof fn lemma_sorted_runner_keys(&self)
        requires
            self.wf(),
        ensures
            self.runner_keys() == sorted_keys(self@.runners),
    {
        self.lemma_runner_keys();
        let ks = self.runner_keys();
        assert(is_key_listing(ks, self@.runners.dom()));
        let c = sorted_keys(self@.runners);
        assert(is_key_listing(c, self@.runners.dom()));
        lemma_key_listing_unique(ks, c, self@.runners.dom());
    }

    /// The state of the market `market_id`, with nothing heard of it yet.
    fn new(market_id: String) -> (r: MarketState)
        ensures
            r.wf(),
            r@ == market_initial(market_id@),
    {
        let r = MarketState {
            market_id,
            publish_time: 0,
            status: StatusFields::new(),
            number_of_active_runners: 0,
            number_of_runners: 0,
            number_of_winners: 1,
            total_matched: 0,
            version: 0,
            last_match_time: None,
            runners: Vec::new(),
            definition: DefinitionFields::new(),
            def_runners: Vec::new(),
            def_generation: 0,
            cached_definition: None,
            cached_def_generation: 0,
        };
        proof {
            assert(slots_map(r.runners@) =~= Map::<RunnerKey, RunnerView>::empty());
            assert(def_runners_view(r.def_runners@) =~= Seq::<DefRunnerView>::empty());
        }
        r
    }

    /// Applies a list of runner changes (or definition runners) in order.
    fn apply_runners(&mut self, rcs: &Vec<JsonValue>, from_definition: bool)
        requires
            old(self).wf(),
        ensures
            final(self).wf(),
            final(self)@ == (MarketView {
                runners: runners_fold(old(self)@.runners, rcs@, from_definition),
                ..old(self)@
            }),
    {
        let ghost m0 = self@;
        let n = rcs.len();
        let mut i: usize = 0;
        proof {
            assert(rcs@.take(0) =~= Seq::<JsonValue>::empty());
        }
        while i < n
            invariant
                n == rcs@.len(),
                i <= n,
                self.wf(),
                self@ == (MarketView {
                    runners: runners_fold(m0.runners, rcs@.take(i as int), from_definition),
                    ..m0
                }),
            decreases n - i,
        {
            self.upsert_runner(&rcs[i], from_definition);
            proof {
                assert(rcs@.take(i + 1).drop_last() =~= rcs@.take(i as int));
                assert(rcs@.take(i + 1).last() == rcs@[i as int]);
            }
            i = i + 1;
        }
        proof {
            assert(rcs@.take(n as int) =~= rcs@);
        }
    }

    /// Takes in a market definition.
    fn update_definition(&mut self, def: &JsonValue)
        requires
            old(self).wf(),
        ensures
            final(self).wf(),
            final(self)@ == definition_update(old(self)@, *def),
    {
        self.status.apply(def);
        if let Some(v) = def.get_i64("numberOfWinners") {
            self.number_of_winners = v as i32;
        }
        self.definition.apply(def);
        if let Some(v) = def.get_i64("version") {
            self.version = v;
        }
        self.def_generation = bump_generation(self.def_generation);
        if let Some(arr) = def.get_array("runners") {
            self.def_runners = def_runners_from_json(arr);
            self.apply_runners(arr, true);
        }
        proof {
            assert(self@ =~= definition_update(old(self)@, *def));
        }
    }

    /// The number of active runners.
    fn count_active_runners(&self) -> (r: usize)
        requires
            self.wf(),
        ensures
            r == active_count(self@.runners),
    {
        let ghost s = self.runners@;
        let n = self.runners.len();
        let mut count: usize = 0;
        let mut i: usize = 0;
        proof {
            assert(s.take(0) =~= Seq::<RunnerSlot>::empty());
        }
        while i < n
            invariant
                n == s.len(),
                s == self.runners@,
                i <= n,
                count == count_active(s.take(i as int)),
                count <= i,
            decreases n - i,
        {
            if str_eq(self.runners[i].cache.status(), "ACTIVE") {
                count = count + 1;
            }
            proof {
                assert(s.take(i + 1).drop_last() =~= s.take(i as int));
                assert(s.take(i + 1).last() == s[i as int]);
            }
            i = i + 1;
        }
        proof {
            assert(s.take(n as int) =~= s);
            lemma_slots_counts(s);
        }
        count
    }

    /// Takes in a market change published at `publish_time`.
    fn update(&mut self, mc: &JsonValue, publish_time: i64)
        requires
            old(self).wf(),
        ensures
            final(self).wf(),
            final(self)@ == market_update(old(self)@, *mc, publish_time),
    {
        self.publish_time = publish_time;
        if mc.get_bool("img").unwrap_or(false) {
            self.runners.clear();
            proof {
                assert(slots_map(self.runners@) =~= Map::<RunnerKey, RunnerView>::empty());
            }
        }
        if let Some(def) = mc.get("marketDefinition") {
            self.update_definition(def);
        }
        self.status.apply(mc);
        if let Some(v) = mc.get_f64("tv") {
            self.total_matched = v;
        }
        if let Some(v) = mc.get_i64("version") {
            self.version = v;
        }
        if let Some(v) = mc.get_i64("lastMatchTime") {
            self.last_match_time = Some(v);
        }
        if let Some(arr) = mc.get_array("rc") {
            self.apply_runners(arr, false);
        }
        proof {
            lemma_slots_counts(self.runners@);
        }
        self.number_of_runners = self.runners.len() as i32;
        self.number_of_active_runners = self.count_active_runners() as i32;
        proof {
            assert(self@ =~= market_update(old(self)@, *mc, publish_time));
        }
    }

    /// Makes the market's book (see `MarketCache::to_market_book`).
    fn to_market_book(&mut self) -> (r: MarketBook)
        requires
            old(self).wf(),
        ensures
            final(self).wf(),
            is_market_book(r, old(self)@),
            final(self)@ == market_after_book(old(self)@),
    {
        let ghost s = self.runners@;
        proof {
            lemma_slots_map(s);
        }
        let n = self.runners.len();
        let mut runners: Vec<RunnerBook> = Vec::with_capacity(n);
        let mut i: usize = 0;
        while i < n
            invariant
                n == s.len(),
                n == self.runners@.len(),
                slots_sorted(s),
                slots_wf(self.runners@),
                i <= n,
                runners@.len() == i,
                forall|j: int| 0 <= j < n ==> slot_key(#[trigger] self.runners@[j]) == slot_key(s[j]),
                forall|j: int| 0 <= j < i ==> is_book_of(#[trigger] runners@[j], s[j].cache@),
                forall|j: int|
                    0 <= j < i ==> (#[trigger] self.runners@[j]).cache@ == runner_after_book(
                        s[j].cache@,
                    ),
                forall|j: int| i <= j < n ==> #[trigger] self.runners@[j] == s[j],
                self.market_id == old(self).market_id,
                self.publish_time == old(self).publish_time,
                self.status == old(self).status,
                self.number_of_active_runners == old(self).number_of_active_runners,
                self.number_of_runners == old(self).number_of_runners,
                self.number_of_winners == old(self).number_of_winners,
                self.total_matched == old(self).total_matched,
                self.version == old(self).version,
                self.last_match_time == old(self).last_match_time,
                self.definition == old(self).definition,
                self.def_runners == old(self).def_runners,
                self.def_generation == old(self).def_generation,
                self.cached_definition == old(self).cached_definition,
                self.cached_def_generation == old(self).cached_def_generation,
                s == old(self).runners@,
            decreases n - i,
        {
            let ghost before = self.runners@;
            let book = self.runners[i].cache.to_runner();
            proof {
                let after = self.runners@;
                assert forall|j: int| 0 <= j < n && j != i implies after[j] == before[j] by {}
                assert forall|j: int| 0 <= j < n implies (#[trigger] after[j]).cache@.selection_id
                    == after[j].id by {
                    if j != i {
                        assert(after[j] == before[j]);
                    }
                }
                assert(slots_sorted(after)) by {
                    assert forall|a: int, b: int| 0 <= a < b < after.len() implies key_lt(
                        #[trigger] slot_key(after[a]),
                        #[trigger] slot_key(after[b]),
                    ) by {
                        assert(slot_key(after[a]) == slot_key(s[a]));
                        assert(slot_key(after[b]) == slot_key(s[b]));
                    }
                }
            }
            runners.push(book);
            i = i + 1;
        }
        let ghost s1 = self.runners@;
        proof {
            lemma_slots_map(s1);
            let target = slots_map(s).map_values(|r: RunnerView| runner_after_book(r));
            assert forall|j: int| 0 <= j < s1.len() implies target.contains_key(
                #[trigger] slot_key(s1[j]),
            ) && target[slot_key(s1[j])] == s1[j].cache@ by {
                assert(slot_key(s1[j]) == slot_key(s[j]));
                assert(slots_map(s).contains_key(slot_key(s[j])));
            }
            assert forall|k: RunnerKey| target.contains_key(k) implies has_key(s1, k) by {
                let j = choose|j: int| 0 <= j < s.len() && slot_key(s[j]) == k;
                assert(slot_key(s1[j]) == k);
            }
            lemma_slots_map_ext(s1, target);
        }
        let definition_reused = self.cached_def_generation == self.def_generation;
        let market_definition = if definition_reused {
            match &self.cached_definition {
                Some(d) => Some(d.duplicate()),
                None => None,
            }
        } else {
            let d = MarketDefinition::assemble(
                &self.definition,
                &self.status,
                self.number_of_winners,
                self.number_of_active_runners,
                self.version,
                &self.def_runners,
            );
            self.cached_definition = Some(d.duplicate());
            self.cached_def_generation = self.def_generation;
            Some(d)
        };
        proof {
            let keys = sorted_keys(old(self)@.runners);
            old(self).lemma_sorted_runner_keys();
            assert(keys == old(self).runner_keys());
            assert forall|j: int| 0 <= j < keys.len() implies is_book_of(
                #[trigger] runners@[j],
                old(self)@.runners[keys[j]],
            ) by {
                assert(keys[j] == slot_key(s[j]));
                assert(old(self)@.runners[slot_key(s[j])] == s[j].cache@);
            }
            assert(self@ =~= market_after_book(old(self)@));
        }
        MarketBook {
            market_id: self.market_id.clone(),
            publish_time_millis: self.publish_time,
            runners,
            status: self.status.status.clone(),
            bet_delay: self.status.bet_delay,
            bsp_reconciled: self.status.bsp_reconciled,
            complete: self.status.complete,
            cross_matching: self.status.cross_matching,
            inplay: self.status.inplay,
            number_of_active_runners: self.number_of_active_runners,
            number_of_runners: self.number_of_runners,
            number_of_winners: self.number_of_winners,
            runners_voidable: self.status.runners_voidable,
            total_matched: self.total_matched,
            version: self.version,
            last_match_time: self.last_match_time,
            market_definition,
            definition_reused,
            streaming_unique_id: None,
        }
    }

    /// Applies one runner change (or definition runner) to the runner it names.
    fn upsert_runner(&mut self, rc: &JsonValue, from_definition: bool)
        requires
            old(self).wf(),
        ensures
            final(self).wf(),
            final(self)@ == (MarketView {
                runners: runners_step(old(self)@.runners, *rc, from_definition),
                ..old(self)@
            }),
    {
        if let Some(id) = rc.get_i64("id") {
            let hc = rc.get_f64("hc").unwrap_or(0);
            let hk = rc.get_hundredths("hc").unwrap_or(0);
            upsert_slot(&mut self.runners, id, hk, hc, rc, from_definition);
        }
        proof {
            assert(self@ =~= (MarketView {
                runners: runners_step(old(self)@.runners, *rc, from_definition),
                ..old(self)@
            }));
        }
    }
}

/// The cache of one market.
pub struct MarketCache {
    state: MarketState,
}

impl View for MarketCache {
    type V = MarketView;

    closed spec fn view(&self) -> MarketView {
        self.state@
    }
}

impl MarketCache {
    /// The cache's internal invariant: runners sorted by key, each filed under
    /// its own selection id.
    #[verifier::type_invariant]
    pub closed spec fn wf(&self) -> bool {
        self.state.wf()
    }

    /// The keys of the cached runners, ascending.
    pub closed spec fn runner_keys(&self) -> Seq<RunnerKey> {
        self.state.runner_keys()
    }

    /// The runner keys are strictly ascending and are exactly the keys of the
    /// runners, and each runner is filed under its own selection id.
    pub proof fn lemma_runner_keys(&self)
        requires
            self.wf(),
        ensures
            forall|i: int, j: int|
                0 <= i < j < self.runner_keys().len() ==> key_lt(
                    #[trigger] self.runner_keys()[i],
                    #[trigger] self.runner_keys()[j],
                ),
            forall|i: int|
                0 <= i < self.runner_keys().len() ==> self@.runners.contains_key(
                    #[trigger] self.runner_keys()[i],
                ),
            forall|k: RunnerKey|
                #[trigger] self@.runners.contains_key(k) ==> exists|i: int|
                    0 <= i < self.runner_keys().len() && self.runner_keys()[i] == k,
            forall|k: RunnerKey|
                #[trigger] self@.runners.contains_key(k) ==> self@.runners[k].selection_id == k.0,
    {
        self.state.lemma_runner_keys();
        assert forall|k: RunnerKey| #[trigger] self@.runners.contains_key(k) implies exists|i: int|
            0 <= i < self.runner_keys().len() && self.runner_keys()[i] == k by {
            let i = choose|i: int|
                0 <= i < self.state.runner_keys().len() && self.state.runner_keys()[i] == k;
            assert(self.runner_keys()[i] == k);
        }
    }

    /// The runner keys are the ascending listing of the runners' keys.
    pub proof fn lemma_sorted_runner_keys(&self)
        requires
            self.wf(),
        ensures
            self.runner_keys() == sorted_keys(self@.runners),
    {
        self.state.lemma_sorted_runner_keys();
    }

    /// A cache for the market `market_id`, with nothing heard of it yet.
    pub fn new(market_id: String) -> (r: MarketCache)
        ensures
            r@ == market_initial(market_id@),
    {
        MarketCache { state: MarketState::new(market_id) }
    }

    /// Takes in a market change published at `publish_time`.
    pub fn update(&mut self, mc: &JsonValue, publish_time: i64)
        ensures
            final(self)@ == market_update(old(self)@, *mc, publish_time),
    {
        proof {
            use_type_invariant(&*self);
        }
        let mut state = MarketState::new(String::new());
        std::mem::swap(&mut state, &mut self.state);
        state.update(mc, publish_time);
        self.state = state;
    }

    /// The market's book.  The definition is made afresh only when a
    /// definition arrived since the previous book; otherwise the previous
    /// book's definition is shown again, and the book says so.  Each runner's
    /// book is made as `RunnerCache::to_runner` makes it, and says whether the
    /// runner is unchanged since its previous book.
    pub fn to_market_book(&mut self) -> (r: MarketBook)
        ensures
            is_market_book(r, old(self)@),
            final(self)@ == market_after_book(old(self)@),
    {
        proof {
            use_type_invariant(&*self);
        }
        let mut state = MarketState::new(String::new());
        std::mem::swap(&mut state, &mut self.state);
        let book = state.to_market_book();
        self.state = state;
        book
    }
}

/// Every slot holds a well-formed runner filed under its own selection id.
closed spec fn slots_wf(s: Seq<RunnerSlot>) -> bool {
    &&& slots_sorted(s)
    &&& forall|i: int|
        0 <= i < s.len() ==> (#[trigger] s[i]).cache@.selection_id == s[i].id
}

/// The position of the slot with key `(id, hk)`, creating it with a fresh
/// runner of handicap `hc` when there is none.
fn ensure_slot(runners: &mut Vec<RunnerSlot>, id: i64, hk: i64, hc: u64) -> (i: usize)
    requires
        slots_wf(old(runners)@),
    ensures
        slots_wf(final(runners)@),
        i < final(runners)@.len(),
        slot_key(final(runners)@[i as int]) == (id, hk),
        slots_map(final(runners)@) == if slots_map(old(runners)@).contains_key((id, hk)) {
            slots_map(old(runners)@)
        } else {
            slots_map(old(runners)@).insert((id, hk), runner_initial(id, hc))
        },
{
    let ghost s0 = runners@;
    proof {
        lemma_slots_map(s0);
    }
    let n = runners.len();
    let mut lo: usize = 0;
    let mut hi: usize = n;
    while lo < hi
        invariant
            n == runners@.len(),
            runners@ == s0,
            slots_sorted(s0),
            lo <= hi <= n,
            forall|j: int| 0 <= j < lo ==> key_lt(#[trigger] slot_key(runners@[j]), (id, hk)),
            forall|j: int| hi <= j < n ==> !key_lt(#[trigger] slot_key(runners@[j]), (id, hk)),
        decreases hi - lo,
    {
        let mid = lo + (hi - lo) / 2;
        if runners[mid].id < id || (runners[mid].id == id && runners[mid].hc < hk) {
            proof {
                assert forall|j: int| 0 <= j <= mid implies key_lt(#[trigger] slot_key(runners@[j]), (id, hk)) by {
                    if j < mid {
                        assert(key_lt(slot_key(s0[j]), slot_key(s0[mid as int])));
                    }
                }
            }
            lo = mid + 1;
        } else {
            proof {
                assert forall|j: int| mid <= j < n implies !key_lt(#[trigger] slot_key(runners@[j]), (id, hk)) by {
                    if j > mid {
                        assert(key_lt(slot_key(s0[mid as int]), slot_key(s0[j])));
                    }
                }
            }
            hi = mid;
        }
    }
    let i = lo;
    if i < n && runners[i].id == id && runners[i].hc == hk {
        return i;
    }
    let slot = RunnerSlot { id, hc: hk, cache: RunnerCache::new(id, hc) };
    proof {
        lemma_insert_slot(s0, i as int, slot);
    }
    runners.insert(i, slot);
    proof {
        let s1 = runners@;
        assert forall|j: int| 0 <= j < s1.len() implies (#[trigger] s1[j]).cache@.selection_id
            == s1[j].id by {
            if j < i {
                assert(s1[j] == s0[j]);
            } else if j > i {
                assert(s1[j] == s0[j - 1]);
            }
        }
    }
    i
}

/// Applies `rc` to the runner of the slot at `i`.
fn update_slot(runners: &mut Vec<RunnerSlot>, i: usize, rc: &JsonValue, from_definition: bool)
    requires
        slots_wf(old(runners)@),
        i < old(runners)@.len(),
    ensures
        slots_wf(final(runners)@),
        slots_map(final(runners)@) == slots_map(old(runners)@).insert(
            slot_key(old(runners)@[i as int]),
            runner_apply(old(runners)@[i as int].cache@, *rc, from_definition),
        ),
{
    let ghost s1 = runners@;
    if from_definition {
        runners[i].cache.update_from_definition(rc);
    } else {
        runners[i].cache.update(rc);
    }
    proof {
        let s2 = runners@;
        assert(s2 =~= s1.update(i as int, s2[i as int]));
        lemma_replace_slot(s1, i as int, s2[i as int]);
        assert forall|j: int| 0 <= j < s2.len() implies (#[trigger] s2[j]).cache@.selection_id
            == s2[j].id by {
            if j != i {
                assert(s2[j] == s1[j]);
            }
        }
    }
}

/// Updates the runner filed under `(id, hk)`, creating it with handicap `hc` first
/// when there is none.
fn upsert_slot(
    runners: &mut Vec<RunnerSlot>,
    id: i64,
    hk: i64,
    hc: u64,
    rc: &JsonValue,
    from_definition: bool,
)
    requires
        slots_wf(old(runners)@),
        rc.field_i64("id"@) == Some(id),
        rc.field_hundredths("hc"@).unwrap_or(0) == hk,
        rc.field_f64("hc"@).unwrap_or(0) == hc,
    ensures
        slots_wf(final(runners)@),
        slots_map(final(runners)@) == runners_step(slots_map(old(runners)@), *rc, from_definition),
{
    let ghost m0 = slots_map(runners@);
    let i = ensure_slot(runners, id, hk, hc);
    let ghost s1 = runners@;
    proof {
        lemma_slots_map(s1);
    }
    update_slot(runners, i, rc, from_definition);
    proof {
        let k = (id, hk);
        let base = if m0.contains_key(k) { m0[k] } else { runner_initial(id, hc) };
        assert(s1[i as int].cache@ == base);
        assert(slots_map(runners@) =~= m0.insert(k, runner_apply(base, *rc, from_definition)));
    }
}

} // verus!
