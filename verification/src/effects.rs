//! What each update does to each field, stated directly over the JSON it is
//! given: which value a field takes, and which fields are left alone.
use vstd::prelude::*;
use crate::floatbits::{spec_is_nan, spec_float_eq, spec_order_key};
use crate::dict::{
    DictView, runner_dict, price_sizes_dict, price_size_dict, book_dict, definition_dict,
    def_runner_dict, entry_if_some,
};
use crate::definition::{MarketDefinition, MarketDefinitionRunner};
use crate::floatbits::spec_is_zero;
use crate::json::JsonValue;
use crate::text::opt_str_view;
use crate::ladder::{PriceSize, ladder_fold, ladder_step, update_level, next_generation};
use crate::definition::str_elements;
use crate::market::{
    market_initial, book_definition,
    key_lt,
    MarketView, MarketBook, MarketCache, RunnerKey, market_update, is_market_book, active_count,
    runners_step, market_after_book, sorted_keys,
    definition_update,
    runners_fold,
};
use crate::stream::{apply_changes, apply_change};
use crate::parse::message_of;
use crate::runner::{
    RunnerView, RunnerBook, SpView, runner_update, runner_definition_update, runner_after_book,
    runner_initial, is_book_of,
};

verus! {

/// `after` is what a number field that held `before` holds once an update
/// carrying `new` is applied: the carried number (or an equal one, as floats
/// compare) when there is one, the old value otherwise.
pub open spec fn takes_number(after: Option<u64>, before: Option<u64>, new: Option<u64>) -> bool {
    match new {
        Some(v) => after matches Some(x) && (x == v || spec_float_eq(x, v)),
        None => after == before,
    }
}

/// `after` is what a starting-price field that held `before` holds once an
/// update carrying `new` is applied: a carried number (or an equal one), else
/// a carried string, else nothing; the old value when nothing is carried.
pub open spec fn takes_sp(after: SpView, before: SpView, new: Option<JsonValue>) -> bool {
    match new {
        Some(v) => match v.f64_value() {
            Some(f) => after matches SpView::Float(x) && (x == f || spec_float_eq(x, f)),
            None => match v.str_value() {
                Some(s) => after == SpView::Str(s),
                None => after == SpView::Null,
            },
        },
        None => after == before,
    }
}

/// A ladder after a batch of updates, when one is carried.
pub open spec fn ladder_taken(before: Map<u64, u64>, new: Option<Seq<JsonValue>>) -> Map<u64, u64> {
    match new {
        Some(us) => ladder_fold(before, us).0,
        None => before,
    }
}

/// What a runner change does to the runner: each field the change carries
/// takes the carried value (`spb` feeding the lay liability taken and `spl`
/// the back stake taken), the others are kept, the runner's identity and
/// actual starting price never change, and the generation advances exactly
/// when a change is reported.
pub proof fn lemma_runner_change_fields(r: RunnerView, rc: JsonValue)
    ensures
        ({
            let (a, changed) = runner_update(r, rc);
            &&& a.selection_id == r.selection_id
            &&& a.handicap == r.handicap
            &&& a.actual_sp == r.actual_sp
            &&& a.status == match rc.field_str("status"@) {
                Some(s) => s,
                None => r.status,
            }
            &&& takes_number(a.adjustment_factor, r.adjustment_factor, rc.field_f64("adjustmentFactor"@))
            &&& takes_number(a.last_price_traded, r.last_price_traded, rc.field_f64("ltp"@))
            &&& takes_number(Some(a.total_matched), Some(r.total_matched), rc.field_f64("tv"@))
            &&& a.removal_date == match rc.field_str("removalDate"@) {
                Some(s) => Some(s),
                None => r.removal_date,
            }
            &&& a.available_to_back == ladder_taken(r.available_to_back, rc.field_array("atb"@))
            &&& a.available_to_lay == ladder_taken(r.available_to_lay, rc.field_array("atl"@))
            &&& a.traded == ladder_taken(r.traded, rc.field_array("trd"@))
            &&& a.lay_liability_taken == ladder_taken(r.lay_liability_taken, rc.field_array("spb"@))
            &&& a.back_stake_taken == ladder_taken(r.back_stake_taken, rc.field_array("spl"@))
            &&& takes_sp(a.near_price, r.near_price, rc.field("spn"@))
            &&& takes_sp(a.far_price, r.far_price, rc.field("spf"@))
            &&& a.generation == if changed {
                next_generation(r.generation)
            } else {
                r.generation
            }
        }),
{
}

/// What the runner's entry of a market definition does to the runner: status,
/// adjustment factor and removal date take the values it carries, its `bsp`
/// becomes the actual starting price (nothing when it carries none), and the
/// ladders, prices traded and estimated starting prices are kept.
pub proof fn lemma_definition_entry_fields(r: RunnerView, def: JsonValue)
    ensures
        ({
            let (a, changed) = runner_definition_update(r, def);
            &&& a.selection_id == r.selection_id
            &&& a.handicap == r.handicap
            &&& a.status == match def.field_str("status"@) {
                Some(s) => s,
                None => r.status,
            }
            &&& takes_number(a.adjustment_factor, r.adjustment_factor, def.field_f64("adjustmentFactor"@))
            &&& a.removal_date == match def.field_str("removalDate"@) {
                Some(s) => Some(s),
                None => r.removal_date,
            }
            &&& takes_sp(
                a.actual_sp,
                r.actual_sp,
                Some(
                    match def.field("bsp"@) {
                        Some(v) => v,
                        None => JsonValue::Null,
                    },
                ),
            )
            &&& a.last_price_traded == r.last_price_traded
            &&& a.total_matched == r.total_matched
            &&& a.available_to_back == r.available_to_back
            &&& a.available_to_lay == r.available_to_lay
            &&& a.traded == r.traded
            &&& a.back_stake_taken == r.back_stake_taken
            &&& a.lay_liability_taken == r.lay_liability_taken
            &&& a.near_price == r.near_price
            &&& a.far_price == r.far_price
            &&& a.generation == if changed {
                next_generation(r.generation)
            } else {
                r.generation
            }
        }),
{
}

/// The first of two optional values that is present.
pub open spec fn first_of<A>(a: Option<A>, b: Option<A>) -> Option<A> {
    match a {
        Some(x) => Some(x),
        None => b,
    }
}

/// The member `key` of the market definition that a market change carries.
pub open spec fn definition_member(mc: JsonValue, key: Seq<char>) -> Option<JsonValue> {
    match mc.field("marketDefinition"@) {
        Some(d) => d.field(key),
        None => None,
    }
}

/// The boolean that a market change carries for `key`, itself or else in its
/// market definition.
pub open spec fn carried_bool(mc: JsonValue, key: Seq<char>) -> Option<bool> {
    first_of(
        mc.field_bool(key),
        match definition_member(mc, key) {
            Some(v) => v.bool_value(),
            None => None,
        },
    )
}

/// The integer that a market change carries for `key`, itself or else in its
/// market definition.
pub open spec fn carried_i64(mc: JsonValue, key: Seq<char>) -> Option<i64> {
    first_of(
        mc.field_i64(key),
        match definition_member(mc, key) {
            Some(v) => v.i64_value(),
            None => None,
        },
    )
}

/// What a market change does to the market's own fields: a status field takes
/// the value the change carries, or else the one its market definition
/// carries, or is kept; the number of winners comes from the definition only;
/// the version, like the status fields, from the change before its
/// definition; traded volume and last match time from the change only; and
/// the publish time is the change's.
pub proof fn lemma_market_change_fields(m: MarketView, mc: JsonValue, publish_time: i64)
    ensures
        ({
            let a = market_update(m, mc, publish_time);
            &&& a.market_id == m.market_id
            &&& a.publish_time == publish_time
            &&& a.status.status == match first_of(
                mc.field_str("status"@),
                match definition_member(mc, "status"@) {
                    Some(v) => v.str_value(),
                    None => None,
                },
            ) {
                Some(s) => s,
                None => m.status.status,
            }
            &&& a.status.bet_delay == match carried_i64(mc, "betDelay"@) {
                Some(v) => v as i32,
                None => m.status.bet_delay,
            }
            &&& a.status.bsp_reconciled == carried_bool(mc, "bspReconciled"@).unwrap_or(
                m.status.bsp_reconciled,
            )
            &&& a.status.complete == carried_bool(mc, "complete"@).unwrap_or(m.status.complete)
            &&& a.status.cross_matching == carried_bool(mc, "crossMatching"@).unwrap_or(
                m.status.cross_matching,
            )
            &&& a.status.inplay == carried_bool(mc, "inPlay"@).unwrap_or(m.status.inplay)
            &&& a.status.runners_voidable == carried_bool(mc, "runnersVoidable"@).unwrap_or(
                m.status.runners_voidable,
            )
            &&& a.number_of_winners == match definition_member(mc, "numberOfWinners"@) {
                Some(v) => match v.i64_value() {
                    Some(n) => n as i32,
                    None => m.number_of_winners,
                },
                None => m.number_of_winners,
            }
            &&& a.version == carried_i64(mc, "version"@).unwrap_or(m.version)
            &&& a.total_matched == match mc.field_f64("tv"@) {
                Some(v) => v,
                None => m.total_matched,
            }
            &&& a.last_match_time == match mc.field_i64("lastMatchTime"@) {
                Some(v) => Some(v),
                None => m.last_match_time,
            }
        }),
{
}

/// A market book shows the market as a market change leaves it: its id, the
/// change's publish time, and the status fields, number of winners, version,
/// traded volume and last match time that the change (or its definition)
/// carries, the others as they were.
pub proof fn lemma_book_after_change(m: MarketView, mc: JsonValue, publish_time: i64, book: MarketBook)
    requires
        is_market_book(book, market_update(m, mc, publish_time)),
    ensures
        book.market_id@ == m.market_id,
        book.publish_time_millis == publish_time,
        book.status@ == match first_of(
            mc.field_str("status"@),
            match definition_member(mc, "status"@) {
                Some(v) => v.str_value(),
                None => None,
            },
        ) {
            Some(s) => s,
            None => m.status.status,
        },
        book.bet_delay == match carried_i64(mc, "betDelay"@) {
            Some(v) => v as i32,
            None => m.status.bet_delay,
        },
        book.bsp_reconciled == carried_bool(mc, "bspReconciled"@).unwrap_or(m.status.bsp_reconciled),
        book.complete == carried_bool(mc, "complete"@).unwrap_or(m.status.complete),
        book.cross_matching == carried_bool(mc, "crossMatching"@).unwrap_or(m.status.cross_matching),
        book.inplay == carried_bool(mc, "inPlay"@).unwrap_or(m.status.inplay),
        book.runners_voidable == carried_bool(mc, "runnersVoidable"@).unwrap_or(
            m.status.runners_voidable,
        ),
        book.number_of_winners == match definition_member(mc, "numberOfWinners"@) {
            Some(v) => match v.i64_value() {
                Some(n) => n as i32,
                None => m.number_of_winners,
            },
            None => m.number_of_winners,
        },
        book.version == carried_i64(mc, "version"@).unwrap_or(m.version),
        book.total_matched == match mc.field_f64("tv"@) {
            Some(v) => v,
            None => m.total_matched,
        },
        book.last_match_time == match mc.field_i64("lastMatchTime"@) {
            Some(v) => Some(v),
            None => m.last_match_time,
        },
        book.streaming_unique_id is None,
{
    lemma_market_change_fields(m, mc, publish_time);
}

/// Prices strictly descending (best first for backing).
pub open spec fn descending_prices(s: Seq<PriceSize>) -> bool {
    forall|i: int, j: int|
        0 <= i < j < s.len() ==> spec_order_key(#[trigger] s[j].price) < spec_order_key(
            #[trigger] s[i].price,
        )
}

/// Prices strictly ascending.
pub open spec fn ascending_prices(s: Seq<PriceSize>) -> bool {
    forall|i: int, j: int|
        0 <= i < j < s.len() ==> spec_order_key(#[trigger] s[i].price) < spec_order_key(
            #[trigger] s[j].price,
        )
}

/// The levels listed are exactly those of the ladder `m`, each once with its size.
pub open spec fn lists_levels(s: Seq<PriceSize>, m: Map<u64, u64>) -> bool {
    &&& forall|i: int| 0 <= i < s.len() ==> m.contains_key(#[trigger] s[i].price) && m[s[i].price] == s[i].size
    &&& forall|p: u64| m.contains_key(p) ==> exists|i: int| 0 <= i < s.len() && s[i].price == p
}

/// A runner book shows the runner: its identity, status, prices traded,
/// removal date and starting prices as the runner holds them; the prices
/// available to back listed best (highest) first, those to lay best (lowest)
/// first, traded volume and back stake taken ascending, lay liability taken
/// descending, each listing holding exactly its ladder's levels.
pub proof fn lemma_runner_book_shows(b: RunnerBook, r: RunnerView)
    requires
        is_book_of(b, r),
    ensures
        b.selection_id == r.selection_id,
        b.handicap == r.handicap,
        b.status@ == r.status,
        b.adjustment_factor == r.adjustment_factor,
        b.last_price_traded == r.last_price_traded,
        b.total_matched == r.total_matched,
        opt_str_view(b.removal_date) == r.removal_date,
        b.sp.near_price@ == r.near_price,
        b.sp.far_price@ == r.far_price,
        b.sp.actual_sp@ == r.actual_sp,
        descending_prices(b.ex.available_to_back@),
        lists_levels(b.ex.available_to_back@, r.available_to_back),
        ascending_prices(b.ex.available_to_lay@),
        lists_levels(b.ex.available_to_lay@, r.available_to_lay),
        ascending_prices(b.ex.traded_volume@),
        lists_levels(b.ex.traded_volume@, r.traded),
        ascending_prices(b.sp.back_stake_taken@),
        lists_levels(b.sp.back_stake_taken@, r.back_stake_taken),
        descending_prices(b.sp.lay_liability_taken@),
        lists_levels(b.sp.lay_liability_taken@, r.lay_liability_taken),
{
}

/// A market definition's in-play flag reaches the market, its book and the
/// definition the book shows, unless the change itself says otherwise: after
/// a change whose definition carries `inPlay` = `b` (and which carries no
/// `inPlay` of its own), made to a market whose last book is current, the
/// book is in play exactly when `b` holds, and so is its definition.
pub proof fn lemma_definition_in_play_shown(
    m: MarketView,
    mc: JsonValue,
    publish_time: i64,
    def: JsonValue,
    b: bool,
    book: MarketBook,
)
    requires
        mc.field("marketDefinition"@) == Some(def),
        def.field_bool("inPlay"@) == Some(b),
        mc.field_bool("inPlay"@) is None,
        m.cached_def_generation == m.def_generation,
        is_market_book(book, market_update(m, mc, publish_time)),
    ensures
        market_update(m, mc, publish_time).status.inplay == b,
        book.inplay == b,
        book.market_definition matches Some(d) && d.in_play == b,
{
    lemma_market_change_fields(m, mc, publish_time);
}

/// A runner counts as active exactly when its status is `ACTIVE`: taking a
/// runner out of the market lowers the count by one when its status is
/// `ACTIVE` and leaves it as it is otherwise.
pub proof fn lemma_active_count_step(rs: Map<RunnerKey, RunnerView>, k: RunnerKey)
    requires
        rs.dom().finite(),
        rs.contains_key(k),
    ensures
        active_count(rs) == active_count(rs.remove(k)) + if rs[k].status == "ACTIVE"@ {
            1int
        } else {
            0int
        },
{
    let rm = rs.remove(k);
    let p = |q: RunnerKey| rs[q].status == "ACTIVE"@;
    let prm = |q: RunnerKey| rm[q].status == "ACTIVE"@;
    assert(rm.dom() =~= rs.dom().remove(k));
    assert(rm.dom().filter(prm) =~= rs.dom().filter(p).remove(k));
    if rs[k].status == "ACTIVE"@ {
        assert(rs.dom().filter(p).contains(k));
    } else {
        assert(!rs.dom().filter(p).contains(k));
    }
}

/// A market none of whose runners has status `ACTIVE` has no active runner,
/// and one all of whose runners have it has as many active runners as runners.
pub proof fn lemma_active_count_extremes(rs: Map<RunnerKey, RunnerView>)
    ensures
        (forall|k: RunnerKey| #[trigger] rs.contains_key(k) ==> rs[k].status != "ACTIVE"@)
            ==> active_count(rs) == 0,
        (forall|k: RunnerKey| #[trigger] rs.contains_key(k) ==> rs[k].status == "ACTIVE"@)
            ==> active_count(rs) == rs.dom().len(),
{
    let p = |q: RunnerKey| rs[q].status == "ACTIVE"@;
    if forall|k: RunnerKey| #[trigger] rs.contains_key(k) ==> rs[k].status != "ACTIVE"@ {
        assert(rs.dom().filter(p) =~= Set::<RunnerKey>::empty());
    }
    if forall|k: RunnerKey| #[trigger] rs.contains_key(k) ==> rs[k].status == "ACTIVE"@ {
        assert(rs.dom().filter(p) =~= rs.dom());
    }
}

/// After a market change that leaves no runner with status `ACTIVE`, the
/// market counts no active runner.
pub proof fn lemma_no_active_runner_counted(m: MarketView, mc: JsonValue, publish_time: i64)
    requires
        forall|k: RunnerKey|
            #[trigger] market_update(m, mc, publish_time).runners.contains_key(k)
                ==> market_update(m, mc, publish_time).runners[k].status != "ACTIVE"@,
    ensures
        market_update(m, mc, publish_time).number_of_active_runners == 0,
{
    lemma_active_count_extremes(market_update(m, mc, publish_time).runners);
}

/// While a runner's last book is current (unchanged since it was made), the
/// listings handed out with it are current too.
pub open spec fn stamps_current(r: RunnerView) -> bool {
    r.book_stamp == Some(r.generation) ==> {
        &&& r.back_stamp == Some(r.back_generation)
        &&& r.lay_stamp == Some(r.lay_generation)
        &&& r.traded_stamp == Some(r.traded_generation)
    }
}

/// Each listing of a runner book is handed out again exactly when its own
/// ladder is unchanged since the previous book: after a book and one runner
/// change, the next book marks its back, lay and traded-volume listings
/// reused exactly when the change left the back, lay and traded ladders,
/// respectively, reporting no change.
pub proof fn lemma_listing_reused_iff_ladder_unchanged(r: RunnerView, rc: JsonValue, b: RunnerBook)
    requires
        stamps_current(r),
        is_book_of(b, runner_update(runner_after_book(r), rc).0),
    ensures
        b.ex.available_to_back_reused <==> !(rc.field_array("atb"@) matches Some(us) && ladder_fold(
            r.available_to_back,
            us,
        ).1),
        b.ex.available_to_lay_reused <==> !(rc.field_array("atl"@) matches Some(us) && ladder_fold(
            r.available_to_lay,
            us,
        ).1),
        b.ex.traded_volume_reused <==> !(rc.field_array("trd"@) matches Some(us) && ladder_fold(
            r.traded,
            us,
        ).1),
{
}

/// Making a book of a runner whose stamps are current leaves them current, and
/// so does the one update that follows the book.
pub proof fn lemma_stamps_current_kept(r: RunnerView, rc: JsonValue)
    requires
        stamps_current(r),
    ensures
        stamps_current(runner_after_book(r)),
        stamps_current(runner_update(runner_after_book(r), rc).0),
        stamps_current(runner_definition_update(runner_after_book(r), rc).0),
{
}

/// The entry of a list of dictionary entries under `key`: the first one.
pub open spec fn entry_lookup(es: Seq<(Seq<char>, DictView)>, key: Seq<char>) -> Option<DictView>
    decreases es.len(),
{
    if es.len() == 0 {
        None
    } else if es[0].0 == key {
        Some(es[0].1)
    } else {
        entry_lookup(es.drop_first(), key)
    }
}

/// The entry at `i` is found under its key when no earlier entry has that key.
pub proof fn lemma_entry_lookup_at(es: Seq<(Seq<char>, DictView)>, key: Seq<char>, i: int)
    requires
        0 <= i < es.len(),
        es[i].0 == key,
        forall|j: int| 0 <= j < i ==> es[j].0 != key,
    ensures
        entry_lookup(es, key) == Some(es[i].1),
    decreases i,
{
    if i > 0 {
        let rest = es.drop_first();
        assert forall|j: int| 0 <= j < i - 1 implies rest[j].0 != key by {
            assert(rest[j] == es[j + 1]);
        }
        assert(rest[i - 1] == es[i]);
        lemma_entry_lookup_at(rest, key, i - 1);
    }
}

/// No entry is found under a key that no entry has.
pub proof fn lemma_entry_lookup_absent(es: Seq<(Seq<char>, DictView)>, key: Seq<char>)
    requires
        forall|j: int| 0 <= j < es.len() ==> es[j].0 != key,
    ensures
        entry_lookup(es, key) is None,
    decreases es.len(),
{
    if es.len() > 0 {
        let rest = es.drop_first();
        assert forall|j: int| 0 <= j < rest.len() implies rest[j].0 != key by {
            assert(rest[j] == es[j + 1]);
        }
        lemma_entry_lookup_absent(rest, key);
    }
}

/// Entries whose keys are those of `ks`, all different, are each found under
/// their key.
pub proof fn lemma_entry_lookup_keys(es: Seq<(Seq<char>, DictView)>, ks: Seq<Seq<char>>)
    requires
        ks.len() <= es.len(),
        forall|i: int| 0 <= i < ks.len() ==> #[trigger] es[i].0 == ks[i],
        forall|i: int, j: int| 0 <= i < j < ks.len() ==> #[trigger] ks[i] != #[trigger] ks[j],
    ensures
        forall|i: int| 0 <= i < ks.len() ==> entry_lookup(es, #[trigger] ks[i]) == Some(es[i].1),
{
    assert forall|i: int| 0 <= i < ks.len() implies entry_lookup(es, #[trigger] ks[i]) == Some(
        es[i].1,
    ) by {
        assert forall|j: int| 0 <= j < i implies es[j].0 != ks[i] by {
            assert(es[j].0 == ks[j]);
        }
        lemma_entry_lookup_at(es, ks[i], i);
    }
}

/// What a dictionary holds under `key`.
pub open spec fn dict_lookup(d: DictView, key: Seq<char>) -> Option<DictView> {
    match d {
        DictView::Dict(es) => entry_lookup(es, key),
        _ => None,
    }
}

/// A starting price as a dictionary value: its number or string, or null.
pub open spec fn sp_or_null(v: SpView) -> DictView {
    match v {
        SpView::Float(f) => DictView::Float(f),
        SpView::Str(t) => DictView::Str(t),
        SpView::Null => DictView::Null,
    }
}

/// A number or null, as a dictionary value.
pub open spec fn number_or_null(o: Option<u64>) -> DictView {
    match o {
        Some(f) => DictView::Float(f),
        None => DictView::Null,
    }
}

/// Under each of its keys the dictionary of a runner book holds the book's own
/// field of that name: its selection id, handicap, status, adjustment
/// factor, last price traded, total matched and removal date (a number or
/// string, or null when the book has none), and its exchange listings.
pub proof fn lemma_runner_dict_entries(b: RunnerBook)
    ensures
        dict_lookup(runner_dict(b), "selectionId"@) == Some(DictView::Int(b.selection_id)),
        dict_lookup(runner_dict(b), "handicap"@) == Some(DictView::Float(b.handicap)),
        dict_lookup(runner_dict(b), "status"@) == Some(DictView::Str(b.status@)),
        dict_lookup(runner_dict(b), "adjustmentFactor"@) == Some(number_or_null(b.adjustment_factor)),
        dict_lookup(runner_dict(b), "lastPriceTraded"@) == Some(number_or_null(b.last_price_traded)),
        dict_lookup(runner_dict(b), "totalMatched"@) == Some(DictView::Float(b.total_matched)),
        dict_lookup(runner_dict(b), "removalDate"@) == Some(
            match opt_str_view(b.removal_date) {
                Some(s) => DictView::Str(s),
                None => DictView::Null,
            },
        ),
        dict_lookup(runner_dict(b), "ex"@) matches Some(ex) && {
            &&& dict_lookup(ex, "availableToBack"@) == Some(price_sizes_dict(b.ex.available_to_back@))
            &&& dict_lookup(ex, "availableToLay"@) == Some(price_sizes_dict(b.ex.available_to_lay@))
            &&& dict_lookup(ex, "tradedVolume"@) == Some(price_sizes_dict(b.ex.traded_volume@))
        },
        dict_lookup(runner_dict(b), "sp"@) matches Some(sp) && {
            &&& dict_lookup(sp, "nearPrice"@) == Some(sp_or_null(b.sp.near_price@))
            &&& dict_lookup(sp, "farPrice"@) == Some(sp_or_null(b.sp.far_price@))
            &&& dict_lookup(sp, "actualSP"@) == Some(sp_or_null(b.sp.actual_sp@))
            &&& dict_lookup(sp, "backStakeTaken"@) == Some(price_sizes_dict(b.sp.back_stake_taken@))
            &&& dict_lookup(sp, "layLiabilityTaken"@) == Some(
                price_sizes_dict(b.sp.lay_liability_taken@),
            )
        },
{
    reveal_strlit("selectionId");
    reveal_strlit("handicap");
    reveal_strlit("status");
    reveal_strlit("adjustmentFactor");
    reveal_strlit("lastPriceTraded");
    reveal_strlit("totalMatched");
    reveal_strlit("removalDate");
    reveal_strlit("ex");
    reveal_strlit("availableToBack");
    reveal_strlit("availableToLay");
    reveal_strlit("tradedVolume");
    if let DictView::Dict(es) = runner_dict(b) {
        let ks = seq![
            "selectionId"@,
            "handicap"@,
            "status"@,
            "adjustmentFactor"@,
            "lastPriceTraded"@,
            "totalMatched"@,
            "removalDate"@,
            "ex"@,
        ];
        assert forall|i: int| 0 <= i < ks.len() implies #[trigger] es[i].0 == ks[i] by {}
        assert forall|i: int, j: int| 0 <= j < i < ks.len() implies #[trigger] ks[j] != #[trigger] ks[i] by {
            if ks[j] == ks[i] {
                assert(ks[j].len() == ks[i].len());
                assert(ks[j][0] == ks[i][0]);
            }
        }
        assert forall|i: int| 0 <= i < ks.len() implies entry_lookup(es, #[trigger] ks[i]) == Some(
            es[i].1,
        ) by {
            assert forall|j: int| 0 <= j < i implies es[j].0 != ks[i] by {
                assert(es[j].0 == ks[j]);
            }
            lemma_entry_lookup_at(es, ks[i], i);
        }
        assert(entry_lookup(es, ks[0]) == Some(es[0].1));
        assert(entry_lookup(es, ks[1]) == Some(es[1].1));
        assert(entry_lookup(es, ks[2]) == Some(es[2].1));
        assert(entry_lookup(es, ks[3]) == Some(es[3].1));
        assert(entry_lookup(es, ks[4]) == Some(es[4].1));
        assert(entry_lookup(es, ks[5]) == Some(es[5].1));
        assert(entry_lookup(es, ks[6]) == Some(es[6].1));
        assert(entry_lookup(es, ks[7]) == Some(es[7].1));
        reveal_strlit("sp");
        reveal_strlit("nearPrice");
        reveal_strlit("farPrice");
        reveal_strlit("actualSP");
        reveal_strlit("backStakeTaken");
        reveal_strlit("layLiabilityTaken");
        assert(es[8].0 == "sp"@);
        assert forall|j: int| 0 <= j < 8 implies es[j].0 != "sp"@ by {
            assert(es[j].0 == ks[j]);
            if ks[j] == "sp"@ {
                assert(ks[j].len() == 2);
                assert(ks[j][0] == 's');
            }
        }
        lemma_entry_lookup_at(es, "sp"@, 8);
        if let DictView::Dict(ys) = es[8].1 {
            let yk = seq!["nearPrice"@, "farPrice"@, "actualSP"@, "backStakeTaken"@, "layLiabilityTaken"@];
            assert forall|i: int| 0 <= i < yk.len() implies #[trigger] ys[i].0 == yk[i] by {}
            assert forall|i: int, j: int| 0 <= i < j < yk.len() implies #[trigger] yk[i]
                != #[trigger] yk[j] by {
                if yk[i] == yk[j] {
                    assert(yk[i].len() == yk[j].len());
                    assert(yk[i][0] == yk[j][0]);
                }
            }
            lemma_entry_lookup_keys(ys, yk);
            assert(entry_lookup(ys, yk[0]) == Some(ys[0].1));
            assert(entry_lookup(ys, yk[1]) == Some(ys[1].1));
            assert(entry_lookup(ys, yk[2]) == Some(ys[2].1));
            assert(entry_lookup(ys, yk[3]) == Some(ys[3].1));
            assert(entry_lookup(ys, yk[4]) == Some(ys[4].1));
        }
        if let DictView::Dict(xs) = es[7].1 {
            let xk = seq!["availableToBack"@, "availableToLay"@, "tradedVolume"@];
            assert(xs[0].0 == xk[0] && xs[1].0 == xk[1] && xs[2].0 == xk[2]);
            assert(xk[1] != xk[0]) by {
                assert(xk[1].len() != xk[0].len());
            }
            assert(xk[2] != xk[0] && xk[2] != xk[1]) by {
                assert(xk[2].len() != xk[0].len() && xk[2].len() != xk[1].len());
            }
            lemma_entry_lookup_at(xs, xk[0], 0);
            lemma_entry_lookup_at(xs, xk[1], 1);
            lemma_entry_lookup_at(xs, xk[2], 2);
        }
    }
}

/// A boolean, an integer or a string as a dictionary value.
pub open spec fn int_or_null(o: Option<i64>) -> DictView {
    match o {
        Some(i) => DictView::Int(i),
        None => DictView::Null,
    }
}

/// Under each of its keys the dictionary of a market book holds the book's own
/// field of that name; its runners are the dictionaries of the runner books,
/// in the book's order; and it holds a market definition exactly when the
/// book has one.
pub proof fn lemma_book_dict_entries(b: MarketBook)
    ensures
        dict_lookup(book_dict(b), "marketId"@) == Some(DictView::Str(b.market_id@)),
        dict_lookup(book_dict(b), "status"@) == Some(DictView::Str(b.status@)),
        dict_lookup(book_dict(b), "betDelay"@) == Some(DictView::Int(b.bet_delay as i64)),
        dict_lookup(book_dict(b), "bspReconciled"@) == Some(DictView::Bool(b.bsp_reconciled)),
        dict_lookup(book_dict(b), "complete"@) == Some(DictView::Bool(b.complete)),
        dict_lookup(book_dict(b), "crossMatching"@) == Some(DictView::Bool(b.cross_matching)),
        dict_lookup(book_dict(b), "inplay"@) == Some(DictView::Bool(b.inplay)),
        dict_lookup(book_dict(b), "numberOfActiveRunners"@) == Some(
            DictView::Int(b.number_of_active_runners as i64),
        ),
        dict_lookup(book_dict(b), "numberOfRunners"@) == Some(
            DictView::Int(b.number_of_runners as i64),
        ),
        dict_lookup(book_dict(b), "numberOfWinners"@) == Some(
            DictView::Int(b.number_of_winners as i64),
        ),
        dict_lookup(book_dict(b), "runnersVoidable"@) == Some(DictView::Bool(b.runners_voidable)),
        dict_lookup(book_dict(b), "totalMatched"@) == Some(DictView::Float(b.total_matched)),
        dict_lookup(book_dict(b), "version"@) == Some(DictView::Int(b.version)),
        dict_lookup(book_dict(b), "lastMatchTime"@) == Some(int_or_null(b.last_match_time)),
        dict_lookup(book_dict(b), "publishTime"@) == Some(DictView::Int(b.publish_time_millis)),
        dict_lookup(book_dict(b), "runners"@) matches Some(DictView::List(rs)) && rs.len()
            == b.runners@.len() && forall|i: int|
            0 <= i < rs.len() ==> #[trigger] rs[i] == runner_dict(b.runners@[i]),
        dict_lookup(book_dict(b), "marketDefinition"@) == match b.market_definition {
            Some(d) => Some(definition_dict(d)),
            None => None,
        },
{
    reveal_strlit("marketId");
    reveal_strlit("status");
    reveal_strlit("betDelay");
    reveal_strlit("bspReconciled");
    reveal_strlit("complete");
    reveal_strlit("crossMatching");
    reveal_strlit("inplay");
    reveal_strlit("numberOfActiveRunners");
    reveal_strlit("numberOfRunners");
    reveal_strlit("numberOfWinners");
    reveal_strlit("runnersVoidable");
    reveal_strlit("totalMatched");
    reveal_strlit("version");
    reveal_strlit("lastMatchTime");
    reveal_strlit("publishTime");
    reveal_strlit("runners");
    reveal_strlit("marketDefinition");
    let ks = seq![
        "marketId"@,
        "status"@,
        "betDelay"@,
        "bspReconciled"@,
        "complete"@,
        "crossMatching"@,
        "inplay"@,
        "numberOfActiveRunners"@,
        "numberOfRunners"@,
        "numberOfWinners"@,
        "runnersVoidable"@,
        "totalMatched"@,
        "version"@,
        "lastMatchTime"@,
        "publishTime"@,
        "runners"@,
    ];
    if let DictView::Dict(es) = book_dict(b) {
        assert forall|i: int| 0 <= i < ks.len() implies #[trigger] es[i].0 == ks[i] by {}
        assert forall|i: int, j: int| 0 <= i < j < ks.len() implies #[trigger] ks[i]
            != #[trigger] ks[j] by {
            if ks[i] == ks[j] {
                assert(ks[i].len() == ks[j].len());
                assert(ks[i][0] == ks[j][0]);
                if ks[i].len() > 8 {
                    assert(ks[i][8] == ks[j][8]);
                }
            }
        }
        lemma_entry_lookup_keys(es, ks);
        assert(entry_lookup(es, ks[0]) == Some(es[0].1));
        assert(entry_lookup(es, ks[1]) == Some(es[1].1));
        assert(entry_lookup(es, ks[2]) == Some(es[2].1));
        assert(entry_lookup(es, ks[3]) == Some(es[3].1));
        assert(entry_lookup(es, ks[4]) == Some(es[4].1));
        assert(entry_lookup(es, ks[5]) == Some(es[5].1));
        assert(entry_lookup(es, ks[6]) == Some(es[6].1));
        assert(entry_lookup(es, ks[7]) == Some(es[7].1));
        assert(entry_lookup(es, ks[8]) == Some(es[8].1));
        assert(entry_lookup(es, ks[9]) == Some(es[9].1));
        assert(entry_lookup(es, ks[10]) == Some(es[10].1));
        assert(entry_lookup(es, ks[11]) == Some(es[11].1));
        assert(entry_lookup(es, ks[12]) == Some(es[12].1));
        assert(entry_lookup(es, ks[13]) == Some(es[13].1));
        assert(entry_lookup(es, ks[14]) == Some(es[14].1));
        assert(entry_lookup(es, ks[15]) == Some(es[15].1));
        let md = "marketDefinition"@;
        assert forall|j: int| 0 <= j < ks.len() implies #[trigger] ks[j] != md by {
            if ks[j] == md {
                assert(ks[j].len() == md.len());
            }
        }
        match b.market_definition {
            Some(d) => {
                assert(es[16].0 == md);
                assert forall|j: int| 0 <= j < 16 implies es[j].0 != md by {
                    assert(es[j].0 == ks[j]);
                }
                lemma_entry_lookup_at(es, md, 16);
            },
            None => {
                assert forall|j: int| 0 <= j < es.len() implies es[j].0 != md by {
                    assert(es[j].0 == ks[j]);
                }
                lemma_entry_lookup_absent(es, md);
            },
        }
    }
}

/// A book made after a market change hands out a fresh definition when the
/// change carried a market definition, and the previous book's definition
/// otherwise, as long as that previous book is current.
pub proof fn lemma_definition_reused_iff_none_received(
    m: MarketView,
    mc: JsonValue,
    publish_time: i64,
    book: MarketBook,
)
    requires
        m.cached_def_generation == m.def_generation,
        is_market_book(book, market_update(m, mc, publish_time)),
    ensures
        book.definition_reused <==> mc.field("marketDefinition"@) is None,
{
    lemma_definition_cache_after_change(m, mc, publish_time);
}

/// What a market definition does to the market's definition fields: each
/// text field it carries is taken, the flags and numbers it carries are
/// taken, the others are kept; when it lists runners, they become the
/// definition runners, one for each entry in order, each with the entry's id,
/// sort priority, status (`ACTIVE` when absent), handicap, adjustment factor,
/// removal date, name and starting price.
pub proof fn lemma_definition_fields(m: MarketView, mc: JsonValue, publish_time: i64, def: JsonValue)
    requires
        mc.field("marketDefinition"@) == Some(def),
    ensures
        ({
            let a = market_update(m, mc, publish_time);
            let d = a.definition;
            &&& d.event_id == first_of(def.field_str("eventId"@), m.definition.event_id)
            &&& d.event_type_id == first_of(def.field_str("eventTypeId"@), m.definition.event_type_id)
            &&& d.event_name == first_of(def.field_str("eventName"@), m.definition.event_name)
            &&& d.market_type == first_of(def.field_str("marketType"@), m.definition.market_type)
            &&& d.market_time == first_of(def.field_str("marketTime"@), m.definition.market_time)
            &&& d.country_code == first_of(def.field_str("countryCode"@), m.definition.country_code)
            &&& d.venue == first_of(def.field_str("venue"@), m.definition.venue)
            &&& d.race_type == first_of(def.field_str("raceType"@), m.definition.race_type)
            &&& d.name == first_of(def.field_str("name"@), m.definition.name)
            &&& d.timezone == first_of(def.field_str("timezone"@), m.definition.timezone)
            &&& d.betting_type == first_of(def.field_str("bettingType"@), m.definition.betting_type)
            &&& d.open_date == first_of(def.field_str("openDate"@), m.definition.open_date)
            &&& d.suspend_time == first_of(def.field_str("suspendTime"@), m.definition.suspend_time)
            &&& d.settled_time == first_of(def.field_str("settledTime"@), m.definition.settled_time)
            &&& d.bsp_market == def.field_bool("bspMarket"@).unwrap_or(m.definition.bsp_market)
            &&& d.persistence_enabled == def.field_bool("persistenceEnabled"@).unwrap_or(
                m.definition.persistence_enabled,
            )
            &&& d.turn_in_play_enabled == def.field_bool("turnInPlayEnabled"@).unwrap_or(
                m.definition.turn_in_play_enabled,
            )
            &&& d.discount_allowed == def.field_bool("discountAllowed"@).unwrap_or(
                m.definition.discount_allowed,
            )
            &&& d.each_way_divisor == first_of(def.field_f64("eachWayDivisor"@), m.definition.each_way_divisor)
            &&& d.market_base_rate == def.field_f64("marketBaseRate"@).unwrap_or(
                m.definition.market_base_rate,
            )
            &&& def.field_array("regulators"@) is None ==> d.regulators == m.definition.regulators
            &&& a.def_generation == next_generation(m.def_generation)
            &&& match def.field_array("runners"@) {
                Some(rs) => {
                    &&& a.def_runners.len() == rs.len()
                    &&& forall|i: int|
                        0 <= i < rs.len() ==> {
                            let x = #[trigger] a.def_runners[i];
                            &&& x.selection_id == rs[i].field_i64("id"@).unwrap_or(0)
                            &&& x.sort_priority == rs[i].field_i64("sortPriority"@).unwrap_or(0) as i32
                            &&& x.status == rs[i].field_str("status"@).unwrap_or("ACTIVE"@)
                            &&& x.handicap == rs[i].field_f64("hc"@).unwrap_or(0)
                            &&& x.adjustment_factor == rs[i].field_f64("adjustmentFactor"@)
                            &&& x.removal_date == rs[i].field_str("removalDate"@)
                            &&& x.name == rs[i].field_str("name"@)
                            &&& x.bsp == rs[i].field_f64("bsp"@)
                        }
                },
                None => a.def_runners == m.def_runners,
            }
        }),
{
}

/// A market change without a market definition leaves the definition fields,
/// the definition runners and the definition counter as they were.
pub proof fn lemma_no_definition_keeps_fields(m: MarketView, mc: JsonValue, publish_time: i64)
    requires
        mc.field("marketDefinition"@) is None,
    ensures
        market_update(m, mc, publish_time).definition == m.definition,
        market_update(m, mc, publish_time).def_runners == m.def_runners,
        market_update(m, mc, publish_time).def_generation == m.def_generation,
{
}

/// One ladder update `[price, size]` sets the price to the size, or removes
/// the price when the size is zero; the ladder's other prices are kept.
pub proof fn lemma_ladder_single_update(m: Map<u64, u64>, u: JsonValue, p: u64, size: u64)
    requires
        u.array_value() matches Some(arr) && arr.len() >= 2 && arr[0].f64_value() == Some(p)
            && arr[1].f64_value() == Some(size),
    ensures
        spec_is_zero(size) ==> !ladder_fold(m, seq![u]).0.contains_key(p),
        !spec_is_zero(size) ==> ladder_fold(m, seq![u]).0.contains_key(p) && ladder_fold(
            m,
            seq![u],
        ).0[p] == size,
        forall|q: u64|
            q != p ==> (#[trigger] ladder_fold(m, seq![u]).0.contains_key(q) == m.contains_key(q))
                && (m.contains_key(q) ==> ladder_fold(m, seq![u]).0[q] == m[q]),
        ladder_fold(m, seq![u]).1 <==> if spec_is_zero(size) {
            m.contains_key(p)
        } else {
            !(m.contains_key(p) && spec_float_eq(m[p], size))
        },
{
    assert(seq![u].drop_last() =~= Seq::<JsonValue>::empty());
    assert(seq![u].last() == u);
    assert(ladder_fold(m, Seq::<JsonValue>::empty()) == (m, false));
    assert(ladder_fold(m, seq![u].drop_last()) == (m, false));
    let arr = u.array_value().unwrap();
    assert(arr[0].f64_value().unwrap_or(0) == p);
    assert(update_level(u) == Some((p, size)));
    assert(ladder_fold(m, seq![u]).0 == ladder_step(m, u).0);
    let a = ladder_fold(m, seq![u]).0;
    assert(a == if spec_is_zero(size) {
        m.remove(p)
    } else {
        m.insert(p, size)
    });
    assert forall|q: u64| q != p implies (#[trigger] a.contains_key(q) == m.contains_key(q)) && (
    m.contains_key(q) ==> a[q] == m[q]) by {}
}

/// A runner entry (a runner change, or the runner's entry of a definition)
/// that carries an id updates the runner filed under its id and handicap in
/// hundredths, starting from a fresh runner with that id and handicap when
/// there is none, and leaves every other runner as it was; an entry without
/// an id changes nothing.
pub proof fn lemma_runner_entry_filed(
    rs: Map<RunnerKey, RunnerView>,
    rc: JsonValue,
    from_definition: bool,
)
    ensures
        ({
            let a = runners_step(rs, rc, from_definition);
            match rc.field_i64("id"@) {
                Some(id) => {
                    let k = (id, rc.field_hundredths("hc"@).unwrap_or(0));
                    let base = if rs.contains_key(k) {
                        rs[k]
                    } else {
                        runner_initial(id, rc.field_f64("hc"@).unwrap_or(0))
                    };
                    &&& a.contains_key(k)
                    &&& a[k] == if from_definition {
                        runner_definition_update(base, rc).0
                    } else {
                        runner_update(base, rc).0
                    }
                    &&& forall|q: RunnerKey|
                        q != k ==> (#[trigger] a.contains_key(q) == rs.contains_key(q)) && (
                        rs.contains_key(q) ==> a[q] == rs[q])
                },
                None => a == rs,
            }
        }),
{
}

/// A fresh runner is active, with the id and handicap it was filed under,
/// empty ladders, no prices and nothing traded.
pub proof fn lemma_fresh_runner(id: i64, hc: u64)
    ensures
        runner_initial(id, hc).selection_id == id,
        runner_initial(id, hc).handicap == hc,
        runner_initial(id, hc).status == "ACTIVE"@,
        runner_initial(id, hc).available_to_back.dom().is_empty(),
        runner_initial(id, hc).available_to_lay.dom().is_empty(),
        runner_initial(id, hc).traded.dom().is_empty(),
        runner_initial(id, hc).last_price_traded is None,
        runner_initial(id, hc).total_matched == 0,
{
}

/// Runners that no entry of a list names are left as they were.
pub proof fn lemma_unnamed_runners_kept(
    rs: Map<RunnerKey, RunnerView>,
    rcs: Seq<JsonValue>,
    from_definition: bool,
    k: RunnerKey,
)
    requires
        forall|i: int|
            0 <= i < rcs.len() ==> !(#[trigger] rcs[i].field_i64("id"@) == Some(k.0) && rcs[i].field_hundredths(
                "hc"@,
            ).unwrap_or(0) == k.1),
    ensures
        runners_fold(rs, rcs, from_definition).contains_key(k) == rs.contains_key(k),
        rs.contains_key(k) ==> runners_fold(rs, rcs, from_definition)[k] == rs[k],
    decreases rcs.len(),
{
    if rcs.len() > 0 {
        let init = rcs.drop_last();
        assert forall|i: int| 0 <= i < init.len() implies !(#[trigger] init[i].field_i64("id"@) == Some(
            k.0,
        ) && init[i].field_hundredths("hc"@).unwrap_or(0) == k.1) by {
            assert(init[i] == rcs[i]);
        }
        lemma_unnamed_runners_kept(rs, init, from_definition, k);
        let last = rcs[rcs.len() - 1];
        assert(last == rcs.last());
        lemma_runner_entry_filed(runners_fold(rs, init, from_definition), last, from_definition);
    }
}

/// Once a market has started, the rest of a message's changes keep it
/// started and under the same market id.
pub proof fn lemma_market_id_kept(m: MarketView, changes: Seq<JsonValue>, publish_time: i64)
    ensures
        apply_changes(Some(m), changes, publish_time) matches Some(a) && a.market_id == m.market_id,
    decreases changes.len(),
{
    if changes.len() > 0 {
        lemma_market_id_kept(m, changes.drop_last(), publish_time);
    }
}

/// A message's first change with a non-empty string id starts the market
/// under that id; a change without one starts nothing.
pub proof fn lemma_market_started_by_id(mc: JsonValue, publish_time: i64)
    ensures
        (apply_changes(None, seq![mc], publish_time) is Some) <==> (mc.field_str("id"@) matches Some(
            id,
        ) && id.len() > 0),
        apply_changes(None, seq![mc], publish_time) matches Some(a) ==> mc.field_str("id"@) == Some(
            a.market_id,
        ),
{
    assert(seq![mc].drop_last() =~= Seq::<JsonValue>::empty());
    assert(seq![mc].last() == mc);
    assert(apply_changes(None, Seq::<JsonValue>::empty(), publish_time) is None);
    assert(apply_changes(None, seq![mc].drop_last(), publish_time) is None);
}

/// A message line contributes its `pt` as publish time with the elements of
/// its `mc` array as market changes, or, without such an array, itself as the
/// one change when it carries a market definition or runner changes; a line
/// without a positive publish time or without changes contributes nothing.
pub proof fn lemma_message_read(msg: JsonValue)
    ensures
        msg.field_i64("pt"@).unwrap_or(0) <= 0 ==> message_of(msg) is None,
        msg.field_i64("pt"@).unwrap_or(0) > 0 ==> match msg.field_array("mc"@) {
            Some(mcs) => message_of(msg) == Some((msg.field_i64("pt"@).unwrap_or(0), mcs)),
            None => if msg.field("marketDefinition"@) is Some || msg.field("rc"@) is Some {
                message_of(msg) == Some((msg.field_i64("pt"@).unwrap_or(0), seq![msg]))
            } else {
                message_of(msg) is None
            },
        },
{
}

/// A market change counts its runners: the number of runners is the size of
/// the market's runner set, and the active ones are at most all of them.
pub proof fn lemma_runner_counts(m: MarketView, mc: JsonValue, publish_time: i64)
    ensures
        market_update(m, mc, publish_time).number_of_runners == market_update(
            m,
            mc,
            publish_time,
        ).runners.dom().len() as i32,
        market_update(m, mc, publish_time).number_of_active_runners == active_count(
            market_update(m, mc, publish_time).runners,
        ) as i32,
{
}

/// Every runner after a list of entries was there before or is named by one
/// of the entries.
pub proof fn lemma_runners_named(
    rs: Map<RunnerKey, RunnerView>,
    rcs: Seq<JsonValue>,
    from_definition: bool,
    k: RunnerKey,
)
    requires
        runners_fold(rs, rcs, from_definition).contains_key(k),
    ensures
        rs.contains_key(k) || exists|i: int|
            0 <= i < rcs.len() && #[trigger] rcs[i].field_i64("id"@) == Some(k.0) && rcs[i].field_hundredths(
                "hc"@,
            ).unwrap_or(0) == k.1,
    decreases rcs.len(),
{
    if rcs.len() > 0 {
        let init = rcs.drop_last();
        let last = rcs[rcs.len() - 1];
        assert(last == rcs.last());
        lemma_runner_entry_filed(runners_fold(rs, init, from_definition), last, from_definition);
        if runners_fold(rs, init, from_definition).contains_key(k) {
            lemma_runners_named(rs, init, from_definition, k);
            if !rs.contains_key(k) {
                let i = choose|i: int|
                    0 <= i < init.len() && #[trigger] init[i].field_i64("id"@) == Some(k.0)
                        && init[i].field_hundredths("hc"@).unwrap_or(0) == k.1;
                assert(rcs[i] == init[i]);
            }
        }
    }
}

/// The runner entry `rc` names the runner key `k`.
pub open spec fn names_key(rc: JsonValue, k: RunnerKey) -> bool {
    rc.field_i64("id"@) == Some(k.0) && rc.field_hundredths("hc"@).unwrap_or(0) == k.1
}

/// After an image, the market holds only the runners that the image's market
/// definition or runner changes name.
#[verifier::rlimit(40)]
pub proof fn lemma_image_holds_named_runners(
    m: MarketView,
    mc: JsonValue,
    publish_time: i64,
    k: RunnerKey,
)
    requires
        mc.field_bool("img"@) == Some(true),
        market_update(m, mc, publish_time).runners.contains_key(k),
    ensures
        (definition_member(mc, "runners"@) matches Some(v) && v.array_value() matches Some(rs)
            && exists|i: int| 0 <= i < rs.len() && names_key(#[trigger] rs[i], k)) || (mc.field_array(
            "rc"@,
        ) matches Some(rcs) && exists|i: int| 0 <= i < rcs.len() && names_key(#[trigger] rcs[i], k)),
{
    let e = Map::<RunnerKey, RunnerView>::empty();
    let m1 = MarketView { publish_time, runners: e, ..m };
    let m2 = match mc.field("marketDefinition"@) {
        Some(def) => definition_update(m1, def),
        None => m1,
    };
    let after_def = match mc.field("marketDefinition"@) {
        Some(def) => match def.field_array("runners"@) {
            Some(rs) => runners_fold(e, rs, true),
            None => e,
        },
        None => e,
    };
    assert(m2.runners == after_def);
    let fin = match mc.field_array("rc"@) {
        Some(rcs) => runners_fold(after_def, rcs, false),
        None => after_def,
    };
    assert(market_update(m, mc, publish_time).runners == fin);
    if let Some(rcs) = mc.field_array("rc"@) {
        lemma_runners_named(after_def, rcs, false, k);
        if !after_def.contains_key(k) {
            let i = choose|i: int|
                0 <= i < rcs.len() && #[trigger] rcs[i].field_i64("id"@) == Some(k.0)
                    && rcs[i].field_hundredths("hc"@).unwrap_or(0) == k.1;
            assert(names_key(rcs[i], k));
        }
    }
    if after_def.contains_key(k) {
        if let Some(def) = mc.field("marketDefinition"@) {
            if let Some(rs) = def.field_array("runners"@) {
                lemma_runners_named(e, rs, true, k);
                let i = choose|i: int|
                    0 <= i < rs.len() && #[trigger] rs[i].field_i64("id"@) == Some(k.0)
                        && rs[i].field_hundredths("hc"@).unwrap_or(0) == k.1;
                assert(names_key(rs[i], k));
            }
        }
    }
}

/// A string or null, as a dictionary value.
pub open spec fn str_or_null(o: Option<Seq<char>>) -> DictView {
    match o {
        Some(s) => DictView::Str(s),
        None => DictView::Null,
    }
}

/// Under each of its keys the dictionary of a market definition holds the
/// definition's own field of that name (a string, or null when the
/// definition has none); its regulators and runners are listed in order.
#[verifier::rlimit(40)]
pub proof fn lemma_definition_dict_entries(d: MarketDefinition)
    ensures
        dict_lookup(definition_dict(d), "betDelay"@) == Some(DictView::Int(d.bet_delay as i64)),
        dict_lookup(definition_dict(d), "bettingType"@) == Some(str_or_null(opt_str_view(d.betting_type))),
        dict_lookup(definition_dict(d), "bspMarket"@) == Some(DictView::Bool(d.bsp_market)),
        dict_lookup(definition_dict(d), "bspReconciled"@) == Some(DictView::Bool(d.bsp_reconciled)),
        dict_lookup(definition_dict(d), "complete"@) == Some(DictView::Bool(d.complete)),
        dict_lookup(definition_dict(d), "countryCode"@) == Some(str_or_null(opt_str_view(d.country_code))),
        dict_lookup(definition_dict(d), "crossMatching"@) == Some(DictView::Bool(d.cross_matching)),
        dict_lookup(definition_dict(d), "discountAllowed"@) == Some(DictView::Bool(d.discount_allowed)),
        dict_lookup(definition_dict(d), "eventId"@) == Some(str_or_null(opt_str_view(d.event_id))),
        dict_lookup(definition_dict(d), "eventName"@) == Some(str_or_null(opt_str_view(d.event_name))),
        dict_lookup(definition_dict(d), "eventTypeId"@) == Some(str_or_null(opt_str_view(d.event_type_id))),
        dict_lookup(definition_dict(d), "inPlay"@) == Some(DictView::Bool(d.in_play)),
        dict_lookup(definition_dict(d), "marketBaseRate"@) == Some(DictView::Float(d.market_base_rate)),
        dict_lookup(definition_dict(d), "marketTime"@) == Some(str_or_null(opt_str_view(d.market_time))),
        dict_lookup(definition_dict(d), "marketType"@) == Some(str_or_null(opt_str_view(d.market_type))),
        dict_lookup(definition_dict(d), "name"@) == Some(str_or_null(opt_str_view(d.name))),
        dict_lookup(definition_dict(d), "numberOfActiveRunners"@) == Some(DictView::Int(d.number_of_active_runners as i64)),
        dict_lookup(definition_dict(d), "numberOfWinners"@) == Some(DictView::Int(d.number_of_winners as i64)),
        dict_lookup(definition_dict(d), "openDate"@) == Some(str_or_null(opt_str_view(d.open_date))),
        dict_lookup(definition_dict(d), "persistenceEnabled"@) == Some(DictView::Bool(d.persistence_enabled)),
        dict_lookup(definition_dict(d), "runnersVoidable"@) == Some(DictView::Bool(d.runners_voidable)),
        dict_lookup(definition_dict(d), "status"@) == Some(DictView::Str(d.status@)),
        dict_lookup(definition_dict(d), "suspendTime"@) == Some(str_or_null(opt_str_view(d.suspend_time))),
        dict_lookup(definition_dict(d), "timezone"@) == Some(str_or_null(opt_str_view(d.timezone))),
        dict_lookup(definition_dict(d), "turnInPlayEnabled"@) == Some(DictView::Bool(d.turn_in_play_enabled)),
        dict_lookup(definition_dict(d), "venue"@) == Some(str_or_null(opt_str_view(d.venue))),
        dict_lookup(definition_dict(d), "version"@) == Some(DictView::Int(d.version)),
        dict_lookup(definition_dict(d), "regulators"@) matches Some(DictView::List(rs)) && rs.len()
            == d.regulators@.len() && forall|i: int|
            0 <= i < rs.len() ==> #[trigger] rs[i] == DictView::Str(d.regulators@[i]@),
        dict_lookup(definition_dict(d), "runners"@) matches Some(DictView::List(rs)) && rs.len()
            == d.runners@.len() && forall|i: int|
            0 <= i < rs.len() ==> #[trigger] rs[i] == def_runner_dict(d.runners@[i]),
{
    reveal_strlit("betDelay");
    reveal_strlit("bettingType");
    reveal_strlit("bspMarket");
    reveal_strlit("bspReconciled");
    reveal_strlit("complete");
    reveal_strlit("countryCode");
    reveal_strlit("crossMatching");
    reveal_strlit("discountAllowed");
    reveal_strlit("eventId");
    reveal_strlit("eventName");
    reveal_strlit("eventTypeId");
    reveal_strlit("inPlay");
    reveal_strlit("marketBaseRate");
    reveal_strlit("marketTime");
    reveal_strlit("marketType");
    reveal_strlit("name");
    reveal_strlit("numberOfActiveRunners");
    reveal_strlit("numberOfWinners");
    reveal_strlit("openDate");
    reveal_strlit("persistenceEnabled");
    reveal_strlit("regulators");
    reveal_strlit("runners");
    reveal_strlit("runnersVoidable");
    reveal_strlit("status");
    reveal_strlit("suspendTime");
    reveal_strlit("timezone");
    reveal_strlit("turnInPlayEnabled");
    reveal_strlit("venue");
    reveal_strlit("version");
    let ks = seq![
        "betDelay"@,
        "bettingType"@,
        "bspMarket"@,
        "bspReconciled"@,
        "complete"@,
        "countryCode"@,
        "crossMatching"@,
        "discountAllowed"@,
        "eventId"@,
        "eventName"@,
        "eventTypeId"@,
        "inPlay"@,
        "marketBaseRate"@,
        "marketTime"@,
        "marketType"@,
        "name"@,
        "numberOfActiveRunners"@,
        "numberOfWinners"@,
        "openDate"@,
        "persistenceEnabled"@,
        "regulators"@,
        "runners"@,
        "runnersVoidable"@,
        "status"@,
        "suspendTime"@,
        "timezone"@,
        "turnInPlayEnabled"@,
        "venue"@,
        "version"@,
    ];
    if let DictView::Dict(es) = definition_dict(d) {
        assert forall|i: int| 0 <= i < ks.len() implies #[trigger] es[i].0 == ks[i] by {}
        assert forall|i: int, j: int| 0 <= i < j < ks.len() implies #[trigger] ks[i]
            != #[trigger] ks[j] by {
            if ks[i] == ks[j] {
                assert(ks[i].len() == ks[j].len());
                assert(ks[i][0] == ks[j][0]);
                if ks[i].len() > 7 {
                    assert(ks[i][7] == ks[j][7]);
                }
            }
        }
        lemma_entry_lookup_keys(es, ks);
        assert(entry_lookup(es, ks[0]) == Some(es[0].1));
        assert(entry_lookup(es, ks[1]) == Some(es[1].1));
        assert(entry_lookup(es, ks[2]) == Some(es[2].1));
        assert(entry_lookup(es, ks[3]) == Some(es[3].1));
        assert(entry_lookup(es, ks[4]) == Some(es[4].1));
        assert(entry_lookup(es, ks[5]) == Some(es[5].1));
        assert(entry_lookup(es, ks[6]) == Some(es[6].1));
        assert(entry_lookup(es, ks[7]) == Some(es[7].1));
        assert(entry_lookup(es, ks[8]) == Some(es[8].1));
        assert(entry_lookup(es, ks[9]) == Some(es[9].1));
        assert(entry_lookup(es, ks[10]) == Some(es[10].1));
        assert(entry_lookup(es, ks[11]) == Some(es[11].1));
        assert(entry_lookup(es, ks[12]) == Some(es[12].1));
        assert(entry_lookup(es, ks[13]) == Some(es[13].1));
        assert(entry_lookup(es, ks[14]) == Some(es[14].1));
        assert(entry_lookup(es, ks[15]) == Some(es[15].1));
        assert(entry_lookup(es, ks[16]) == Some(es[16].1));
        assert(entry_lookup(es, ks[17]) == Some(es[17].1));
        assert(entry_lookup(es, ks[18]) == Some(es[18].1));
        assert(entry_lookup(es, ks[19]) == Some(es[19].1));
        assert(entry_lookup(es, ks[20]) == Some(es[20].1));
        assert(entry_lookup(es, ks[21]) == Some(es[21].1));
        assert(entry_lookup(es, ks[22]) == Some(es[22].1));
        assert(entry_lookup(es, ks[23]) == Some(es[23].1));
        assert(entry_lookup(es, ks[24]) == Some(es[24].1));
        assert(entry_lookup(es, ks[25]) == Some(es[25].1));
        assert(entry_lookup(es, ks[26]) == Some(es[26].1));
        assert(entry_lookup(es, ks[27]) == Some(es[27].1));
        assert(entry_lookup(es, ks[28]) == Some(es[28].1));
    }
}

/// Looking a key up in two lists of entries one after the other finds it in
/// the first list when it is there, and in the second otherwise.
pub proof fn lemma_entry_lookup_concat(a: Seq<(Seq<char>, DictView)>, b: Seq<(Seq<char>, DictView)>)
    ensures
        forall|key: Seq<char>|
            #[trigger] entry_lookup(a + b, key) == match entry_lookup(a, key) {
                Some(v) => Some(v),
                None => entry_lookup(b, key),
            },
    decreases a.len(),
{
    if a.len() == 0 {
        assert(a + b =~= b);
        assert forall|key: Seq<char>| #[trigger] entry_lookup(a + b, key) == match entry_lookup(a, key) {
            Some(v) => Some(v),
            None => entry_lookup(b, key),
        } by {
            assert(entry_lookup(a, key) is None);
        }
    } else {
        lemma_entry_lookup_concat(a.drop_first(), b);
        assert((a + b).drop_first() =~= a.drop_first() + b);
        assert((a + b)[0] == a[0]);
        assert forall|key: Seq<char>| #[trigger] entry_lookup(a + b, key) == match entry_lookup(a, key) {
            Some(v) => Some(v),
            None => entry_lookup(b, key),
        } by {
            assert(entry_lookup(a.drop_first() + b, key) == match entry_lookup(a.drop_first(), key) {
                Some(v) => Some(v),
                None => entry_lookup(b, key),
            });
        }
    }
}

/// A single entry is found under its own key only.
pub proof fn lemma_entry_lookup_single(k: Seq<char>, v: DictView)
    ensures
        forall|key: Seq<char>|
            #[trigger] entry_lookup(seq![(k, v)], key) == if key == k {
                Some(v)
            } else {
                None
            },
{
    let one = seq![(k, v)];
    assert(one.drop_first() =~= Seq::<(Seq<char>, DictView)>::empty());
    assert forall|key: Seq<char>| #[trigger] entry_lookup(one, key) == if key == k {
        Some(v)
    } else {
        None
    } by {
        assert(one[0] == (k, v));
        assert(entry_lookup(one.drop_first(), key) is None);
    }
}

/// Under each of its keys the dictionary of a definition runner holds the
/// runner's own field of that name; the adjustment factor, name, removal date
/// and starting price are there only when the runner has them, and the
/// handicap only when it is not zero.
#[verifier::rlimit(40)]
pub proof fn lemma_def_runner_dict_entries(r: MarketDefinitionRunner)
    ensures
        dict_lookup(def_runner_dict(r), "id"@) == Some(DictView::Int(r.selection_id)),
        dict_lookup(def_runner_dict(r), "sortPriority"@) == Some(DictView::Int(r.sort_priority as i64)),
        dict_lookup(def_runner_dict(r), "status"@) == Some(DictView::Str(r.status@)),
        dict_lookup(def_runner_dict(r), "adjustmentFactor"@) == match r.adjustment_factor {
            Some(f) => Some(DictView::Float(f)),
            None => None,
        },
        dict_lookup(def_runner_dict(r), "name"@) == match opt_str_view(r.name) {
            Some(s) => Some(DictView::Str(s)),
            None => None,
        },
        dict_lookup(def_runner_dict(r), "hc"@) == if spec_is_zero(r.handicap) {
            None
        } else {
            Some(DictView::Float(r.handicap))
        },
        dict_lookup(def_runner_dict(r), "removalDate"@) == match opt_str_view(r.removal_date) {
            Some(s) => Some(DictView::Str(s)),
            None => None,
        },
        dict_lookup(def_runner_dict(r), "bsp"@) == match r.bsp {
            Some(f) => Some(DictView::Float(f)),
            None => None,
        },
{
    reveal_strlit("id");
    reveal_strlit("sortPriority");
    reveal_strlit("status");
    reveal_strlit("adjustmentFactor");
    reveal_strlit("name");
    reveal_strlit("hc");
    reveal_strlit("removalDate");
    reveal_strlit("bsp");
    let base = seq![
        ("id"@, DictView::Int(r.selection_id)),
        ("sortPriority"@, DictView::Int(r.sort_priority as i64)),
        ("status"@, DictView::Str(r.status@)),
    ];
    let p1 = entry_if_some("adjustmentFactor"@, r.adjustment_factor, |f: u64| DictView::Float(f));
    let p2 = entry_if_some("name"@, opt_str_view(r.name), |s: Seq<char>| DictView::Str(s));
    let p3 = if spec_is_zero(r.handicap) {
        Seq::<(Seq<char>, DictView)>::empty()
    } else {
        seq![("hc"@, DictView::Float(r.handicap))]
    };
    let p4 = entry_if_some("removalDate"@, opt_str_view(r.removal_date), |s: Seq<char>| DictView::Str(s));
    let p5 = entry_if_some("bsp"@, r.bsp, |f: u64| DictView::Float(f));
    assert(def_runner_dict(r) == DictView::Dict(base + p1 + p2 + p3 + p4 + p5));
    lemma_entry_lookup_concat(base, p1);
    lemma_entry_lookup_concat(base + p1, p2);
    lemma_entry_lookup_concat(base + p1 + p2, p3);
    lemma_entry_lookup_concat(base + p1 + p2 + p3, p4);
    lemma_entry_lookup_concat(base + p1 + p2 + p3 + p4, p5);
    let ks = seq!["id"@, "sortPriority"@, "status"@];
    assert forall|i: int| 0 <= i < ks.len() implies #[trigger] base[i].0 == ks[i] by {}
    assert forall|i: int, j: int| 0 <= i < j < ks.len() implies #[trigger] ks[i] != #[trigger] ks[j] by {
        if ks[i] == ks[j] {
            assert(ks[i].len() == ks[j].len());
        }
    }
    lemma_entry_lookup_keys(base, ks);
    assert(entry_lookup(base, ks[0]) == Some(base[0].1));
    assert(entry_lookup(base, ks[1]) == Some(base[1].1));
    assert(entry_lookup(base, ks[2]) == Some(base[2].1));
    let others = seq!["adjustmentFactor"@, "name"@, "hc"@, "removalDate"@, "bsp"@];
    assert forall|i: int, j: int| 0 <= i < ks.len() && 0 <= j < others.len() implies #[trigger] ks[i]
        != #[trigger] others[j] by {
        if ks[i] == others[j] {
            assert(ks[i].len() == others[j].len());
            assert(ks[i][0] == others[j][0]);
        }
    }
    assert forall|i: int, j: int| 0 <= i < j < others.len() implies #[trigger] others[i]
        != #[trigger] others[j] by {
        if others[i] == others[j] {
            assert(others[i].len() == others[j].len());
        }
    }
    assert forall|j: int| 0 <= j < others.len() implies entry_lookup(base, #[trigger] others[j]) is None by {
        assert forall|i: int| 0 <= i < base.len() implies base[i].0 != others[j] by {
            assert(base[i].0 == ks[i]);
        }
        lemma_entry_lookup_absent(base, others[j]);
    }
    assert(entry_lookup(base, others[0]) is None);
    assert(entry_lookup(base, others[1]) is None);
    assert(entry_lookup(base, others[2]) is None);
    assert(entry_lookup(base, others[3]) is None);
    assert(entry_lookup(base, others[4]) is None);
    lemma_entry_lookup_single("adjustmentFactor"@, DictView::Float(r.adjustment_factor.unwrap_or(0)));
    lemma_entry_lookup_single("name"@, DictView::Str(opt_str_view(r.name).unwrap_or(Seq::empty())));
    lemma_entry_lookup_single("hc"@, DictView::Float(r.handicap));
    lemma_entry_lookup_single(
        "removalDate"@,
        DictView::Str(opt_str_view(r.removal_date).unwrap_or(Seq::empty())),
    );
    lemma_entry_lookup_single("bsp"@, DictView::Float(r.bsp.unwrap_or(0)));
    assert(entry_lookup(Seq::<(Seq<char>, DictView)>::empty(), "id"@) is None);
    assert forall|key: Seq<char>| #[trigger] entry_lookup(Seq::<(Seq<char>, DictView)>::empty(), key) is None by {}
}

/// `rb` is the book of one of the market's runners.
pub open spec fn book_of_some_runner(rb: RunnerBook, m: MarketView) -> bool {
    exists|k: RunnerKey| #[trigger] m.runners.contains_key(k) && is_book_of(rb, m.runners[k])
}

/// A market book lists the market's runners, each once, in ascending order of
/// selection id.
pub proof fn lemma_book_runners_in_id_order(c: MarketCache, b: MarketBook)
    requires
        c.wf(),
        is_market_book(b, c@),
    ensures
        b.runners@.len() == c@.runners.dom().len(),
        forall|i: int, j: int|
            0 <= i < j < b.runners@.len() ==> (#[trigger] b.runners@[i]).selection_id
                <= (#[trigger] b.runners@[j]).selection_id,
        forall|i: int|
            0 <= i < b.runners@.len() ==> #[trigger] book_of_some_runner(b.runners@[i], c@),
{
    c.lemma_runner_keys();
    c.lemma_sorted_runner_keys();
    let keys = c.runner_keys();
    assert(keys.to_set() =~= c@.runners.dom()) by {
        assert forall|k: RunnerKey| keys.to_set().contains(k) implies c@.runners.dom().contains(k) by {
            let i = choose|i: int| 0 <= i < keys.len() && keys[i] == k;
        }
    }
    assert(keys.no_duplicates()) by {
        assert forall|i: int, j: int| 0 <= i < keys.len() && 0 <= j < keys.len() && i != j implies keys[i]
            != keys[j] by {
            if i < j {
                assert(key_lt(keys[i], keys[j]));
            } else {
                assert(key_lt(keys[j], keys[i]));
            }
        }
    }
    keys.unique_seq_to_set();
    assert forall|i: int, j: int| 0 <= i < j < b.runners@.len() implies (#[trigger] b.runners@[i]).selection_id
        <= (#[trigger] b.runners@[j]).selection_id by {
        assert(key_lt(keys[i], keys[j]));
        assert(c@.runners[keys[i]].selection_id == keys[i].0);
        assert(c@.runners[keys[j]].selection_id == keys[j].0);
    }
    assert forall|i: int| 0 <= i < b.runners@.len() implies #[trigger] book_of_some_runner(
        b.runners@[i],
        c@,
    ) by {
        assert(keys == sorted_keys(c@.runners));
        assert(is_book_of(b.runners@[i], c@.runners[sorted_keys(c@.runners)[i]]));
        let k = keys[i];
        assert(c@.runners.contains_key(k) && is_book_of(b.runners@[i], c@.runners[k]));
    }
}

/// A market change leaves the remembered definition alone and advances the
/// definition counter exactly when it carries a market definition.
pub proof fn lemma_definition_cache_after_change(m: MarketView, mc: JsonValue, publish_time: i64)
    ensures
        market_update(m, mc, publish_time).cached_definition == m.cached_definition,
        market_update(m, mc, publish_time).cached_def_generation == m.cached_def_generation,
        market_update(m, mc, publish_time).def_generation == if mc.field("marketDefinition"@) is Some {
            next_generation(m.def_generation)
        } else {
            m.def_generation
        },
{
}

/// The definition a book shows once a market definition has arrived (the
/// previous book being current) is made from the market as the change left
/// it: its status fields, number of winners, number of active runners and
/// version are the market's, its fields the market's definition fields, and
/// its runners the market's definition runners.
#[verifier::rlimit(60)]
pub proof fn lemma_new_definition_contents(
    m: MarketView,
    mc: JsonValue,
    publish_time: i64,
    book: MarketBook,
)
    requires
        m.cached_def_generation == m.def_generation,
        mc.field("marketDefinition"@) is Some,
        is_market_book(book, market_update(m, mc, publish_time)),
    ensures
        ({
            let a = market_update(m, mc, publish_time);
            book.market_definition matches Some(d) && {
                &&& d.status@ == a.status.status
                &&& d.bet_delay == a.status.bet_delay
                &&& d.bsp_reconciled == a.status.bsp_reconciled
                &&& d.complete == a.status.complete
                &&& d.cross_matching == a.status.cross_matching
                &&& d.in_play == a.status.inplay
                &&& d.runners_voidable == a.status.runners_voidable
                &&& d.number_of_winners == a.number_of_winners
                &&& d.number_of_active_runners == a.number_of_active_runners
                &&& d.version == a.version
                &&& d@.fields == a.definition
                &&& d.runners@.len() == a.def_runners.len()
                &&& forall|i: int| 0 <= i < a.def_runners.len() ==> (#[trigger] d.runners@[i])@ == a.def_runners[i]
            }
        }),
{
    let a = market_update(m, mc, publish_time);
    lemma_definition_cache_after_change(m, mc, publish_time);
    assert(a.cached_def_generation != a.def_generation);
    if let Some(d) = book.market_definition {
        assert(d@.runners == a.def_runners);
        assert forall|i: int| 0 <= i < a.def_runners.len() implies (#[trigger] d.runners@[i])@
            == a.def_runners[i] by {
            assert(d@.runners[i] == d.runners@[i]@);
        }
    }
}

/// Runner entries are applied in the order they come: two entries are the
/// first applied, then the second.
pub proof fn lemma_runner_entries_in_order(
    rs: Map<RunnerKey, RunnerView>,
    a: JsonValue,
    b: JsonValue,
    from_definition: bool,
)
    ensures
        runners_fold(rs, seq![a, b], from_definition) == runners_step(
            runners_step(rs, a, from_definition),
            b,
            from_definition,
        ),
{
    assert(seq![a, b].drop_last() =~= seq![a]);
    assert(seq![a].drop_last() =~= Seq::<JsonValue>::empty());
    assert(runners_fold(rs, Seq::<JsonValue>::empty(), from_definition) == rs);
    assert(runners_fold(rs, seq![a], from_definition) == runners_step(rs, a, from_definition));
}

/// The market changes of a message are applied in the order they come.
pub proof fn lemma_changes_in_order(cache: Option<MarketView>, a: JsonValue, b: JsonValue, publish_time: i64)
    ensures
        apply_changes(cache, seq![a, b], publish_time) == apply_change(
            apply_change(cache, a, publish_time),
            b,
            publish_time,
        ),
{
    assert(seq![a, b].drop_last() =~= seq![a]);
    assert(seq![a].drop_last() =~= Seq::<JsonValue>::empty());
    assert(apply_changes(cache, Seq::<JsonValue>::empty(), publish_time) == cache);
    assert(apply_changes(cache, seq![a], publish_time) == apply_change(cache, a, publish_time));
}

/// A ladder batch is applied in the order it comes.
pub proof fn lemma_ladder_updates_in_order(m: Map<u64, u64>, a: JsonValue, b: JsonValue)
    ensures
        ladder_fold(m, seq![a, b]).0 == ladder_step(ladder_step(m, a).0, b).0,
{
    assert(seq![a, b].drop_last() =~= seq![a]);
    assert(seq![a].drop_last() =~= Seq::<JsonValue>::empty());
    assert(ladder_fold(m, Seq::<JsonValue>::empty()) == (m, false));
    assert(ladder_fold(m, seq![a]).0 == ladder_step(m, a).0);
}

/// The readers of a member of a JSON object: a member that is a number reads
/// as its integer value, bit pattern and hundredths, one that is a string as
/// its text, a boolean as its value and an array as its elements; a member of
/// another kind, or a missing member, reads as nothing.
pub proof fn lemma_member_readers(obj: JsonValue, key: Seq<char>)
    ensures
        match obj.field(key) {
            Some(JsonValue::Number(n)) => obj.field_i64(key) == n.int && obj.field_f64(key) == Some(
                n.bits,
            ) && obj.field_hundredths(key) == Some(n.hundredths) && obj.field_str(key) is None
                && obj.field_bool(key) is None && obj.field_array(key) is None,
            Some(JsonValue::Str(t)) => obj.field_str(key) == Some(t@) && obj.field_f64(key) is None
                && obj.field_i64(key) is None && obj.field_bool(key) is None && obj.field_array(
                key,
            ) is None,
            Some(JsonValue::Bool(x)) => obj.field_bool(key) == Some(x) && obj.field_f64(key) is None
                && obj.field_str(key) is None && obj.field_i64(key) is None,
            Some(JsonValue::Array(v)) => obj.field_array(key) == Some(v@) && obj.field_f64(key) is None
                && obj.field_str(key) is None && obj.field_bool(key) is None,
            Some(_) => obj.field_f64(key) is None && obj.field_str(key) is None && obj.field_bool(
                key,
            ) is None && obj.field_array(key) is None && obj.field_i64(key) is None,
            None => obj.field_f64(key) is None && obj.field_str(key) is None && obj.field_bool(key) is None
                && obj.field_array(key) is None && obj.field_i64(key) is None,
        },
{
}

/// A member of an object is found by its name: where the first member with
/// that name is at `i`, the object's member of that name is that member's
/// value; an object with no member of that name has none.
pub proof fn lemma_member_found(entries: Vec<(String, JsonValue)>, key: Seq<char>, i: int)
    requires
        0 <= i < entries@.len(),
        entries@[i].0@ == key,
        forall|j: int| 0 <= j < i ==> entries@[j].0@ != key,
    ensures
        JsonValue::Object(entries).field(key) == Some(entries@[i].1),
{
    crate::json::lemma_first_index(entries@, key, i);
}

/// An object none of whose members has the name has no member of that name.
pub proof fn lemma_member_missing(entries: Vec<(String, JsonValue)>, key: Seq<char>)
    requires
        forall|j: int| 0 <= j < entries@.len() ==> entries@[j].0@ != key,
    ensures
        JsonValue::Object(entries).field(key) is None,
{
}

/// A generation counter always moves when advanced: it counts up by one and
/// goes round to zero after its largest value.
pub proof fn lemma_next_generation(g: u64)
    ensures
        next_generation(g) != g,
        g < u64::MAX ==> next_generation(g) == g + 1,
        g == u64::MAX ==> next_generation(g) == 0,
{
}

/// Among ASCII characters, the white space that a blank line may hold is
/// exactly tab, line feed, vertical tab, form feed, carriage return and space.
pub proof fn lemma_ascii_white_space(c: char)
    requires
        (c as u32) < 128,
    ensures
        crate::parse::spec_is_white_space(c) <==> (c == '\t' || c == '\n' || c == '\x0b' || c == '\x0c'
            || c == '\r' || c == ' '),
{
}

/// A market not heard of yet is open, complete, cross matching, not in play,
/// with no delay, no reconciled starting prices, no voidable runners, one
/// winner, no runners, nothing matched, version zero, no match time, no
/// definition received (persistence enabled, every other definition field
/// empty or false) and no definition shown.
pub proof fn lemma_new_market(market_id: Seq<char>)
    ensures
        ({
            let m = market_initial(market_id);
            &&& m.market_id == market_id
            &&& m.publish_time == 0
            &&& m.status.status == "OPEN"@
            &&& m.status.bet_delay == 0
            &&& !m.status.bsp_reconciled
            &&& m.status.complete
            &&& m.status.cross_matching
            &&& !m.status.inplay
            &&& !m.status.runners_voidable
            &&& m.number_of_winners == 1
            &&& m.number_of_runners == 0
            &&& m.number_of_active_runners == 0
            &&& m.runners.dom().is_empty()
            &&& m.total_matched == 0
            &&& m.version == 0
            &&& m.last_match_time is None
            &&& m.definition.event_id is None && m.definition.event_type_id is None
            &&& m.definition.event_name is None && m.definition.market_type is None
            &&& m.definition.market_time is None && m.definition.country_code is None
            &&& m.definition.venue is None && m.definition.race_type is None
            &&& m.definition.name is None && m.definition.timezone is None
            &&& m.definition.betting_type is None && m.definition.open_date is None
            &&& m.definition.suspend_time is None && m.definition.settled_time is None
            &&& !m.definition.bsp_market && m.definition.persistence_enabled
            &&& !m.definition.turn_in_play_enabled && !m.definition.discount_allowed
            &&& m.definition.each_way_divisor is None && m.definition.market_base_rate == 0
            &&& m.definition.regulators.len() == 0
            &&& m.def_runners.len() == 0
            &&& book_definition(m) is None
        }),
{
}

/// A list of regulators given as strings becomes the regulators, in order.
pub proof fn lemma_regulators_read(arr: Seq<JsonValue>)
    requires
        forall|i: int| 0 <= i < arr.len() ==> (#[trigger] arr[i]).str_value() is Some,
    ensures
        str_elements(arr).len() == arr.len(),
        forall|i: int| 0 <= i < arr.len() ==> Some(#[trigger] str_elements(arr)[i]) == arr[i].str_value(),
    decreases arr.len(),
{
    if arr.len() > 0 {
        let init = arr.drop_last();
        assert forall|i: int| 0 <= i < init.len() implies (#[trigger] init[i]).str_value() is Some by {
            assert(init[i] == arr[i]);
        }
        lemma_regulators_read(init);
        assert(arr[arr.len() - 1] == arr.last());
        assert forall|i: int| 0 <= i < arr.len() implies Some(#[trigger] str_elements(arr)[i])
            == arr[i].str_value() by {
            if i < arr.len() - 1 {
                assert(init[i] == arr[i]);
                assert(str_elements(arr)[i] == str_elements(init)[i]);
            }
        }
    }
}

/// The dictionary of a list of prices and sizes lists, in the same order, the
/// dictionary of each price and size.
pub proof fn lemma_price_sizes_dict(v: Seq<PriceSize>)
    ensures
        price_sizes_dict(v) matches DictView::List(items) && items.len() == v.len() && forall|i: int|
            0 <= i < v.len() ==> dict_lookup(#[trigger] items[i], "price"@) == Some(
                DictView::Float(v[i].price),
            ) && dict_lookup(items[i], "size"@) == Some(DictView::Float(v[i].size)),
{
    if let DictView::List(items) = price_sizes_dict(v) {
        assert forall|i: int| 0 <= i < v.len() implies dict_lookup(#[trigger] items[i], "price"@)
            == Some(DictView::Float(v[i].price)) && dict_lookup(items[i], "size"@) == Some(
            DictView::Float(v[i].size),
        ) by {
            lemma_price_size_dict(v[i]);
        }
    }
}

/// A market definition listing a single runner entry, in a change without
/// runner changes of its own, files the runner the entry names (creating it
/// with the entry's id when it is new, or after an image) and gives it the
/// entry's status, adjustment factor and removal date.
pub proof fn lemma_definition_entry_reaches_runner(
    m: MarketView,
    mc: JsonValue,
    publish_time: i64,
    def: JsonValue,
    e: JsonValue,
    id: i64,
    s: Seq<char>,
)
    requires
        mc.field("marketDefinition"@) == Some(def),
        def.field_array("runners"@) == Some(seq![e]),
        mc.field_array("rc"@) is None,
        e.field_i64("id"@) == Some(id),
        e.field_str("status"@) == Some(s),
    ensures
        ({
            let k = (id, e.field_hundredths("hc"@).unwrap_or(0));
            let a = market_update(m, mc, publish_time);
            &&& a.runners.contains_key(k)
            &&& a.runners[k].status == s
            &&& a.runners[k].selection_id == (if m.runners.contains_key(k)
                && mc.field_bool("img"@) != Some(true) {
                m.runners[k].selection_id
            } else {
                id
            })
            &&& e.field_f64("adjustmentFactor"@) matches Some(f) ==> (a.runners[k].adjustment_factor
                matches Some(x) && (x == f || spec_float_eq(x, f)))
            &&& e.field_str("removalDate"@) matches Some(d) ==> a.runners[k].removal_date == Some(d)
        }),
{
    let rs = seq![e];
    assert(rs.drop_last() =~= Seq::<JsonValue>::empty());
    assert(rs.last() == e);
    let before = if mc.field_bool("img"@) == Some(true) {
        Map::<RunnerKey, RunnerView>::empty()
    } else {
        m.runners
    };
    assert(runners_fold(before, Seq::<JsonValue>::empty(), true) == before);
    assert(runners_fold(before, rs, true) == runners_step(before, e, true));
    lemma_runner_entry_filed(before, e, true);
    let k = (id, e.field_hundredths("hc"@).unwrap_or(0));
    let base = if before.contains_key(k) {
        before[k]
    } else {
        runner_initial(id, e.field_f64("hc"@).unwrap_or(0))
    };
    lemma_definition_entry_fields(base, e);
}

/// The dictionary of a price and size holds the price under `price` and the
/// size under `size`.
pub proof fn lemma_price_size_dict(p: PriceSize)
    ensures
        dict_lookup(price_size_dict(p), "price"@) == Some(DictView::Float(p.price)),
        dict_lookup(price_size_dict(p), "size"@) == Some(DictView::Float(p.size)),
{
    reveal_strlit("price");
    reveal_strlit("size");
    if let DictView::Dict(es) = price_size_dict(p) {
        assert("size"@ != "price"@) by {
            assert("size"@.len() != "price"@.len());
        }
        lemma_entry_lookup_at(es, "price"@, 0);
        lemma_entry_lookup_at(es, "size"@, 1);
    }
}

} // verus!
